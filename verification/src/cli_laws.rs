//! What holds of the command line, in terms of what goes into and comes out of the
//! functions that read it.

use crate::addr::IpAddr;
use crate::cli::{
    default_settings, law_words_are_read_in_order, lookup_target, parse_args, read_words, resolve,
    settings_of, shown_outcome, words_of, Args, Settings,
};
use crate::error::Error;
use crate::probe::ProbeOutcome;
use crate::text::{parse_u16_error, parse_u32_error, parse_u64_error, unsigned_value};
use crate::text_laws::is_decimal;
use crate::time::duration_nanos;
use vstd::prelude::*;
use vstd::string::*;

verus! {

/// Whether `argv` is `words`.
pub open spec fn writes(argv: Seq<String>, words: Seq<Seq<char>>) -> bool {
    &&& argv.len() == words.len()
    &&& forall|i: int| 0 <= i < words.len() ==> (#[trigger] argv[i])@ == words[i]
}

/// The greatest number that an option takes.
pub open spec fn greatest(option: Seq<char>) -> nat {
    if option == "-c"@ {
        0xffff_ffff
    } else if option == "-s"@ {
        0xffff
    } else {
        0xffff_ffff_ffff_ffff
    }
}

/// Whether `word` is one of the three options.
pub open spec fn is_option(word: Seq<char>) -> bool {
    word == "-c"@ || word == "-s"@ || word == "-W"@
}

/// Whether `option` is an option and `argument` a number that it takes.
pub open spec fn is_setting(option: Seq<char>, argument: Seq<char>) -> bool {
    &&& is_option(option)
    &&& unsigned_value(argument) matches Some(value)
    &&& value <= greatest(option)
}

/// Whether `words` are options, each with a number that it takes.
pub open spec fn are_settings(words: Seq<Seq<char>>) -> bool
    decreases words.len(),
{
    words.len() == 0 || {
        &&& words.len() >= 2
        &&& is_setting(words[words.len() - 2], words[words.len() - 1])
        &&& are_settings(words.take(words.len() - 2))
    }
}

/// The number behind the last `option` among `words`, or `default` where there is
/// none.
pub open spec fn last_value(words: Seq<Seq<char>>, option: Seq<char>, default: nat) -> nat
    decreases words.len(),
{
    if words.len() < 2 {
        default
    } else if words[words.len() - 2] == option {
        unsigned_value(words[words.len() - 1])->0
    } else {
        last_value(words.take(words.len() - 2), option, default)
    }
}

/// Whether `word` starts with a dash.
pub open spec fn is_dashed(word: Seq<char>) -> bool {
    word.len() > 0 && word[0] == '-'
}

/// Whether `r` is success with these settings.
pub open spec fn accepts(
    r: Result<Args, String>,
    dest: Seq<char>,
    count: nat,
    size: nat,
    secs: nat,
) -> bool {
    &&& r matches Ok(args)
    &&& args.dest_str@ == dest
    &&& args.count == count
    &&& args.size == size
    &&& duration_nanos(args.timeout) == secs * 1_000_000_000
}

/// Whether `r` is an error with that message.
pub open spec fn refuses(r: Result<Args, String>, message: Seq<char>) -> bool {
    r matches Err(text) && text@ == message
}

/// How to call `prog`.
pub open spec fn usage_of(prog: Seq<char>) -> Seq<char> {
    "usage: "@ + prog + " <destination> [-c count] [-s size] [-W timeout]"@
}

spec fn with_settings(words: Seq<Seq<char>>, settings: Settings) -> Settings {
    Settings {
        dest: settings.dest,
        count: last_value(words, "-c"@, settings.count as nat) as u32,
        size: last_value(words, "-s"@, settings.size as nat) as u16,
        timeout_secs: last_value(words, "-W"@, settings.timeout_secs as nat) as u64,
    }
}

proof fn lemma_options_differ()
    ensures
        "-c"@ != "-s"@,
        "-c"@ != "-W"@,
        "-s"@ != "-W"@,
        is_dashed("-c"@) && is_dashed("-s"@) && is_dashed("-W"@),
{
    reveal_strlit("-c");
    reveal_strlit("-s");
    reveal_strlit("-W");
    assert("-c"@[1] == 'c' && "-s"@[1] == 's' && "-W"@[1] == 'W');
}

proof fn lemma_last_values_fit(words: Seq<Seq<char>>, settings: Settings)
    requires
        are_settings(words),
    ensures
        last_value(words, "-c"@, settings.count as nat) <= 0xffff_ffff,
        last_value(words, "-s"@, settings.size as nat) <= 0xffff,
        last_value(words, "-W"@, settings.timeout_secs as nat) <= 0xffff_ffff_ffff_ffff,
    decreases words.len(),
{
    lemma_options_differ();
    if words.len() > 0 {
        lemma_last_values_fit(words.take(words.len() - 2), settings);
    }
}

proof fn lemma_settings_are_read(words: Seq<Seq<char>>, prog: Seq<char>, settings: Settings)
    requires
        are_settings(words),
    ensures
        read_words(words, prog, settings) == Ok::<Settings, Seq<char>>(
            with_settings(words, settings),
        ),
    decreases words.len(),
{
    if words.len() > 0 {
        lemma_options_differ();
        let before = words.take(words.len() - 2);
        let option = words[words.len() - 2];
        let argument = words[words.len() - 1];
        lemma_settings_are_read(before, prog, settings);
        lemma_last_values_fit(before, settings);
        let pair = seq![option, argument];
        assert(words =~= before + pair);
        law_words_are_read_in_order(before, pair, prog, settings);
        reveal_with_fuel(read_words, 2);
        assert(pair.skip(2) =~= Seq::empty());
        assert(pair[0] == option && pair[1] == argument);
    }
}

/// What is read of settings and then `more`.
proof fn lemma_settings_and_more(
    words: Seq<Seq<char>>,
    more: Seq<Seq<char>>,
    prog: Seq<char>,
    settings: Settings,
)
    requires
        are_settings(words),
    ensures
        read_words(words + more, prog, settings) == read_words(
            more,
            prog,
            with_settings(words, settings),
        ),
{
    lemma_settings_are_read(words, prog, settings);
    law_words_are_read_in_order(words, more, prog, settings);
}

/// What is read of a destination and then `more`.
proof fn lemma_destination_and_more(
    dest: Seq<char>,
    more: Seq<Seq<char>>,
    prog: Seq<char>,
    settings: Settings,
)
    requires
        !is_dashed(dest),
        settings.dest is None,
    ensures
        read_words(seq![dest] + more, prog, settings) == read_words(
            more,
            prog,
            Settings { dest: Some(dest), ..settings },
        ),
{
    lemma_options_differ();
    let words = seq![dest] + more;
    assert(words[0] == dest);
    assert(words.skip(1) =~= more);
}

proof fn lemma_words(argv: Seq<String>, prog: Seq<char>, words: Seq<Seq<char>>)
    requires
        writes(argv, seq![prog] + words),
    ensures
        words_of(argv).len() > 0,
        words_of(argv)[0] == prog,
        words_of(argv).skip(1) == words,
{
    let all = words_of(argv);
    assert(all =~= seq![prog] + words) by {
        assert forall|i: int| 0 <= i < all.len() implies all[i] == (seq![prog] + words)[i] by {
            assert(argv[i]@ == (seq![prog] + words)[i]);
        }
    }
    assert(all.skip(1) =~= words);
}

/// A destination and settings behind it are accepted where the size leaves room
/// behind the timestamp. Each setting is the number that was given last, and where
/// none was given, 5 probes, 56 bytes and 1 second.
pub proof fn law_settings_are_those_given_last(
    argv: Vec<String>,
    r: Result<Args, String>,
    prog: Seq<char>,
    dest: Seq<char>,
    words: Seq<Seq<char>>,
)
    requires
        writes(argv@, seq![prog] + (seq![dest] + words)),
        !is_dashed(dest),
        are_settings(words),
        call_ensures(parse_args, (&argv,), r),
    ensures
        last_value(words, "-s"@, 56) > 8 ==> accepts(
            r,
            dest,
            last_value(words, "-c"@, 5),
            last_value(words, "-s"@, 56),
            last_value(words, "-W"@, 1),
        ),
        last_value(words, "-s"@, 56) <= 8 ==> refuses(
            r,
            "size must be greater than 8 (first 8 bytes are reserved for timestamp)"@,
        ),
{
    lemma_words(argv@, prog, seq![dest] + words);
    lemma_destination_and_more(dest, words, prog, default_settings());
    let settings = Settings { dest: Some(dest), ..default_settings() };
    lemma_settings_are_read(words, prog, settings);
    lemma_last_values_fit(words, settings);
}

/// The number behind an option is what it sets, and it sets nothing else.
pub proof fn law_an_option_sets_its_number(
    argv: Vec<String>,
    r: Result<Args, String>,
    prog: Seq<char>,
    dest: Seq<char>,
    option: Seq<char>,
    number: Seq<char>,
    n: nat,
)
    requires
        writes(argv@, seq![prog] + (seq![dest] + seq![option, number])),
        !is_dashed(dest),
        is_option(option),
        is_decimal(number, n),
        n <= greatest(option),
        option == "-s"@ ==> n > 8,
        call_ensures(parse_args, (&argv,), r),
    ensures
        option == "-c"@ ==> accepts(r, dest, n, 56, 1),
        option == "-s"@ ==> accepts(r, dest, 5, n, 1),
        option == "-W"@ ==> accepts(r, dest, 5, 56, n),
{
    lemma_options_differ();
    let words = seq![option, number];
    assert(words[0] == option && words[1] == number);
    assert(words.take(0).len() == 0);
    reveal_with_fuel(are_settings, 2);
    reveal_with_fuel(last_value, 2);
    law_settings_are_those_given_last(argv, r, prog, dest, words);
}

/// Without a destination a command line is refused.
pub proof fn law_a_destination_is_required(
    argv: Vec<String>,
    r: Result<Args, String>,
    prog: Seq<char>,
    words: Seq<Seq<char>>,
    empty: Vec<String>,
    empty_r: Result<Args, String>,
)
    requires
        writes(argv@, seq![prog] + words),
        are_settings(words),
        call_ensures(parse_args, (&argv,), r),
        empty@.len() == 0,
        call_ensures(parse_args, (&empty,), empty_r),
    ensures
        refuses(r, usage_of(prog)),
        refuses(empty_r, usage_of("ping"@)),
{
    lemma_words(argv@, prog, words);
    lemma_settings_are_read(words, prog, default_settings());
    assert(words_of(empty@) =~= Seq::empty());
}

/// Whether two command lines have the same result.
pub open spec fn same_result(a: Result<Args, String>, b: Result<Args, String>) -> bool {
    match (a, b) {
        (Ok(a), Ok(b)) => {
            &&& a.dest_str@ == b.dest_str@
            &&& a.count == b.count
            &&& a.size == b.size
            &&& duration_nanos(a.timeout) == duration_nanos(b.timeout)
        },
        (Err(a), Err(b)) => a@ == b@,
        _ => false,
    }
}

/// Settings may stand before the destination as well as behind it.
pub proof fn law_settings_may_precede_the_destination(
    argv: Vec<String>,
    r: Result<Args, String>,
    other: Vec<String>,
    other_r: Result<Args, String>,
    prog: Seq<char>,
    dest: Seq<char>,
    words: Seq<Seq<char>>,
    more: Seq<Seq<char>>,
)
    requires
        writes(argv@, seq![prog] + (words + (seq![dest] + more))),
        writes(other@, seq![prog] + (seq![dest] + (words + more))),
        !is_dashed(dest),
        are_settings(words),
        call_ensures(parse_args, (&argv,), r),
        call_ensures(parse_args, (&other,), other_r),
    ensures
        same_result(r, other_r),
{
    let settings = default_settings();
    let with_dest = Settings { dest: Some(dest), ..settings };
    lemma_words(argv@, prog, words + (seq![dest] + more));
    lemma_words(other@, prog, seq![dest] + (words + more));
    lemma_settings_and_more(words, seq![dest] + more, prog, settings);
    lemma_destination_and_more(dest, more, prog, with_settings(words, settings));
    lemma_destination_and_more(dest, words + more, prog, settings);
    lemma_settings_and_more(words, more, prog, with_dest);
    assert(settings_of(words_of(argv@)) == settings_of(words_of(other@)));
}

/// The message with which `bad` is refused, and everything behind it: an option
/// without its argument at the end, an option with an argument that is no number
/// that it takes, or another word with a dash.
pub open spec fn complaint(prog: Seq<char>, bad: Seq<Seq<char>>) -> Option<Seq<char>> {
    if bad.len() == 0 {
        None
    } else if !is_option(bad[0]) {
        if is_dashed(bad[0]) {
            Some(usage_of(prog))
        } else {
            None
        }
    } else if bad.len() == 1 {
        Some(bad[0] + " requires an argument"@)
    } else if is_setting(bad[0], bad[1]) {
        None
    } else if bad[0] == "-c"@ {
        Some("-c"@ + ": "@ + parse_u32_error(bad[1]))
    } else if bad[0] == "-s"@ {
        Some("-s"@ + ": "@ + parse_u16_error(bad[1]))
    } else {
        Some("-W"@ + ": "@ + parse_u64_error(bad[1]))
    }
}

proof fn lemma_complaint(prog: Seq<char>, bad: Seq<Seq<char>>, settings: Settings)
    requires
        complaint(prog, bad) is Some,
    ensures
        read_words(bad, prog, settings) == Err::<Settings, Seq<char>>(complaint(prog, bad)->0),
{
    lemma_options_differ();
    reveal_strlit("-c");
    reveal_strlit("-s");
    reveal_strlit("-W");
    reveal_strlit("-c: ");
    reveal_strlit("-s: ");
    reveal_strlit("-W: ");
    reveal_strlit(": ");
    assert("-c"@ + ": "@ =~= "-c: "@);
    assert("-s"@ + ": "@ =~= "-s: "@);
    assert("-W"@ + ": "@ =~= "-W: "@);
    reveal_strlit(" requires an argument");
    reveal_strlit("-c requires an argument");
    reveal_strlit("-s requires an argument");
    reveal_strlit("-W requires an argument");
    assert("-c"@ + " requires an argument"@ =~= "-c requires an argument"@);
    assert("-s"@ + " requires an argument"@ =~= "-s requires an argument"@);
    assert("-W"@ + " requires an argument"@ =~= "-W requires an argument"@);
}

/// The first words that cannot be read have the command line refused, with or
/// without a destination before them, and whatever follows them.
pub proof fn law_the_first_unreadable_words_are_refused(
    argv: Vec<String>,
    r: Result<Args, String>,
    other: Vec<String>,
    other_r: Result<Args, String>,
    prog: Seq<char>,
    dest: Seq<char>,
    words: Seq<Seq<char>>,
    bad: Seq<Seq<char>>,
)
    requires
        writes(argv@, seq![prog] + (words + bad)),
        writes(other@, seq![prog] + (seq![dest] + (words + bad))),
        !is_dashed(dest),
        are_settings(words),
        complaint(prog, bad) is Some,
        call_ensures(parse_args, (&argv,), r),
        call_ensures(parse_args, (&other,), other_r),
    ensures
        refuses(r, complaint(prog, bad)->0),
        refuses(other_r, complaint(prog, bad)->0),
{
    let settings = default_settings();
    let with_dest = Settings { dest: Some(dest), ..settings };
    lemma_words(argv@, prog, words + bad);
    lemma_words(other@, prog, seq![dest] + (words + bad));
    lemma_settings_and_more(words, bad, prog, settings);
    lemma_destination_and_more(dest, words + bad, prog, settings);
    lemma_settings_and_more(words, bad, prog, with_dest);
    lemma_complaint(prog, bad, with_settings(words, settings));
    lemma_complaint(prog, bad, with_settings(words, with_dest));
}

/// A second destination is refused by its name, whatever follows it.
pub proof fn law_a_second_destination_is_refused(
    argv: Vec<String>,
    r: Result<Args, String>,
    prog: Seq<char>,
    dest: Seq<char>,
    words: Seq<Seq<char>>,
    second: Seq<char>,
    more: Seq<Seq<char>>,
)
    requires
        writes(argv@, seq![prog] + (seq![dest] + (words + (seq![second] + more)))),
        !is_dashed(dest),
        !is_dashed(second),
        are_settings(words),
        call_ensures(parse_args, (&argv,), r),
    ensures
        refuses(r, "unexpected argument: "@ + second),
{
    let settings = default_settings();
    let with_dest = Settings { dest: Some(dest), ..settings };
    let rest = seq![second] + more;
    lemma_options_differ();
    lemma_words(argv@, prog, seq![dest] + (words + rest));
    lemma_destination_and_more(dest, words + rest, prog, settings);
    lemma_settings_and_more(words, rest, prog, with_dest);
    assert(rest[0] == second);
}

/// A destination is looked up under its name at port zero.
pub proof fn law_a_destination_is_looked_up_at_port_zero(dest: &str, target: String)
    requires
        call_ensures(lookup_target, (dest,), target),
    ensures
        target@ == dest@ + ":0"@,
{
}

/// An address that is written wins over one that was found, and there is an error
/// exactly where there is neither.
pub proof fn law_a_written_address_wins(
    literal: Option<IpAddr>,
    found: Option<IpAddr>,
    ip: Result<IpAddr, Error>,
)
    requires
        call_ensures(resolve, (literal, found), ip),
    ensures
        literal is Some ==> ip is Ok && literal == Some(ip->Ok_0),
        literal is None && found is Some ==> ip is Ok && found == Some(ip->Ok_0),
        literal is None && found is None <==> ip == Err::<IpAddr, Error>(Error::NoAddressFound),
{
}

/// A reply is shown. An error is a lost probe where it is a timeout, and else it
/// stays an error.
pub proof fn law_only_timeouts_are_shown_as_lost<T, E>(
    result: Result<T, E>,
    timed_out: bool,
    outcome: Result<ProbeOutcome<T>, E>,
)
    requires
        call_ensures(shown_outcome::<T, E>, (result, timed_out), outcome),
    ensures
        outcome matches Ok(ProbeOutcome::Reply(reply)) ==> result == Ok::<T, E>(reply),
        outcome matches Ok(ProbeOutcome::ReplyTimedOut) ==> result is Err && timed_out,
        outcome matches Err(error) ==> result == Err::<T, E>(error) && !timed_out,
{
}

} // verus!
