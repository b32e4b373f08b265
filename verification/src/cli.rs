//! The command line of the `ping` program.

use crate::addr::IpAddr;
use crate::error::Error;
use crate::packet::TIMESTAMP_SIZE;
use crate::probe::ProbeOutcome;
use crate::text::{
    joined, parse_u16, parse_u16_error, parse_u32, parse_u32_error, parse_u64, parse_u64_error,
    same_text, starts_with, unsigned_value_up_to,
};
use crate::time::{duration_nanos, NANOS_PER_SEC};
use std::time::Duration;
use vstd::prelude::*;
use vstd::string::*;

verus! {

/// What the command line asks for.
pub struct Args {
    /// The destination as typed by the user (for display).
    pub dest_str: String,
    /// Number of echo requests to send.
    pub count: u32,
    /// Total ICMP payload size in bytes (must be > 8; first 8 are timestamp).
    pub size: u16,
    /// Per-probe receive timeout.
    pub timeout: Duration,
}

/// What has been read of a command line.
pub struct Settings {
    pub dest: Option<Seq<char>>,
    pub count: u32,
    pub size: u16,
    pub timeout_secs: u64,
}

/// What holds until a command line says otherwise.
pub open spec fn default_settings() -> Settings {
    Settings { dest: None, count: 5, size: 56, timeout_secs: 1 }
}

/// How to call the program, under the name `prog`.
pub open spec fn usage_text(prog: Seq<char>) -> Seq<char> {
    "usage: "@ + prog + " <destination> [-c count] [-s size] [-W timeout]"@
}

/// The settings after reading `words` on top of `settings`, or the message with
/// which they are refused.
pub open spec fn read_words(
    words: Seq<Seq<char>>,
    prog: Seq<char>,
    settings: Settings,
) -> Result<Settings, Seq<char>>
    decreases words.len(),
{
    if words.len() == 0 {
        Ok(settings)
    } else if words[0] == "-c"@ {
        if words.len() == 1 {
            Err("-c requires an argument"@)
        } else {
            match unsigned_value_up_to(words[1], u32::MAX as nat) {
                Some(count) => read_words(
                    words.skip(2),
                    prog,
                    Settings { count: count as u32, ..settings },
                ),
                None => Err("-c: "@ + parse_u32_error(words[1])),
            }
        }
    } else if words[0] == "-s"@ {
        if words.len() == 1 {
            Err("-s requires an argument"@)
        } else {
            match unsigned_value_up_to(words[1], u16::MAX as nat) {
                Some(size) => read_words(
                    words.skip(2),
                    prog,
                    Settings { size: size as u16, ..settings },
                ),
                None => Err("-s: "@ + parse_u16_error(words[1])),
            }
        }
    } else if words[0] == "-W"@ {
        if words.len() == 1 {
            Err("-W requires an argument"@)
        } else {
            match unsigned_value_up_to(words[1], u64::MAX as nat) {
                Some(secs) => read_words(
                    words.skip(2),
                    prog,
                    Settings { timeout_secs: secs as u64, ..settings },
                ),
                None => Err("-W: "@ + parse_u64_error(words[1])),
            }
        }
    } else if words[0].len() > 0 && words[0][0] == '-' {
        Err(usage_text(prog))
    } else if settings.dest is Some {
        Err("unexpected argument: "@ + words[0])
    } else {
        read_words(words.skip(1), prog, Settings { dest: Some(words[0]), ..settings })
    }
}

/// The settings of a command line, or the message with which it is refused. The
/// first word is the name of the program.
pub open spec fn settings_of(words: Seq<Seq<char>>) -> Result<Settings, Seq<char>> {
    let prog = if words.len() > 0 {
        words[0]
    } else {
        "ping"@
    };
    let arguments = if words.len() > 0 {
        words.skip(1)
    } else {
        words
    };
    match read_words(arguments, prog, default_settings()) {
        Ok(settings) => if settings.dest is None {
            Err(usage_text(prog))
        } else if settings.size <= TIMESTAMP_SIZE {
            Err("size must be greater than 8 (first 8 bytes are reserved for timestamp)"@)
        } else {
            Ok(settings)
        },
        Err(message) => Err(message),
    }
}

/// The words of a command line.
pub open spec fn words_of(argv: Seq<String>) -> Seq<Seq<char>> {
    argv.map_values(|word: String| word@)
}

fn usage(prog: &str) -> (text: String)
    ensures
        text@ == usage_text(prog@),
{
    joined(
        joined("usage: ", prog).as_str(),
        " <destination> [-c count] [-s size] [-W timeout]",
    )
}

/// Read the command line `argv`, whose first word is the name of the program.
pub fn parse_args(argv: &Vec<String>) -> (r: Result<Args, String>)
    ensures
        match (r, settings_of(words_of(argv@))) {
            (Ok(args), Ok(settings)) => {
                &&& Some(args.dest_str@) == settings.dest
                &&& args.count == settings.count
                &&& args.size == settings.size
                &&& duration_nanos(args.timeout) == settings.timeout_secs * NANOS_PER_SEC
            },
            (Err(message), Err(expected)) => message@ == expected,
            _ => false,
        },
{
    let ghost words = words_of(argv@);
    if argv.len() == 0 {
        return Err(usage("ping"));
    }
    let prog: &str = argv[0].as_str();
    let mut dest: Option<String> = None;
    let mut count: u32 = 5;
    let mut size: u16 = 56;
    let mut timeout_secs: u64 = 1;

    let mut i: usize = 1;
    while i < argv.len()
        invariant
            1 <= i <= argv@.len(),
            words == words_of(argv@),
            prog@ == words[0],
            read_words(
                words.skip(i as int),
                words[0],
                Settings {
                    dest: match dest {
                        Some(text) => Some(text@),
                        None => None,
                    },
                    count,
                    size,
                    timeout_secs,
                },
            ) == read_words(words.skip(1), words[0], default_settings()),
        decreases argv@.len() - i,
    {
        let word: &str = argv[i].as_str();
        let ghost rest = words.skip(i as int);
        assert(rest[0] == word@);
        assert(rest.skip(1) =~= words.skip(i + 1));
        assert(i + 1 < argv@.len() ==> rest[1] == argv@[i + 1]@ && rest.skip(2) =~= words.skip(
            i + 2,
        ));
        if same_text(word, "-c") {
            i = i + 1;
            if i >= argv.len() {
                return Err("-c requires an argument".to_owned());
            }
            match parse_u32(argv[i].as_str()) {
                Ok(value) => {
                    count = value;
                },
                Err(message) => {
                    return Err(joined("-c: ", message.as_str()));
                },
            }
        } else if same_text(word, "-s") {
            i = i + 1;
            if i >= argv.len() {
                return Err("-s requires an argument".to_owned());
            }
            match parse_u16(argv[i].as_str()) {
                Ok(value) => {
                    size = value;
                },
                Err(message) => {
                    return Err(joined("-s: ", message.as_str()));
                },
            }
        } else if same_text(word, "-W") {
            i = i + 1;
            if i >= argv.len() {
                return Err("-W requires an argument".to_owned());
            }
            match parse_u64(argv[i].as_str()) {
                Ok(value) => {
                    timeout_secs = value;
                },
                Err(message) => {
                    return Err(joined("-W: ", message.as_str()));
                },
            }
        } else if !starts_with(word, '-') {
            if dest.is_some() {
                return Err(joined("unexpected argument: ", word));
            }
            dest = Some(word.to_owned());
        } else {
            return Err(usage(prog));
        }
        i = i + 1;
    }
    assert(words.skip(i as int) =~= Seq::empty());

    match dest {
        None => Err(usage(prog)),
        Some(dest_str) => if size as usize <= TIMESTAMP_SIZE {
            Err(
                "size must be greater than 8 (first 8 bytes are reserved for timestamp)".to_owned(),
            )
        } else {
            Ok(Args { dest_str, count, size, timeout: Duration::new(timeout_secs, 0) })
        },
    }
}

/// What to look up for a destination that is no IP address: it, with port 0.
pub fn lookup_target(dest: &str) -> (target: String)
    ensures
        target@ == dest@ + ":0"@,
{
    joined(dest, ":0")
}

/// The address of a destination: the one that it writes, else the first one that
/// was found for it.
pub fn resolve(literal: Option<IpAddr>, found: Option<IpAddr>) -> (ip: Result<IpAddr, Error>)
    ensures
        ip == match (literal, found) {
            (Some(ip), _) => Ok(ip),
            (None, Some(ip)) => Ok(ip),
            (None, None) => Err(Error::NoAddressFound),
        },
{
    match (literal, found) {
        (Some(ip), _) => Ok(ip),
        (None, Some(ip)) => Ok(ip),
        (None, None) => Err(Error::NoAddressFound),
    }
}

/// The outcome that the program shows for a probe that ended in `result`: every
/// error of the timed-out kind is a lost probe, and any other ends the program.
pub fn shown_outcome<T, E>(result: Result<T, E>, timed_out: bool) -> (outcome: Result<
    ProbeOutcome<T>,
    E,
>)
    ensures
        outcome == match result {
            Ok(reply) => Ok(ProbeOutcome::Reply(reply)),
            Err(error) => if timed_out {
                Ok(ProbeOutcome::ReplyTimedOut)
            } else {
                Err(error)
            },
        },
{
    match result {
        Ok(reply) => Ok(ProbeOutcome::Reply(reply)),
        Err(error) => if timed_out {
            Ok(ProbeOutcome::ReplyTimedOut)
        } else {
            Err(error)
        },
    }
}

/// A command line that is accepted names a destination and leaves room behind
/// the timestamp.
pub proof fn law_accepted_settings_are_usable(words: Seq<Seq<char>>)
    ensures
        settings_of(words) matches Ok(settings) ==> settings.dest is Some && settings.size
            > TIMESTAMP_SIZE,
{
}

/// A destination alone is pinged five times with 56 bytes, and each probe waits
/// for a second.
pub proof fn law_destination_alone_gets_defaults(prog: Seq<char>, dest: Seq<char>)
    requires
        dest.len() == 0 || dest[0] != '-',
    ensures
        settings_of(seq![prog, dest]) == Ok::<Settings, Seq<char>>(
            Settings { dest: Some(dest), count: 5, size: 56, timeout_secs: 1 },
        ),
{
    reveal_strlit("-c");
    reveal_strlit("-s");
    reveal_strlit("-W");
    reveal_with_fuel(read_words, 2);
    assert(seq![prog, dest].skip(1) =~= seq![dest]);
    assert(seq![dest].skip(1) =~= Seq::empty());
}

/// Words are read from left to right: what follows words that were accepted is
/// read on top of their settings, so that of a repeated option the last counts.
pub proof fn law_words_are_read_in_order(
    words: Seq<Seq<char>>,
    more: Seq<Seq<char>>,
    prog: Seq<char>,
    settings: Settings,
)
    ensures
        read_words(words, prog, settings) matches Ok(so_far) ==> read_words(
            words + more,
            prog,
            settings,
        ) == read_words(more, prog, so_far),
    decreases words.len(),
{
    if words.len() == 0 {
        assert(words + more =~= more);
    } else if read_words(words, prog, settings) is Ok {
        let all = words + more;
        assert(all[0] == words[0]);
        assert(all.skip(1) =~= words.skip(1) + more);
        if words.len() >= 2 {
            assert(all[1] == words[1]);
            assert(all.skip(2) =~= words.skip(2) + more);
        }
        if words[0] == "-c"@ {
            let count: u32 = unsigned_value_up_to(words[1], u32::MAX as nat)->0 as u32;
            law_words_are_read_in_order(
                words.skip(2),
                more,
                prog,
                Settings { count, ..settings },
            );
        } else if words[0] == "-s"@ {
            let size: u16 = unsigned_value_up_to(words[1], u16::MAX as nat)->0 as u16;
            law_words_are_read_in_order(words.skip(2), more, prog, Settings { size, ..settings });
        } else if words[0] == "-W"@ {
            let timeout_secs: u64 = unsigned_value_up_to(words[1], u64::MAX as nat)->0 as u64;
            law_words_are_read_in_order(
                words.skip(2),
                more,
                prog,
                Settings { timeout_secs, ..settings },
            );
        } else {
            let dest = Some(words[0]);
            law_words_are_read_in_order(words.skip(1), more, prog, Settings { dest, ..settings });
        }
    }
}

} // verus!
