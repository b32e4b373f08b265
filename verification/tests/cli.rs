use ping_tokio::addr::{IpAddr, Ipv4Addr};
use ping_tokio::cli::{lookup_target, parse_args, resolve, shown_outcome, Args};
use ping_tokio::error::{Error, ErrorKind};
use ping_tokio::probe::ProbeOutcome;
use std::time::Duration;

fn parse(words: &[&str]) -> Result<Args, String> {
    parse_args(&words.iter().map(|word| word.to_string()).collect())
}

fn refused(words: &[&str]) -> String {
    match parse(words) {
        Ok(_) => panic!("accepted {words:?}"),
        Err(message) => message,
    }
}

#[test]
fn defaults_hold_where_nothing_is_said() {
    let args = parse(&["ping", "example.org"]).unwrap();
    assert_eq!(args.dest_str, "example.org");
    assert_eq!(args.count, 5);
    assert_eq!(args.size, 56);
    assert_eq!(args.timeout, Duration::from_secs(1));
}

#[test]
fn options_may_stand_before_and_after_the_destination() {
    let args = parse(&["ping", "-c", "3", "::1", "-W", "18446744073709551615", "-s", "9"]).unwrap();
    assert_eq!(args.dest_str, "::1");
    assert_eq!(args.count, 3);
    assert_eq!(args.size, 9);
    assert_eq!(args.timeout, Duration::from_secs(u64::MAX));
}

#[test]
fn the_last_of_repeated_options_counts() {
    let args = parse(&["ping", "-c", "3", "h", "-c", "+7"]).unwrap();
    assert_eq!(args.count, 7);
}

#[test]
fn options_require_arguments() {
    assert_eq!(refused(&["ping", "h", "-c"]), "-c requires an argument");
    assert_eq!(refused(&["ping", "h", "-s"]), "-s requires an argument");
    assert_eq!(refused(&["ping", "h", "-W"]), "-W requires an argument");
}

#[test]
fn arguments_that_do_not_parse_are_refused_with_the_reason() {
    let invalid = "invalid digit found in string";
    let too_large = "number too large to fit in target type";
    let empty = "cannot parse integer from empty string";
    assert_eq!(refused(&["ping", "h", "-c", "-1"]), format!("-c: {invalid}"));
    assert_eq!(refused(&["ping", "h", "-c", "4294967296"]), format!("-c: {too_large}"));
    assert_eq!(refused(&["ping", "h", "-s", "65536"]), format!("-s: {too_large}"));
    assert_eq!(refused(&["ping", "h", "-s", "x"]), format!("-s: {invalid}"));
    assert_eq!(refused(&["ping", "h", "-W", ""]), format!("-W: {empty}"));
    assert_eq!(refused(&["ping", "h", "-W", "18446744073709551616"]), format!("-W: {too_large}"));
    // The word behind an option is its argument, whatever it is.
    assert_eq!(refused(&["ping", "-c", "-s"]), format!("-c: {invalid}"));
}

#[test]
fn there_is_one_destination() {
    assert_eq!(refused(&["ping", "a", "b"]), "unexpected argument: b");
    let usage = "usage: ./p <destination> [-c count] [-s size] [-W timeout]";
    assert_eq!(refused(&["./p"]), usage);
    assert_eq!(refused(&["./p", "-c", "2"]), usage);
    assert_eq!(refused(&["./p", "h", "-v"]), usage);
    assert_eq!(refused(&["./p", "-"]), usage);
    assert_eq!(refused(&[]), "usage: ping <destination> [-c count] [-s size] [-W timeout]");
}

#[test]
fn an_empty_word_is_a_destination() {
    assert_eq!(parse(&["ping", ""]).unwrap().dest_str, "");
}

#[test]
fn the_size_has_to_leave_room_behind_the_timestamp() {
    let message = "size must be greater than 8 (first 8 bytes are reserved for timestamp)";
    assert_eq!(refused(&["ping", "h", "-s", "8"]), message);
    assert_eq!(refused(&["ping", "h", "-s", "0"]), message);
    // A missing destination comes before it.
    let usage = "usage: ping <destination> [-c count] [-s size] [-W timeout]";
    assert_eq!(refused(&["ping", "-s", "8"]), usage);
}

#[test]
fn destinations_resolve_to_their_literal_or_the_first_address_found() {
    let a = IpAddr::V4(Ipv4Addr::new(127, 0, 0, 1));
    let b = IpAddr::V4(Ipv4Addr::new(10, 0, 0, 1));
    assert_eq!(resolve(Some(a), Some(b)), Ok(a));
    assert_eq!(resolve(Some(a), None), Ok(a));
    assert_eq!(resolve(None, Some(b)), Ok(b));
    let error = resolve(None, None).unwrap_err();
    assert_eq!(error, Error::NoAddressFound);
    assert_eq!(error.kind(), ErrorKind::NotFound);
    assert_eq!(error.message(), "no address found");
    assert_eq!(lookup_target("example.org"), "example.org:0");
}

#[test]
fn timeouts_are_shown_and_other_errors_end_the_program() {
    assert!(matches!(shown_outcome::<i32, &str>(Ok(4), false), Ok(ProbeOutcome::Reply(4))));
    let outcome = shown_outcome::<i32, &str>(Err("late"), true);
    assert!(matches!(outcome, Ok(ProbeOutcome::ReplyTimedOut)));
    assert!(matches!(shown_outcome::<i32, &str>(Err("denied"), false), Err("denied")));
}
