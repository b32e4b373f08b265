use ping_tokio::error::Error;
use ping_tokio::exchange::{exchange_step, ExchangeAction, ExchangeEvent, Failure};
use ping_tokio::probe::ProbeOutcome;

type Event = ExchangeEvent<u8, &'static str>;

/// What an exchange of a 64-byte request ends with, and after how many events.
fn outcome(events: Vec<Event>) -> (ExchangeAction<u8, &'static str>, usize) {
    let mut seen = 0;
    for event in events {
        seen += 1;
        match exchange_step(64, event) {
            ExchangeAction::Receive => {}
            ended => return (ended, seen),
        }
    }
    (ExchangeAction::Receive, seen)
}

#[test]
fn the_first_reply_ends_an_exchange() {
    let (action, seen) = outcome(vec![
        ExchangeEvent::Sent(Ok(64)),
        ExchangeEvent::Received(Ok(None)),
        ExchangeEvent::Received(Ok(Some(7))),
        ExchangeEvent::Received(Ok(Some(8))),
    ]);
    assert!(matches!(action, ExchangeAction::Finish(ProbeOutcome::Reply(7))));
    assert_eq!(seen, 3);
}

#[test]
fn an_expired_deadline_ends_an_exchange_without_an_error() {
    let (action, seen) = outcome(vec![
        ExchangeEvent::Sent(Ok(64)),
        ExchangeEvent::Received(Ok(None)),
        ExchangeEvent::DeadlineExpired,
        ExchangeEvent::Received(Ok(Some(7))),
    ]);
    assert!(matches!(action, ExchangeAction::Finish(ProbeOutcome::ReplyTimedOut)));
    assert_eq!(seen, 3);
}

#[test]
fn errors_of_sending_come_before_any_deadline() {
    let (action, seen) =
        outcome(vec![ExchangeEvent::Sent(Err("no peer")), ExchangeEvent::DeadlineExpired]);
    assert!(matches!(action, ExchangeAction::Fail(Failure::System("no peer"))));
    assert_eq!(seen, 1);
    let (action, seen) =
        outcome(vec![ExchangeEvent::Sent(Ok(63)), ExchangeEvent::DeadlineExpired]);
    assert!(matches!(action, ExchangeAction::Fail(Failure::Own(Error::IncompleteSend))));
    assert_eq!(seen, 1);
}

#[test]
fn errors_of_receiving_are_passed_on() {
    let (action, _) =
        outcome(vec![ExchangeEvent::Sent(Ok(64)), ExchangeEvent::Received(Err("refused"))]);
    assert!(matches!(action, ExchangeAction::Fail(Failure::System("refused"))));
}

#[test]
fn an_exchange_waits_while_nothing_decides() {
    let (action, _) =
        outcome(vec![ExchangeEvent::Sent(Ok(64)), ExchangeEvent::Received(Ok(None))]);
    assert!(matches!(action, ExchangeAction::Receive));
}
