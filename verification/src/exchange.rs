//! One echo exchange: a request is sent whole, and what comes in is looked at
//! until a reply to it comes, something fails, or the deadline expires.

use crate::error::Error;
use crate::probe::{send_request, wait_for_reply, ProbeOutcome};
use vstd::prelude::*;

verus! {

/// What happens in an exchange.
pub enum ExchangeEvent<R, E> {
    /// The socket took that many bytes of the request, or failed.
    Sent(Result<usize, E>),
    /// A datagram came in, which is the reply or something else, or receiving
    /// failed.
    Received(Result<Option<R>, E>),
    /// The reply deadline expired.
    DeadlineExpired,
}

/// Why an exchange failed.
pub enum Failure<E> {
    /// For a reason of its own.
    Own(Error),
    /// For an error of the system, which is passed on as it is.
    System(E),
}

/// What to do next in an exchange.
pub enum ExchangeAction<R, E> {
    /// Receive a datagram. The reply deadline starts with the first one.
    Receive,
    /// Return this outcome.
    Finish(ProbeOutcome<R>),
    /// Return this failure.
    Fail(Failure<E>),
}

/// What to do after `event`, in an exchange whose request has `len` bytes.
pub open spec fn next_action<R, E>(len: usize, event: ExchangeEvent<R, E>) -> ExchangeAction<R, E> {
    match event {
        ExchangeEvent::Sent(Ok(sent)) => if sent == len {
            ExchangeAction::Receive
        } else {
            ExchangeAction::Fail(Failure::Own(Error::IncompleteSend))
        },
        ExchangeEvent::Sent(Err(error)) => ExchangeAction::Fail(Failure::System(error)),
        ExchangeEvent::Received(Ok(Some(reply))) => ExchangeAction::Finish(
            ProbeOutcome::Reply(reply),
        ),
        ExchangeEvent::Received(Ok(None)) => ExchangeAction::Receive,
        ExchangeEvent::Received(Err(error)) => ExchangeAction::Fail(Failure::System(error)),
        ExchangeEvent::DeadlineExpired => ExchangeAction::Finish(ProbeOutcome::ReplyTimedOut),
    }
}

/// Take in what happened in an exchange whose request has `len` bytes, and say
/// what to do next.
pub fn exchange_step<R, E>(len: usize, event: ExchangeEvent<R, E>) -> (action: ExchangeAction<R, E>)
    ensures
        action == next_action(len, event),
{
    let received: Option<Result<R, E>> = match event {
        ExchangeEvent::Sent(Ok(sent)) => {
            return match send_request(sent, len) {
                Ok(()) => ExchangeAction::Receive,
                Err(error) => ExchangeAction::Fail(Failure::Own(error)),
            };
        },
        ExchangeEvent::Sent(Err(error)) => {
            return ExchangeAction::Fail(Failure::System(error));
        },
        ExchangeEvent::Received(Ok(Some(reply))) => Some(Ok(reply)),
        ExchangeEvent::Received(Ok(None)) => {
            return ExchangeAction::Receive;
        },
        ExchangeEvent::Received(Err(error)) => Some(Err(error)),
        ExchangeEvent::DeadlineExpired => None,
    };
    match wait_for_reply(received) {
        Ok(outcome) => ExchangeAction::Finish(outcome),
        Err(error) => ExchangeAction::Fail(Failure::System(error)),
    }
}

/// What an exchange does after `sent` came of sending its request and then the
/// first `n` of `events` happened, as far as it waited for them.
pub open spec fn exchange_after<R, E>(
    len: usize,
    sent: Result<usize, E>,
    events: Seq<ExchangeEvent<R, E>>,
    n: nat,
) -> ExchangeAction<R, E>
    decreases n,
{
    if n == 0 {
        next_action(len, ExchangeEvent::Sent(sent))
    } else {
        match exchange_after(len, sent, events, (n - 1) as nat) {
            ExchangeAction::Receive => next_action(len, events[n - 1]),
            ended => ended,
        }
    }
}

/// A request that was not sent whole fails the exchange whatever happens later,
/// so an error of sending comes before any deadline.
pub proof fn law_send_errors_precede_deadlines<R, E>(
    len: usize,
    sent: Result<usize, E>,
    events: Seq<ExchangeEvent<R, E>>,
    n: nat,
)
    requires
        sent != Ok::<usize, E>(len),
    ensures
        exchange_after(len, sent, events, n) == match sent {
            Ok(_) => ExchangeAction::<R, E>::Fail(Failure::Own(Error::IncompleteSend)),
            Err(error) => ExchangeAction::<R, E>::Fail(Failure::System(error)),
        },
    decreases n,
{
    if n > 0 {
        law_send_errors_precede_deadlines(len, sent, events, (n - 1) as nat);
    }
}

/// Once its request was sent whole, an exchange ignores everything up to the
/// first reply, error or expiry of the deadline, and ends with that: a reply is
/// returned, an error is passed on, and an expired deadline is a timeout.
pub proof fn law_first_decisive_event_ends_the_exchange<R, E>(
    len: usize,
    events: Seq<ExchangeEvent<R, E>>,
    decisive: nat,
    n: nat,
)
    requires
        forall|i: int|
            0 <= i < decisive ==> #[trigger] events[i] == ExchangeEvent::<R, E>::Received(Ok(None)),
        !(events[decisive as int] is Sent),
        events[decisive as int] != ExchangeEvent::<R, E>::Received(Ok(None)),
    ensures
        n <= decisive ==> exchange_after(len, Ok(len), events, n) == ExchangeAction::<
            R,
            E,
        >::Receive,
        n > decisive ==> exchange_after(len, Ok(len), events, n) == match events[decisive as int] {
            ExchangeEvent::Received(Ok(Some(reply))) => ExchangeAction::<R, E>::Finish(
                ProbeOutcome::Reply(reply),
            ),
            ExchangeEvent::Received(Err(error)) => ExchangeAction::Fail(Failure::System(error)),
            _ => ExchangeAction::Finish(ProbeOutcome::ReplyTimedOut),
        },
    decreases n,
{
    if n > 0 {
        law_first_decisive_event_ends_the_exchange(len, events, decisive, (n - 1) as nat);
        if n <= decisive {
            assert(events[n - 1] == ExchangeEvent::<R, E>::Received(Ok(None)));
        }
    }
}

} // verus!
