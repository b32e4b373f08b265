//! What holds of exchanges and runs of probes, in terms of what goes into and comes
//! out of their functions.

use crate::error::Error;
use crate::exchange::{exchange_step, ExchangeAction, ExchangeEvent, Failure};
use crate::packet::generate_payload;
use crate::packet_laws::law_payload_counts_up;
use crate::probe::{
    ping_payload, replies, reply_deadline, send_request, wait_for_reply, PingStats, ProbeAction,
    ProbeEvent, ProbeOutcome, ProbeRun,
};
use crate::stats_laws::{law_statistics_hold, statistics_hold};
use crate::time::duration_nanos;
use std::time::Duration;
use vstd::prelude::*;

verus! {

/// A send is complete exactly where every byte was sent.
pub proof fn law_a_send_is_whole_or_fails(sent: usize, len: usize, r: Result<(), Error>)
    requires
        call_ensures(send_request, (sent, len), r),
    ensures
        r is Ok <==> sent == len,
        r is Err <==> r == Err::<(), Error>(Error::IncompleteSend),
{
}

/// A wait gives back what it received unchanged, and ends in a timeout only where
/// nothing was received.
pub proof fn law_a_wait_keeps_what_it_received<T, E>(
    received: Option<Result<T, E>>,
    r: Result<ProbeOutcome<T>, E>,
)
    requires
        call_ensures(wait_for_reply::<T, E>, (received,), r),
    ensures
        forall|reply: T|
            received == Some(Ok::<T, E>(reply)) <==> r == Ok::<ProbeOutcome<T>, E>(
                ProbeOutcome::Reply(reply),
            ),
        forall|error: E| received == Some(Err::<T, E>(error)) <==> r == Err::<ProbeOutcome<T>, E>(error),
        received is None <==> r == Ok::<ProbeOutcome<T>, E>(ProbeOutcome::ReplyTimedOut),
{
    assert(r matches Ok(ProbeOutcome::Reply(reply)) ==> received == Some(Ok::<T, E>(reply)));
}

/// An outcome is its reply, or the error of a timeout.
pub proof fn law_an_outcome_is_its_reply_or_a_timeout<T>(
    outcome: ProbeOutcome<T>,
    r: Result<T, Error>,
)
    requires
        call_ensures(ProbeOutcome::<T>::into_result, (outcome,), r),
    ensures
        r matches Ok(reply) ==> outcome == ProbeOutcome::Reply(reply),
        r matches Err(error) ==> outcome is ReplyTimedOut && error == Error::TimedOut,
{
}

/// Mapping an outcome maps its reply and keeps a timeout.
pub proof fn law_mapping_maps_the_reply<T, U, F: FnOnce(T) -> U>(
    outcome: ProbeOutcome<T>,
    f: F,
    r: ProbeOutcome<U>,
)
    requires
        outcome matches ProbeOutcome::Reply(reply) ==> call_requires(f, (reply,)),
        call_ensures(ProbeOutcome::<T>::map::<U, F>, (outcome, f), r),
    ensures
        r is ReplyTimedOut <==> outcome is ReplyTimedOut,
        r matches ProbeOutcome::Reply(mapped) ==> outcome matches ProbeOutcome::Reply(reply)
            && call_ensures(f, (reply,), mapped),
{
}

/// The payload of probes of `size` bytes leaves eight of them to the timestamp and
/// is the payload of what is left. There is none exactly where nothing is left.
pub proof fn law_ping_payload_leaves_room_for_the_timestamp(
    size: u16,
    r: Result<Vec<u8>, Error>,
    rest: usize,
    expected: Vec<u8>,
)
    requires
        call_ensures(ping_payload, (size,), r),
        size > 8 ==> rest + 8 == size,
        call_ensures(generate_payload, (rest,), expected),
    ensures
        r is Ok <==> size > 8,
        r matches Ok(payload) ==> payload@.len() + 8 == size && payload@ == expected@,
        r matches Err(error) ==> error == Error::SizeTooSmall,
{
    law_payload_counts_up(rest, expected);
}

/// A probe of a run waits five seconds.
pub proof fn law_the_reply_deadline_is_five_seconds(d: Duration)
    requires
        call_ensures(reply_deadline, (), d),
    ensures
        duration_nanos(d) == 5 * 1_000_000_000,
{
}

/// In an exchange, a complete send and a datagram that is not the reply are
/// followed by receiving, and nothing else is. A reply and an expired deadline end
/// it with an outcome. An error of the system ends it as it is, and a send that is
/// not complete with an error of its own.
pub proof fn law_an_exchange_ends_with_what_decides_it<R, E>(
    len: usize,
    event: ExchangeEvent<R, E>,
    action: ExchangeAction<R, E>,
)
    requires
        call_ensures(exchange_step::<R, E>, (len, event), action),
    ensures
        action is Receive <==> event == ExchangeEvent::<R, E>::Sent(Ok(len)) || event
            == ExchangeEvent::<R, E>::Received(Ok(None)),
        action matches ExchangeAction::Finish(ProbeOutcome::Reply(reply)) ==> event
            == ExchangeEvent::<R, E>::Received(Ok(Some(reply))),
        action matches ExchangeAction::Finish(ProbeOutcome::ReplyTimedOut)
            ==> event is DeadlineExpired,
        action matches ExchangeAction::Fail(Failure::System(error)) ==> event == ExchangeEvent::<
            R,
            E,
        >::Sent(Err(error)) || event == ExchangeEvent::<R, E>::Received(Err(error)),
        action matches ExchangeAction::Fail(Failure::Own(error)) ==> error == Error::IncompleteSend
            && (event matches ExchangeEvent::Sent(Ok(sent)) && sent != len),
{
}

/// The round-trip times of the outcomes with a reply, in order.
pub open spec fn answered(outcomes: Seq<ProbeOutcome<Duration>>) -> Seq<Duration> {
    outcomes.filter(|outcome: ProbeOutcome<Duration>| outcome is Reply).map_values(
        |outcome: ProbeOutcome<Duration>| outcome->Reply_0,
    )
}

proof fn lemma_replies_are_answered(outcomes: Seq<ProbeOutcome<Duration>>)
    ensures
        replies(outcomes) == answered(outcomes),
    decreases outcomes.len(),
{
    reveal(Seq::filter);
    if outcomes.len() > 0 {
        lemma_replies_are_answered(outcomes.drop_last());
    }
    assert(replies(outcomes) =~= answered(outcomes));
}

/// Whether `stats` counts `outcomes`, and holds the statistics of the round-trip
/// times among them.
pub open spec fn accounts_for(stats: PingStats, outcomes: Seq<ProbeOutcome<Duration>>) -> bool {
    &&& stats.packets_tx == outcomes.len()
    &&& stats.packets_rx == answered(outcomes).len()
    &&& statistics_hold(
        answered(outcomes),
        stats.rtt_min,
        stats.rtt_avg,
        stats.rtt_max,
        stats.rtt_std_dev,
    )
}

proof fn lemma_summary_accounts(stats: PingStats, outcomes: Seq<ProbeOutcome<Duration>>)
    requires
        stats.summarises(outcomes),
    ensures
        accounts_for(stats, outcomes),
{
    lemma_replies_are_answered(outcomes);
    law_statistics_hold(stats.rtt_stats(), replies(outcomes));
}

/// A new run has nothing behind it. A ping counts from one, and the program from
/// zero.
pub proof fn law_a_new_run_is_empty(
    first: u16,
    count: u32,
    run: ProbeRun,
    ping: ProbeRun,
    program: ProbeRun,
)
    requires
        call_ensures(ProbeRun::new, (first, count), run),
        call_ensures(ProbeRun::for_ping, (count,), ping),
        call_ensures(ProbeRun::for_program, (count,), program),
    ensures
        run.wf() && ping.wf() && program.wf(),
        run.first_seq() == first && ping.first_seq() == 1 && program.first_seq() == 0,
        run.total() == count && ping.total() == count && program.total() == count,
        run.outcomes().len() == 0 && ping.outcomes().len() == 0 && program.outcomes().len() == 0,
{
}

/// A run knows how many probes are over, and its statistics account for them.
pub proof fn law_a_run_accounts_for_what_is_over(run: ProbeRun, n: u32, stats: PingStats)
    requires
        run.wf(),
        call_ensures(ProbeRun::completed, (&run,), n),
        call_ensures(ProbeRun::stats, (&run,), stats),
    ensures
        n == run.outcomes().len(),
        accounts_for(stats, run.outcomes()),
{
    lemma_summary_accounts(stats, run.outcomes());
}

/// A probe without an error is recorded and followed by a sleep, or by the
/// statistics where it is the last. An error is returned. A probe is sent at the
/// start and after a sleep only, and has the sequence number of its place.
pub proof fn law_a_run_sleeps_between_probes<E>(
    run: &mut ProbeRun,
    event: ProbeEvent<E>,
    action: ProbeAction<E>,
)
    requires
        old(run).wf(),
        event is Completed ==> old(run).outcomes().len() < old(run).total(),
        call_ensures(ProbeRun::step::<E>, (run, event), action),
    ensures
        final(run).wf(),
        final(run).first_seq() == old(run).first_seq(),
        final(run).total() == old(run).total(),
        match event {
            ProbeEvent::Completed(Ok(outcome)) => {
                &&& final(run).outcomes() == old(run).outcomes().push(outcome)
                &&& action is Sleep <==> old(run).outcomes().len() + 1 < old(run).total()
                &&& action is Finish <==> old(run).outcomes().len() + 1 == old(run).total()
            },
            ProbeEvent::Completed(Err(error)) => {
                &&& final(run).outcomes() == old(run).outcomes()
                &&& action == ProbeAction::Abort(error)
            },
            _ => {
                &&& final(run).outcomes() == old(run).outcomes()
                &&& action is Probe <==> old(run).outcomes().len() != old(run).total()
                &&& action is Finish <==> old(run).outcomes().len() == old(run).total()
            },
        },
        action is Probe ==> event is Started || event is Slept,
        action matches ProbeAction::Probe(seq) ==> (seq - old(run).first_seq()
            - old(run).outcomes().len()) % 0x1_0000 == 0,
        action matches ProbeAction::Finish(stats) ==> accounts_for(stats, final(run).outcomes()),
{
    if let ProbeAction::Finish(stats) = action {
        lemma_summary_accounts(stats, final(run).outcomes());
    }
}

/// A run of `n` probes without errors sends them one after the other, with a sleep
/// between every two: probes and sleeps alternate, there is one sleep less than
/// there are probes, and then it is finished. A run of no probes is finished at
/// once.
///
/// The run goes through `steps`, each with its event and its action, and each
/// starts where the last one ended. It starts at the start, what was asked for then
/// happens, and a probe that was asked for ends without an error.
pub proof fn law_a_run_alternates_probes_and_sleeps<E>(
    steps: Seq<&mut ProbeRun>,
    events: Seq<ProbeEvent<E>>,
    actions: Seq<ProbeAction<E>>,
    k: int,
)
    requires
        0 <= k < steps.len(),
        steps.len() == events.len() == actions.len(),
        steps[0].wf(),
        steps[0].outcomes().len() == 0,
        events[0] is Started,
        forall|i: int|
            0 <= i < steps.len() ==> #[trigger] call_ensures(
                ProbeRun::step::<E>,
                (steps[i], events[i]),
                actions[i],
            ),
        forall|i: int|
            #![trigger steps[i]]
            0 < i < steps.len() ==> *steps[i] == *final(steps[i - 1]),
        forall|i: int|
            #![trigger events[i]]
            0 < i < steps.len() ==> match actions[i - 1] {
                ProbeAction::Probe(_) => events[i] matches ProbeEvent::Completed(Ok(_)),
                ProbeAction::Sleep => events[i] is Slept,
                _ => false,
            },
    ensures
        ({
            let n = steps[0].total();
            let first = steps[0].first_seq();
            if k == 0 && n == 0 {
                actions[k] is Finish
            } else if k == 2 * n - 1 {
                actions[k] matches ProbeAction::Finish(stats) && stats.packets_tx == n
            } else if k % 2 == 0 {
                &&& k < 2 * n
                &&& actions[k] matches ProbeAction::Probe(seq)
                &&& (seq - first - k / 2) % 0x1_0000 == 0
            } else {
                k < 2 * n && actions[k] is Sleep
            }
        }),
        steps[k].wf(),
        steps[k].total() == steps[0].total(),
        steps[k].first_seq() == steps[0].first_seq(),
        steps[k].outcomes().len() == k / 2,
        events[k] is Completed <==> k % 2 == 1,
        final(steps[k]).outcomes().len() == (k + 1) / 2,
    decreases k,
{
    if k > 0 {
        law_a_run_alternates_probes_and_sleeps(steps, events, actions, k - 1);
        assert(*steps[k] == *final(steps[k - 1]));
        let before = k - 1;
        assert(call_ensures(
            ProbeRun::step::<E>,
            (steps[before], events[before]),
            actions[before],
        ));
        law_a_run_sleeps_between_probes(steps[before], events[before], actions[before]);
        assert(match actions[k - 1] {
            ProbeAction::Probe(_) => events[k] matches ProbeEvent::Completed(Ok(_)),
            ProbeAction::Sleep => events[k] is Slept,
            _ => false,
        });
    }
    assert(call_ensures(ProbeRun::step::<E>, (steps[k], events[k]), actions[k]));
    law_a_run_sleeps_between_probes(steps[k], events[k], actions[k]);
}

} // verus!
