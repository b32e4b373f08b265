//! Single probes, and runs of probes with their statistics.

use crate::error::Error;
use crate::packet::{generate_payload, payload_bytes, TIMESTAMP_SIZE};
use crate::stats::{compute_rtt_stats, RttStats};
use crate::time::duration_nanos;
use std::time::Duration;
use vstd::prelude::*;

verus! {

/// `ReplyTimedOut` means the reply deadline expired after a successful send.
/// All other errors remain `Err` values.
#[derive(Debug)]
pub enum ProbeOutcome<T> {
    /// A matching reply came in time.
    Reply(T),
    /// No matching reply came in time.
    ReplyTimedOut,
}

impl<T> ProbeOutcome<T> {
    /// Apply `f` to the reply, if there is one.
    pub fn map<U, F: FnOnce(T) -> U>(self, f: F) -> (r: ProbeOutcome<U>)
        requires
            self matches ProbeOutcome::Reply(reply) ==> f.requires((reply,)),
        ensures
            match self {
                ProbeOutcome::Reply(reply) => r matches ProbeOutcome::Reply(mapped) && f.ensures(
                    (reply,),
                    mapped,
                ),
                ProbeOutcome::ReplyTimedOut => r == ProbeOutcome::<U>::ReplyTimedOut,
            },
    {
        match self {
            ProbeOutcome::Reply(reply) => ProbeOutcome::Reply(f(reply)),
            ProbeOutcome::ReplyTimedOut => ProbeOutcome::ReplyTimedOut,
        }
    }

    /// Convert to the public low-level timeout representation.
    pub fn into_result(self) -> (r: Result<T, Error>)
        ensures
            r == match self {
                ProbeOutcome::Reply(reply) => Ok(reply),
                ProbeOutcome::ReplyTimedOut => Err(Error::TimedOut),
            },
    {
        match self {
            ProbeOutcome::Reply(reply) => Ok(reply),
            ProbeOutcome::ReplyTimedOut => Err(Error::TimedOut),
        }
    }
}

/// Whether a send of `sent` bytes out of `len` sent one complete datagram.
pub fn send_request(sent: usize, len: usize) -> (r: Result<(), Error>)
    ensures
        r == if sent == len {
            Ok(())
        } else {
            Err(Error::IncompleteSend)
        },
{
    if sent != len {
        return Err(Error::IncompleteSend);
    }
    Ok(())
}

/// The outcome of a wait for a reply, after a successful send.
///
/// `received` is what came of receiving, or `None` where the deadline expired
/// first. Receive errors propagate unchanged.
pub fn wait_for_reply<T, E>(received: Option<Result<T, E>>) -> (r: Result<ProbeOutcome<T>, E>)
    ensures
        r == match received {
            Some(Ok(reply)) => Ok(ProbeOutcome::Reply(reply)),
            Some(Err(error)) => Err(error),
            None => Ok(ProbeOutcome::ReplyTimedOut),
        },
{
    match received {
        Some(Ok(reply)) => Ok(ProbeOutcome::Reply(reply)),
        Some(Err(error)) => Err(error),
        None => Ok(ProbeOutcome::ReplyTimedOut),
    }
}

/// The payload for probes of `size` bytes, behind the timestamp.
///
/// `size` counts the timestamp, and must leave room for more.
pub fn ping_payload(size: u16) -> (r: Result<Vec<u8>, Error>)
    ensures
        match r {
            Ok(payload) => size > TIMESTAMP_SIZE && payload@ == payload_bytes(
                (size - TIMESTAMP_SIZE) as nat,
            ),
            Err(error) => size <= TIMESTAMP_SIZE && error == Error::SizeTooSmall,
        },
{
    if size as usize <= TIMESTAMP_SIZE {
        return Err(Error::SizeTooSmall);
    }
    Ok(generate_payload(size as usize - TIMESTAMP_SIZE))
}

/// How long each probe of a run waits for its reply: five seconds.
pub fn reply_deadline() -> (d: Duration)
    ensures
        duration_nanos(d) == 5_000_000_000,
{
    Duration::new(5, 0)
}

/// Summary statistics of a run of probes.
///
/// Packet counts and round-trip time statistics across all replied probes.
#[derive(Clone, Copy, Debug)]
pub struct PingStats {
    /// Number of complete ICMP echo requests accepted by the local socket,
    /// including requests whose reply deadline expired.
    pub packets_tx: u32,
    /// Number of ICMP echo replies received (i.e. non-timed-out probes).
    pub packets_rx: u32,
    /// Minimum round-trip time across all received replies.
    pub rtt_min: Duration,
    /// Mean round-trip time across all received replies.
    pub rtt_avg: Duration,
    /// Maximum round-trip time across all received replies.
    pub rtt_max: Duration,
    /// Population standard deviation of the round-trip times.
    pub rtt_std_dev: Duration,
}

/// The round-trip times of the replies among `outcomes`, in order.
pub open spec fn replies(outcomes: Seq<ProbeOutcome<Duration>>) -> Seq<Duration>
    decreases outcomes.len(),
{
    if outcomes.len() == 0 {
        Seq::empty()
    } else {
        let earlier = replies(outcomes.drop_last());
        match outcomes.last() {
            ProbeOutcome::Reply(rtt) => earlier.push(rtt),
            ProbeOutcome::ReplyTimedOut => earlier,
        }
    }
}

impl PingStats {
    /// The round-trip time part of the statistics.
    pub open spec fn rtt_stats(self) -> RttStats {
        RttStats {
            rtt_min: self.rtt_min,
            rtt_avg: self.rtt_avg,
            rtt_max: self.rtt_max,
            rtt_std_dev: self.rtt_std_dev,
        }
    }

    /// Whether these are the statistics of probes with `outcomes`.
    pub open spec fn summarises(self, outcomes: Seq<ProbeOutcome<Duration>>) -> bool {
        &&& self.packets_tx == outcomes.len()
        &&& self.packets_rx == replies(outcomes).len()
        &&& self.rtt_stats().describes(replies(outcomes))
    }
}

/// What happens in a run of probes.
pub enum ProbeEvent<E> {
    /// The run starts.
    Started,
    /// The probe that was asked for is over.
    Completed(Result<ProbeOutcome<Duration>, E>),
    /// The interval that was asked for is over.
    Slept,
}

/// What to do next in a run of probes.
pub enum ProbeAction<E> {
    /// Send a probe with this sequence number, and wait for its reply.
    Probe(u16),
    /// Wait for the interval between probes.
    Sleep,
    /// Return these statistics.
    Finish(PingStats),
    /// Return this error, and no statistics.
    Abort(E),
}

/// What a run does next, apart from the statistics that it returns.
pub enum Decision<E> {
    Probe(u16),
    Sleep,
    Finish,
    Abort(E),
}

/// The outcomes and the decision of a run of `total` probes from sequence number
/// `first` on, after `event` happens with `outcomes` in hand.
pub open spec fn next_decision<E>(
    first: u16,
    total: nat,
    outcomes: Seq<ProbeOutcome<Duration>>,
    event: ProbeEvent<E>,
) -> (Seq<ProbeOutcome<Duration>>, Decision<E>) {
    match event {
        ProbeEvent::Completed(Err(error)) => (outcomes, Decision::Abort(error)),
        ProbeEvent::Completed(Ok(outcome)) => {
            let all = outcomes.push(outcome);
            (
                all,
                if all.len() == total {
                    Decision::Finish
                } else {
                    Decision::Sleep
                },
            )
        },
        _ => (
            outcomes,
            if outcomes.len() == total {
                Decision::Finish
            } else {
                Decision::Probe(((first + outcomes.len()) % 0x1_0000) as u16)
            },
        ),
    }
}

/// A run of probes: how many there are to be, and what came of those that are
/// over.
pub struct ProbeRun {
    first: u16,
    count: u32,
    packets_tx: u32,
    packets_rx: u32,
    rtts: Vec<Duration>,
    outcomes: Ghost<Seq<ProbeOutcome<Duration>>>,
}

impl ProbeRun {
    /// The sequence number of the first probe.
    pub closed spec fn first_seq(self) -> u16 {
        self.first
    }

    /// The number of probes to send.
    pub closed spec fn total(self) -> u32 {
        self.count
    }

    /// What came of the probes that are over, in order.
    pub closed spec fn outcomes(self) -> Seq<ProbeOutcome<Duration>> {
        self.outcomes@
    }

    /// Whether the counts and samples are those of the outcomes.
    pub closed spec fn wf(self) -> bool {
        &&& self.packets_tx == self.outcomes@.len()
        &&& self.packets_tx <= self.count
        &&& self.packets_rx == self.rtts@.len()
        &&& self.packets_rx <= self.packets_tx
        &&& self.rtts@ == replies(self.outcomes@)
    }

    /// The outcomes and the decision after `event`.
    pub open spec fn decide<E>(self, event: ProbeEvent<E>) -> (
        Seq<ProbeOutcome<Duration>>,
        Decision<E>,
    ) {
        next_decision(self.first_seq(), self.total() as nat, self.outcomes(), event)
    }

    /// A run of `count` probes whose sequence numbers start at `first`.
    pub fn new(first: u16, count: u32) -> (run: ProbeRun)
        ensures
            run.wf(),
            run.first_seq() == first,
            run.total() == count,
            run.outcomes() == Seq::<ProbeOutcome<Duration>>::empty(),
    {
        ProbeRun {
            first,
            count,
            packets_tx: 0,
            packets_rx: 0,
            rtts: Vec::new(),
            outcomes: Ghost(Seq::empty()),
        }
    }

    /// The run of a library call: `count` probes with the sequence numbers from
    /// 1 on.
    pub fn for_ping(count: u32) -> (run: ProbeRun)
        ensures
            run.wf(),
            run.first_seq() == 1,
            run.total() == count,
            run.outcomes() == Seq::<ProbeOutcome<Duration>>::empty(),
    {
        ProbeRun::new(1, count)
    }

    /// The run of the command-line program: `count` probes with the sequence
    /// numbers from 0 on.
    pub fn for_program(count: u32) -> (run: ProbeRun)
        ensures
            run.wf(),
            run.first_seq() == 0,
            run.total() == count,
            run.outcomes() == Seq::<ProbeOutcome<Duration>>::empty(),
    {
        ProbeRun::new(0, count)
    }

    /// The number of probes that are over, which is the number of the next one in
    /// the run, counting from 0.
    pub fn completed(&self) -> (n: u32)
        requires
            self.wf(),
        ensures
            n == self.outcomes().len(),
    {
        self.packets_tx
    }

    /// Take in what happened, and say what to do next.
    ///
    /// A reply deadline expiry counts as packet loss; any other error aborts the
    /// run instead of returning partial statistics.
    pub fn step<E>(&mut self, event: ProbeEvent<E>) -> (action: ProbeAction<E>)
        requires
            old(self).wf(),
            event is Completed ==> old(self).outcomes().len() < old(self).total(),
        ensures
            final(self).wf(),
            final(self).first_seq() == old(self).first_seq(),
            final(self).total() == old(self).total(),
            final(self).outcomes() == old(self).decide(event).0,
            match old(self).decide(event).1 {
                Decision::Probe(seq) => action == ProbeAction::<E>::Probe(seq),
                Decision::Sleep => action == ProbeAction::<E>::Sleep,
                Decision::Finish => action matches ProbeAction::Finish(stats) && stats.summarises(
                    final(self).outcomes(),
                ),
                Decision::Abort(error) => action == ProbeAction::Abort(error),
            },
    {
        match event {
            ProbeEvent::Completed(Err(error)) => ProbeAction::Abort(error),
            ProbeEvent::Completed(Ok(outcome)) => {
                self.record(outcome);
                if self.packets_tx == self.count {
                    ProbeAction::Finish(self.stats())
                } else {
                    ProbeAction::Sleep
                }
            },
            _ => {
                if self.packets_tx == self.count {
                    ProbeAction::Finish(self.stats())
                } else {
                    ProbeAction::Probe(
                        ((self.first as u64 + self.packets_tx as u64) % 0x1_0000) as u16,
                    )
                }
            },
        }
    }

    /// Count a probe that is over.
    fn record(&mut self, outcome: ProbeOutcome<Duration>)
        requires
            old(self).wf(),
            old(self).outcomes().len() < old(self).total(),
        ensures
            final(self).wf(),
            final(self).first_seq() == old(self).first_seq(),
            final(self).total() == old(self).total(),
            final(self).outcomes() == old(self).outcomes().push(outcome),
    {
        self.packets_tx = self.packets_tx + 1;
        if let ProbeOutcome::Reply(rtt) = outcome {
            self.packets_rx = self.packets_rx + 1;
            self.rtts.push(rtt);
        }
        self.outcomes = Ghost(self.outcomes@.push(outcome));
        assert(self.outcomes@.drop_last() =~= old(self).outcomes@);
    }

    /// The statistics of the probes that are over.
    pub fn stats(&self) -> (stats: PingStats)
        requires
            self.wf(),
        ensures
            stats.summarises(self.outcomes()),
    {
        let stats: RttStats = compute_rtt_stats(&self.rtts);
        PingStats {
            packets_tx: self.packets_tx,
            packets_rx: self.packets_rx,
            rtt_min: stats.rtt_min,
            rtt_avg: stats.rtt_avg,
            rtt_max: stats.rtt_max,
            rtt_std_dev: stats.rtt_std_dev,
        }
    }
}

/// The outcomes and the decision of a run after its first `n` probes ended in
/// the first `n` of `results`, with the intervals between them slept.
pub open spec fn run_after<E>(
    first: u16,
    total: nat,
    results: Seq<Result<ProbeOutcome<Duration>, E>>,
    n: nat,
) -> (Seq<ProbeOutcome<Duration>>, Decision<E>)
    decreases n,
{
    if n == 0 {
        next_decision(first, total, Seq::empty(), ProbeEvent::Started)
    } else {
        let (outcomes, decision) = run_after(first, total, results, (n - 1) as nat);
        match decision {
            Decision::Probe(_) => {
                let (outcomes, decision) = next_decision(
                    first,
                    total,
                    outcomes,
                    ProbeEvent::Completed(results[n - 1]),
                );
                match decision {
                    Decision::Sleep => next_decision(first, total, outcomes, ProbeEvent::Slept),
                    _ => (outcomes, decision),
                }
            },
            _ => (outcomes, decision),
        }
    }
}

/// The outcomes of probes that all ended in one.
pub open spec fn outcomes_of<E>(
    results: Seq<Result<ProbeOutcome<Duration>, E>>,
    n: nat,
) -> Seq<ProbeOutcome<Duration>> {
    Seq::new(n, |i: int| results[i]->Ok_0)
}

/// A run without errors probes with one sequence number after the other, and
/// finishes with the outcomes of all its probes once there are `total` of them.
/// A run of no probes finishes at once.
pub proof fn law_run_probes_in_sequence<E>(
    first: u16,
    total: nat,
    results: Seq<Result<ProbeOutcome<Duration>, E>>,
    n: nat,
)
    requires
        n <= total,
        forall|i: int| 0 <= i < n ==> #[trigger] results[i] is Ok,
    ensures
        run_after(first, total, results, n).0 == outcomes_of(results, n),
        run_after(first, total, results, n).1 == if n == total {
            Decision::<E>::Finish
        } else {
            Decision::<E>::Probe(((first + n) % 0x1_0000) as u16)
        },
    decreases n,
{
    if n > 0 {
        law_run_probes_in_sequence(first, total, results, (n - 1) as nat);
        assert(results[n - 1] is Ok);
        assert(outcomes_of(results, (n - 1) as nat).push(results[n - 1]->Ok_0) =~= outcomes_of(
            results,
            n,
        ));
    } else {
        assert(outcomes_of(results, 0) =~= Seq::empty());
    }
}

/// A run stops at the first error and returns it: nothing is probed after it,
/// and there are no statistics.
pub proof fn law_run_aborts_on_first_error<E>(
    first: u16,
    total: nat,
    results: Seq<Result<ProbeOutcome<Duration>, E>>,
    failed: nat,
    n: nat,
)
    requires
        failed < n,
        failed < total,
        forall|i: int| 0 <= i < failed ==> #[trigger] results[i] is Ok,
        results[failed as int] is Err,
    ensures
        run_after(first, total, results, n).1 == Decision::<E>::Abort(results[failed as int]->Err_0),
    decreases n,
{
    if n == failed + 1 {
        law_run_probes_in_sequence(first, total, results, failed);
    } else {
        law_run_aborts_on_first_error(first, total, results, failed, (n - 1) as nat);
    }
}

/// A probe whose deadline expired is counted as sent and not as received, and
/// leaves the round-trip times as they were; one that was answered is counted as
/// both, and adds its round-trip time.
pub proof fn law_timeout_counts_as_loss(
    before: PingStats,
    after: PingStats,
    outcomes: Seq<ProbeOutcome<Duration>>,
    outcome: ProbeOutcome<Duration>,
)
    requires
        before.summarises(outcomes),
        after.summarises(outcomes.push(outcome)),
    ensures
        after.packets_tx == before.packets_tx + 1,
        match outcome {
            ProbeOutcome::ReplyTimedOut => after.packets_rx == before.packets_rx
                && after.rtt_stats().describes(replies(outcomes)),
            ProbeOutcome::Reply(rtt) => after.packets_rx == before.packets_rx + 1
                && after.rtt_stats().describes(replies(outcomes).push(rtt)),
        },
{
    assert(outcomes.push(outcome).drop_last() =~= outcomes);
}

/// No more replies are received than requests are sent, and the mean lies
/// between the shortest and the longest round-trip time.
pub proof fn law_ping_stats_are_consistent(
    stats: PingStats,
    outcomes: Seq<ProbeOutcome<Duration>>,
)
    requires
        stats.summarises(outcomes),
    ensures
        stats.packets_rx <= stats.packets_tx,
        duration_nanos(stats.rtt_min) <= duration_nanos(stats.rtt_avg) <= duration_nanos(
            stats.rtt_max,
        ),
{
    lemma_replies_bounded(outcomes);
    crate::stats_laws::law_mean_between_extremes(stats.rtt_stats(), replies(outcomes));
}

proof fn lemma_replies_bounded(outcomes: Seq<ProbeOutcome<Duration>>)
    ensures
        replies(outcomes).len() <= outcomes.len(),
    decreases outcomes.len(),
{
    if outcomes.len() > 0 {
        lemma_replies_bounded(outcomes.drop_last());
    }
}

} // verus!
