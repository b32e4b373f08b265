use ping_tokio::error::{Error, ErrorKind};
use ping_tokio::probe::{
    ping_payload, reply_deadline, send_request, wait_for_reply, ProbeAction, ProbeEvent,
    ProbeOutcome, ProbeRun,
};
use ping_tokio::PingStats;
use std::time::Duration;

type ProbeResult = Result<ProbeOutcome<Duration>, std::io::Error>;

/// Drive a run as a program would, with `probe` for the network and no sleeps.
/// Returns the result, and how often the run slept.
fn run_probes(
    mut run: ProbeRun,
    mut probe: impl FnMut(u16) -> ProbeResult,
) -> (Result<PingStats, std::io::Error>, u32) {
    let mut sleeps = 0;
    let mut event = ProbeEvent::Started;
    loop {
        event = match run.step(event) {
            ProbeAction::Probe(seq) => ProbeEvent::Completed(probe(seq)),
            ProbeAction::Sleep => {
                sleeps += 1;
                ProbeEvent::Slept
            }
            ProbeAction::Finish(stats) => return (Ok(stats), sleeps),
            ProbeAction::Abort(error) => return (Err(error), sleeps),
        };
    }
}

#[test]
fn reply_deadline_preserves_public_timeout_behavior() {
    let outcome = wait_for_reply::<(), std::io::Error>(None).unwrap();
    assert!(matches!(outcome, ProbeOutcome::ReplyTimedOut));
    let error = outcome.into_result().unwrap_err();
    assert_eq!(error.kind(), ErrorKind::TimedOut);
    assert_eq!(error.message(), "timed out");
}

#[test]
fn reply_deadline_preserves_successful_reply() {
    let outcome =
        wait_for_reply::<Duration, std::io::Error>(Some(Ok(Duration::from_millis(10)))).unwrap();
    assert_eq!(outcome.into_result().unwrap(), Duration::from_millis(10));
}

#[test]
fn reply_deadline_does_not_swallow_receive_errors() {
    for code in [libc::ETIMEDOUT, libc::ECONNREFUSED] {
        let error =
            wait_for_reply::<(), _>(Some(Err(std::io::Error::from_raw_os_error(code)))).unwrap_err();
        assert_eq!(error.raw_os_error(), Some(code));
    }

    let error = wait_for_reply::<(), _>(Some(Err(std::io::Error::new(
        std::io::ErrorKind::InvalidData,
        "invalid reply metadata",
    ))))
    .unwrap_err();
    assert_eq!(error.kind(), std::io::ErrorKind::InvalidData);
    assert_eq!(error.to_string(), "invalid reply metadata");
}

#[test]
fn run_probes_counts_replies_and_deadlines_separately() {
    let mut sequences = Vec::new();
    let (result, sleeps) = run_probes(ProbeRun::for_ping(3), |seq| {
        sequences.push(seq);
        Ok(match seq {
            1 => ProbeOutcome::Reply(Duration::from_millis(10)),
            2 => ProbeOutcome::ReplyTimedOut,
            3 => ProbeOutcome::Reply(Duration::from_millis(30)),
            _ => panic!("unexpected probe"),
        })
    });
    let stats = result.unwrap();

    assert_eq!(sequences, [1, 2, 3]);
    assert_eq!(sleeps, 2);
    assert_eq!(stats.packets_tx, 3);
    assert_eq!(stats.packets_rx, 2);
    assert_eq!(stats.rtt_min, Duration::from_millis(10));
    assert_eq!(stats.rtt_avg, Duration::from_millis(20));
    assert_eq!(stats.rtt_max, Duration::from_millis(30));
    assert_eq!(stats.rtt_std_dev, Duration::from_millis(10));
}

#[test]
fn run_probes_all_deadlines_expire() {
    let (result, _) = run_probes(ProbeRun::for_ping(3), |_| wait_for_reply(None));
    let stats = result.unwrap();

    assert_eq!(stats.packets_tx, 3);
    assert_eq!(stats.packets_rx, 0);
    assert_eq!(stats.rtt_min, Duration::ZERO);
    assert_eq!(stats.rtt_avg, Duration::ZERO);
    assert_eq!(stats.rtt_max, Duration::ZERO);
    assert_eq!(stats.rtt_std_dev, Duration::ZERO);
}

#[test]
fn run_probes_aborts_on_io_errors_without_partial_statistics() {
    for code in [libc::EMSGSIZE, libc::ENETUNREACH, libc::ETIMEDOUT] {
        for fail_at in [1, 3] {
            let mut calls = 0;
            let (result, _) = run_probes(ProbeRun::for_ping(5), |_| {
                calls += 1;
                if calls == fail_at {
                    Err(std::io::Error::from_raw_os_error(code))
                } else if calls == 1 {
                    Ok(ProbeOutcome::Reply(Duration::from_millis(10)))
                } else {
                    Ok(ProbeOutcome::ReplyTimedOut)
                }
            });
            let error = result.unwrap_err();

            assert_eq!(calls, fail_at, "must not send another probe after an error");
            assert_eq!(error.raw_os_error(), Some(code));
        }
    }
}

#[test]
fn run_probes_zero_count_sends_nothing() {
    let mut calls = 0;
    let (result, sleeps) = run_probes(ProbeRun::for_ping(0), |_| {
        calls += 1;
        Ok(ProbeOutcome::ReplyTimedOut)
    });
    let stats = result.unwrap();

    assert_eq!(calls, 0);
    assert_eq!(sleeps, 0);
    assert_eq!(stats.packets_tx, 0);
    assert_eq!(stats.packets_rx, 0);
    assert_eq!(stats.rtt_avg, Duration::ZERO);
}

#[test]
fn sequence_numbers_start_over_after_the_last_one() {
    let mut sequences = Vec::new();
    let (result, _) = run_probes(ProbeRun::new(u16::MAX, 3), |seq| {
        sequences.push(seq);
        Ok(ProbeOutcome::ReplyTimedOut)
    });
    assert_eq!(result.unwrap().packets_tx, 3);
    assert_eq!(sequences, [65535, 0, 1]);
}

#[test]
fn statistics_of_an_unfinished_run_cover_what_is_over() {
    let mut run = ProbeRun::for_program(5);
    assert_eq!(run.completed(), 0);
    assert!(matches!(run.step::<()>(ProbeEvent::Started), ProbeAction::Probe(0)));
    let event = ProbeEvent::<()>::Completed(Ok(ProbeOutcome::Reply(Duration::from_millis(4))));
    assert!(matches!(run.step(event), ProbeAction::Sleep));
    assert_eq!(run.completed(), 1);
    let stats = run.stats();
    assert_eq!((stats.packets_tx, stats.packets_rx), (1, 1));
    assert_eq!(stats.rtt_avg, Duration::from_millis(4));
}

#[test]
fn mapping_an_outcome_maps_its_reply() {
    let reply: ProbeOutcome<u32> = ProbeOutcome::Reply(20);
    assert!(matches!(reply.map(|n| n + 1), ProbeOutcome::Reply(21)));
    let none: ProbeOutcome<u32> = ProbeOutcome::ReplyTimedOut;
    assert!(matches!(none.map(|n| n + 1), ProbeOutcome::ReplyTimedOut));
}

#[test]
fn a_partial_send_is_an_error() {
    assert_eq!(send_request(64, 64), Ok(()));
    let error = send_request(63, 64).unwrap_err();
    assert_eq!(error, Error::IncompleteSend);
    assert_eq!(error.kind(), ErrorKind::WriteZero);
    assert_eq!(error.message(), "socket did not send the complete ICMP request");
}

#[test]
fn the_payload_has_to_hold_more_than_the_timestamp() {
    for size in [0, 8] {
        let error = ping_payload(size).unwrap_err();
        assert_eq!(error, Error::SizeTooSmall);
        assert_eq!(error.kind(), ErrorKind::InvalidInput);
        assert_eq!(error.message(), "size must be greater than 8 (timestamp bytes)");
    }
    assert_eq!(ping_payload(9).unwrap(), vec![0]);
    assert_eq!(ping_payload(u16::MAX).unwrap().len(), 65_527);
}

#[test]
fn probes_of_a_run_wait_five_seconds() {
    assert_eq!(reply_deadline(), Duration::from_secs(5));
}

#[test]
fn a_ping_counts_from_one_and_the_program_from_zero() {
    for (run, expected) in [
        (ProbeRun::for_ping(3), [1, 2, 3]),
        (ProbeRun::for_program(3), [0, 1, 2]),
    ] {
        let mut sequences = Vec::new();
        let (result, _) = run_probes(run, |seq| {
            sequences.push(seq);
            Ok(ProbeOutcome::ReplyTimedOut)
        });
        assert_eq!(result.unwrap().packets_tx, 3);
        assert_eq!(sequences, expected);
    }
}

#[test]
fn the_number_of_a_probe_goes_past_its_sequence_number() {
    let mut run = ProbeRun::for_program(65_538);
    let mut event = ProbeEvent::<()>::Started;
    loop {
        event = match run.step(event) {
            ProbeAction::Probe(seq) => {
                assert_eq!(run.completed() % 65_536, u32::from(seq));
                ProbeEvent::Completed(Ok(ProbeOutcome::ReplyTimedOut))
            }
            ProbeAction::Sleep => ProbeEvent::Slept,
            ProbeAction::Finish(stats) => {
                assert_eq!(stats.packets_tx, 65_538);
                break;
            }
            ProbeAction::Abort(()) => panic!("aborted"),
        };
    }
    assert_eq!(run.completed(), 65_538);
}
