use pingsched::aggregate::{assemble, Aggregator};
use pingsched::outcome::{classify, render};
use pingsched::schedule::{plan, run_duration_bound};
use pingsched::{IpAddress, PingFault, PingParam, ProbeOutcome, SequencedOutcome};

fn param(count: usize, delay: u64, expire: u64) -> PingParam {
    PingParam { addr: IpAddress::v4(127, 0, 0, 1), count, delay, expire }
}

#[test]
fn v4_packs_octets() {
    assert_eq!(IpAddress::v4(127, 0, 0, 1), IpAddress::V4(2130706433));
    assert_eq!(IpAddress::v4(0, 0, 0, 0), IpAddress::V4(0));
    assert_eq!(IpAddress::v4(255, 255, 255, 255), IpAddress::V4(u32::MAX));
}

#[test]
fn plan_staggers_offsets_and_deadlines() {
    let tasks = plan(&param(5, 1000, 5000)).unwrap();
    assert_eq!(tasks.len(), 5);
    for i in 0..5 {
        assert_eq!(tasks[i].sequence, i);
        assert_eq!(tasks[i].start_offset, i as u64 * 1000);
        assert_eq!(tasks[i].deadline, i as u64 * 1000 + 5000);
    }
}

#[test]
fn run_bound_is_staggered_not_sequential() {
    // five probes, 1 s apart, 5 s expiry each: done by 9 s, not 25 s
    let p = param(5, 1000, 5000);
    assert_eq!(run_duration_bound(&p), 9000);
    let tasks = plan(&p).unwrap();
    assert!(tasks.iter().all(|t| t.deadline <= 9000));
}

#[test]
fn plan_rejects_zero_expire() {
    assert_eq!(plan(&param(1, 0, 0)).unwrap_err(), PingFault::InvalidRequest);
}

#[test]
fn plan_rejects_overflowing_deadlines() {
    assert_eq!(plan(&param(3, u64::MAX, 1)).unwrap_err(), PingFault::InvalidRequest);
    assert_eq!(plan(&param(2, 1, u64::MAX)).unwrap_err(), PingFault::InvalidRequest);
}

#[test]
fn zero_count_run_is_empty() {
    let tasks = plan(&param(0, 1000, 5000)).unwrap();
    assert_eq!(tasks.len(), 0);
    assert_eq!(run_duration_bound(&param(0, 1000, 5000)), 0);
    let collected: Vec<SequencedOutcome> = Vec::new();
    let out = assemble(0, &collected).unwrap();
    assert_eq!(out.len(), 0);
    assert_eq!(render(&out).0.len(), 0);
}

#[test]
fn classify_maps_each_engine_result() {
    let replied: Result<Option<u128>, &str> = Ok(Some(12));
    let timed_out: Result<Option<u128>, &str> = Ok(None);
    let faulted: Result<Option<u128>, &str> = Err("send failed");
    assert_eq!(classify(replied), ProbeOutcome::Replied(12));
    assert_eq!(classify(timed_out), ProbeOutcome::TimedOut);
    assert_eq!(classify(faulted), ProbeOutcome::TransportError);
}

#[test]
fn reply_time_hides_fault_detail() {
    assert_eq!(ProbeOutcome::Replied(3).reply_time(), Some(3));
    assert_eq!(ProbeOutcome::TimedOut.reply_time(), None);
    assert_eq!(ProbeOutcome::TransportError.reply_time(), None);
}

#[test]
fn aggregator_reorders_completions() {
    // completion order 2, 0, 1; the result must come back 0, 1, 2
    let mut agg = Aggregator::new(3);
    assert!(agg.record(2, ProbeOutcome::Replied(30)).is_ok());
    assert!(agg.record(0, ProbeOutcome::Replied(10)).is_ok());
    assert!(!agg.is_complete());
    assert!(agg.record(1, ProbeOutcome::TimedOut).is_ok());
    assert!(agg.is_complete());
    let out = agg.finish().unwrap();
    assert_eq!(out.len(), 3);
    assert_eq!(out[0], SequencedOutcome { sequence: 0, outcome: ProbeOutcome::Replied(10) });
    assert_eq!(out[1], SequencedOutcome { sequence: 1, outcome: ProbeOutcome::TimedOut });
    assert_eq!(out[2], SequencedOutcome { sequence: 2, outcome: ProbeOutcome::Replied(30) });
}

#[test]
fn aggregator_rejects_duplicate_report() {
    let mut agg = Aggregator::new(2);
    assert!(agg.record(0, ProbeOutcome::TimedOut).is_ok());
    assert_eq!(agg.record(0, ProbeOutcome::Replied(1)).unwrap_err(), PingFault::OutcomeConflict);
}

#[test]
fn aggregator_rejects_foreign_sequence() {
    let mut agg = Aggregator::new(2);
    assert_eq!(agg.record(2, ProbeOutcome::TimedOut).unwrap_err(), PingFault::OutcomeConflict);
}

#[test]
fn incomplete_run_cannot_close() {
    let mut agg = Aggregator::new(2);
    assert!(agg.record(1, ProbeOutcome::Replied(4)).is_ok());
    assert_eq!(agg.finish().unwrap_err(), PingFault::OutcomeMissing);
}

#[test]
fn assemble_restores_sequence_order() {
    let collected = vec![
        SequencedOutcome { sequence: 3, outcome: ProbeOutcome::Replied(33) },
        SequencedOutcome { sequence: 1, outcome: ProbeOutcome::TimedOut },
        SequencedOutcome { sequence: 0, outcome: ProbeOutcome::Replied(5) },
        SequencedOutcome { sequence: 2, outcome: ProbeOutcome::TransportError },
    ];
    let out = assemble(4, &collected).unwrap();
    assert_eq!(out.len(), 4);
    for i in 0..4 {
        assert_eq!(out[i].sequence, i);
    }
    assert_eq!(out[0].outcome, ProbeOutcome::Replied(5));
    assert_eq!(out[1].outcome, ProbeOutcome::TimedOut);
    assert_eq!(out[2].outcome, ProbeOutcome::TransportError);
    assert_eq!(out[3].outcome, ProbeOutcome::Replied(33));
}

#[test]
fn assemble_flags_missing_report() {
    let collected = vec![
        SequencedOutcome { sequence: 0, outcome: ProbeOutcome::Replied(1) },
        SequencedOutcome { sequence: 2, outcome: ProbeOutcome::Replied(2) },
    ];
    assert_eq!(assemble(3, &collected).unwrap_err(), PingFault::OutcomeMissing);
}

#[test]
fn assemble_flags_conflicting_reports() {
    let duplicated = vec![
        SequencedOutcome { sequence: 0, outcome: ProbeOutcome::Replied(1) },
        SequencedOutcome { sequence: 0, outcome: ProbeOutcome::Replied(2) },
    ];
    assert_eq!(assemble(2, &duplicated).unwrap_err(), PingFault::OutcomeConflict);
    let foreign = vec![SequencedOutcome { sequence: 9, outcome: ProbeOutcome::TimedOut }];
    assert_eq!(assemble(1, &foreign).unwrap_err(), PingFault::OutcomeConflict);
}

#[test]
fn one_faulted_probe_leaves_siblings_untouched() {
    // the engine fails on sequence 2 of 5; every other sequence still reports
    let clean: Vec<SequencedOutcome> = (0..5)
        .map(|i| SequencedOutcome { sequence: i, outcome: ProbeOutcome::Replied(10 * i as u128) })
        .collect();
    let mut faulted = clean.clone();
    faulted[2].outcome = ProbeOutcome::TransportError;
    let out_clean = assemble(5, &clean).unwrap();
    let out_faulted = assemble(5, &faulted).unwrap();
    assert_eq!(out_faulted.len(), 5);
    for i in 0..5 {
        assert_eq!(out_faulted[i].sequence, i);
        if i != 2 {
            assert_eq!(out_faulted[i], out_clean[i]);
        }
    }
    assert_eq!(out_faulted[2].outcome, ProbeOutcome::TransportError);
    assert_eq!(render(&out_faulted).0[2], (2, None));
}

#[test]
fn local_host_quick_replies() {
    // loopback target, two probes, 1 s apart, 5 s expiry, both reply fast
    let p = param(2, 1000, 5000);
    let tasks = plan(&p).unwrap();
    assert_eq!(tasks.len(), 2);
    let collected = vec![
        SequencedOutcome { sequence: 1, outcome: ProbeOutcome::Replied(1) },
        SequencedOutcome { sequence: 0, outcome: ProbeOutcome::Replied(0) },
    ];
    let res = render(&assemble(2, &collected).unwrap());
    assert_eq!(res.0.len(), 2);
    assert!(res.0[0].0 == 0 && res.0[0].1.is_some());
    assert!(res.0[1].0 == 1 && res.0[1].1.is_some());
}

#[test]
fn unreachable_host_reports_every_timeout() {
    // a target that never replies: five entries, in order, all timeouts
    let collected: Vec<SequencedOutcome> =
        (0..5).rev().map(|i| SequencedOutcome { sequence: i, outcome: ProbeOutcome::TimedOut }).collect();
    let res = render(&assemble(5, &collected).unwrap());
    assert_eq!(res.0.len(), 5);
    for i in 0..5 {
        assert_eq!(res.0[i], (i, None));
    }
}

#[test]
fn repeated_runs_share_length_and_order() {
    // the same request run twice against a deterministic engine: outcome
    // values may differ, the shape may not
    let first: Vec<SequencedOutcome> = (0..4)
        .map(|i| SequencedOutcome { sequence: i, outcome: ProbeOutcome::Replied(i as u128) })
        .collect();
    let second: Vec<SequencedOutcome> = (0..4)
        .rev()
        .map(|i| SequencedOutcome { sequence: i, outcome: ProbeOutcome::Replied(2 * i as u128) })
        .collect();
    let out_first = assemble(4, &first).unwrap();
    let out_second = assemble(4, &second).unwrap();
    assert_eq!(out_first.len(), out_second.len());
    for i in 0..4 {
        assert_eq!(out_first[i].sequence, out_second[i].sequence);
    }
}
