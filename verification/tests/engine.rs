use tango::{
    compute_adjustment, InputQueue, QueueError, Round, RoundOutcome, RoundPhase, StepResult,
    TickClock, MAX_ADJ,
};

fn fresh_round(max_depth: usize, delay: u32, stall_timeout: u32) -> Round {
    Round::new(max_depth, delay, delay, stall_timeout, 60, 0, vec![1, 2, 3])
}

#[test]
fn queue_push_and_pop_round_trip() {
    // Pushes with strictly increasing contiguous ticks come back out at
    // tick + delay, exactly once each, in order.
    let mut q = InputQueue::new(16);
    for t in 0u64..8 {
        assert_eq!(q.push(t, 100 + t as u32), Ok(()));
    }
    assert_eq!(q.depth(), 8);
    for t in 0u64..8 {
        assert_eq!(q.pop_ready(t + 3, 3), Ok(100 + t as u32));
        // A second pop aimed at the same tick never yields it again.
        assert_eq!(q.pop_ready(t + 3, 3), Err(QueueError::NotYetAvailable));
    }
    assert_eq!(q.depth(), 0);
}

#[test]
fn queue_out_of_order_always_fails() {
    let mut q = InputQueue::new(4);
    // Empty queue: the first push must carry tick zero.
    assert_eq!(q.push(1, 7), Err(QueueError::OutOfOrder));
    assert_eq!(q.push(0, 7), Ok(()));
    // Skipping ahead fails.
    assert_eq!(q.push(2, 8), Err(QueueError::OutOfOrder));
    // Repeating a tick fails.
    assert_eq!(q.push(0, 8), Err(QueueError::OutOfOrder));
    // The queue is unchanged by the failures.
    assert_eq!(q.depth(), 1);
    assert_eq!(q.push(1, 8), Ok(()));
}

#[test]
fn queue_overflow_at_ceiling() {
    let mut q = InputQueue::new(2);
    assert_eq!(q.push(0, 1), Ok(()));
    assert_eq!(q.push(1, 2), Ok(()));
    assert_eq!(q.push(2, 3), Err(QueueError::QueueOverflow));
    assert_eq!(q.depth(), 2);
}

#[test]
fn clock_clamps_adjustment() {
    let mut c = TickClock::new(60);
    c.set_adjustment(100);
    assert_eq!(c.adjustment(), MAX_ADJ);
    c.set_adjustment(-100);
    assert_eq!(c.adjustment(), -MAX_ADJ);
    c.set_adjustment(1);
    assert_eq!(c.adjustment(), 1);
    assert_eq!(c.effective_tps(), 61);
    assert_eq!(c.advance(), 1);
    assert_eq!(c.advance(), 2);
    assert_eq!(c.current_tick(), 2);
}

#[test]
fn controller_bounded_and_directed() {
    // Always within [-MAX_ADJ, MAX_ADJ]; zero inside the deadband; pointing
    // toward equilibrium outside it; and stable under repetition.
    for local in 0usize..40 {
        for remote in 0usize..40 {
            let adj = compute_adjustment(local, remote);
            assert!(adj >= -MAX_ADJ && adj <= MAX_ADJ);
            let imbalance = remote as i64 - local as i64;
            if imbalance.abs() <= 1 {
                assert_eq!(adj, 0);
            } else if imbalance > 1 {
                assert!(adj >= 1);
            } else {
                assert!(adj <= -1);
            }
            // A fixed imbalance held constant gives the same correction on
            // every invocation: no oscillation.
            assert_eq!(adj, compute_adjustment(local, remote));
        }
    }
    assert_eq!(compute_adjustment(0, 6), 3);
    assert_eq!(compute_adjustment(0, 100), MAX_ADJ);
    assert_eq!(compute_adjustment(100, 0), -MAX_ADJ);
}

#[test]
fn round_waits_for_initial_buffer() {
    // The round never reaches Running before both queues hold `delay`
    // entries.
    let mut r = fresh_round(8, 2, 10);
    assert_eq!(r.phase, RoundPhase::AwaitingInitialBuffer);
    assert!(!r.try_start());
    r.feed_local(0, 10);
    r.feed_remote(0, 20);
    assert!(!r.try_start());
    assert_eq!(r.phase, RoundPhase::AwaitingInitialBuffer);
    r.feed_local(1, 11);
    assert!(!r.try_start());
    r.feed_remote(1, 21);
    assert!(r.try_start());
    assert_eq!(r.phase, RoundPhase::Running);
    // Starting is one-shot.
    assert!(!r.try_start());
}

#[test]
fn round_consumes_lockstep_pairs() {
    let mut r = fresh_round(8, 1, 10);
    r.feed_local(0, 10);
    r.feed_remote(0, 20);
    assert!(r.try_start());
    r.feed_local(1, 11);
    r.feed_remote(1, 21);
    match r.step(false) {
        StepResult::Stepped(p) => {
            assert_eq!((p.tick, p.local, p.remote), (0, 10, 20));
        }
        other => panic!("expected a consumed pair, got {:?}", other),
    }
    match r.step(false) {
        StepResult::Stepped(p) => {
            assert_eq!((p.tick, p.local, p.remote), (1, 11, 21));
        }
        other => panic!("expected a consumed pair, got {:?}", other),
    }
    // Nothing buffered: a stall, not an error.
    assert_eq!(r.step(false), StepResult::Stalled);
}

#[test]
fn round_overflow_desyncs_and_releases() {
    // Exceeding the configured maximum queue depth yields Desynced and
    // releases the round's resources at once.
    let mut r = fresh_round(2, 1, 10);
    r.feed_local(0, 1);
    r.feed_local(1, 2);
    let outcome = r.feed_local(2, 3);
    assert_eq!(
        outcome,
        tango::FeedOutcome::Fatal(QueueError::QueueOverflow)
    );
    assert_eq!(r.phase, RoundPhase::Ended(RoundOutcome::Desynced));
    assert!(r.detached);
    assert_eq!(r.local_queue.depth(), 0);
    assert_eq!(r.remote_queue.depth(), 0);
    // No further ticking occurs.
    assert_eq!(r.step(false), StepResult::Idle);
}

#[test]
fn round_cancellation_ends_within_one_tick() {
    // Cancelling mid-Running leaves no lingering flow: the very next step
    // observes the signal, the round reaches Cancelled, and both queues and
    // the transport are released.
    let mut r = fresh_round(8, 1, 10);
    r.feed_local(0, 1);
    r.feed_remote(0, 2);
    assert!(r.try_start());
    assert_eq!(
        r.step(true),
        StepResult::Ended(RoundOutcome::Cancelled)
    );
    assert_eq!(r.phase, RoundPhase::Ended(RoundOutcome::Cancelled));
    assert!(r.detached);
    assert_eq!(r.local_queue.depth(), 0);
    assert_eq!(r.remote_queue.depth(), 0);
    assert_eq!(r.step(false), StepResult::Idle);
}

#[test]
fn round_stall_timeout_desyncs() {
    let mut r = fresh_round(8, 1, 3);
    r.feed_local(0, 1);
    r.feed_remote(0, 2);
    assert!(r.try_start());
    match r.step(false) {
        StepResult::Stepped(_) => {}
        other => panic!("expected a consumed pair, got {:?}", other),
    }
    // Remote never arrives: bounded stalls, then a fatal desync.
    r.feed_local(1, 3);
    assert_eq!(r.step(false), StepResult::Stalled);
    assert_eq!(r.step(false), StepResult::Stalled);
    assert_eq!(r.step(false), StepResult::Stalled);
    assert_eq!(r.step(false), StepResult::Ended(RoundOutcome::Desynced));
    assert_eq!(r.phase, RoundPhase::Ended(RoundOutcome::Desynced));
}

#[test]
fn round_checksum_mismatch_desyncs() {
    let mut r = fresh_round(8, 1, 10);
    r.feed_local(0, 1);
    r.feed_remote(0, 2);
    assert!(r.try_start());
    assert!(r.check_state(0xabcd, 0xabcd));
    assert_eq!(r.phase, RoundPhase::Running);
    assert!(!r.check_state(0xabcd, 0xabce));
    assert_eq!(r.phase, RoundPhase::Ended(RoundOutcome::Desynced));
}

#[test]
fn round_completion_and_fault() {
    let mut r = fresh_round(8, 1, 10);
    r.feed_local(0, 1);
    r.feed_remote(0, 2);
    assert!(r.try_start());
    r.on_completed();
    assert_eq!(r.phase, RoundPhase::Ended(RoundOutcome::Completed));

    let mut r2 = fresh_round(8, 1, 10);
    r2.feed_local(0, 1);
    r2.feed_remote(0, 2);
    assert!(r2.try_start());
    r2.on_fault();
    assert_eq!(r2.phase, RoundPhase::Ended(RoundOutcome::Faulted));
}

#[test]
fn round_debug_stats_snapshot() {
    let mut r = fresh_round(8, 2, 10);
    r.feed_local(0, 1);
    r.feed_local(1, 2);
    r.feed_remote(0, 3);
    let stats = r.debug_stats();
    assert_eq!(stats.local_qlen, 2);
    assert_eq!(stats.remote_qlen, 1);
    assert_eq!(stats.local_delay, 2);
    assert_eq!(stats.remote_delay, 2);
    assert_eq!(stats.tps_adjustment, 0);
    assert_eq!(stats.local_player_index, 0);
}

#[test]
fn remote_stall_recovers_within_timeout() {
    // Two peers at input delay 2 with a large queue ceiling; the remote flow
    // stalls for fifty ticks and then resumes. The local queue grows toward
    // but never past the ceiling, the controller slows the local clock while
    // it is ahead, and no desync occurs once the remote resumes within the
    // stall timeout.
    let mut r = Round::new(1200, 2, 2, 100, 60, 0, vec![]);
    for t in 0u64..2 {
        r.feed_local(t, t as u32);
        r.feed_remote(t, 1000 + t as u32);
    }
    assert!(r.try_start());
    let mut local_next: u64 = 2;
    let mut consumed = 0u32;
    // The remote side goes silent while the local side keeps sampling.
    for _ in 0..50 {
        assert_eq!(r.feed_local(local_next, local_next as u32), tango::FeedOutcome::Accepted);
        local_next += 1;
        match r.step(false) {
            StepResult::Stepped(_) => consumed += 1,
            StepResult::Stalled => {}
            other => panic!("unexpected result during stall: {:?}", other),
        }
    }
    // Only the two buffered remote inputs could be consumed.
    assert_eq!(consumed, 2);
    let depth = r.local_queue.depth();
    assert!(depth > 2 && depth <= 1200);
    // The controller slows this side while it runs ahead.
    assert!(r.clock.adjustment() < 0 || r.step(false) == StepResult::Stalled);
    assert!(r.clock.adjustment() <= 0);
    // The remote resumes; the round catches up with no desync.
    let mut remote_next: u64 = 2;
    for _ in 0..50 {
        assert_eq!(
            r.feed_remote(remote_next, 1000 + remote_next as u32),
            tango::FeedOutcome::Accepted
        );
        remote_next += 1;
        match r.step(false) {
            StepResult::Stepped(_) => consumed += 1,
            StepResult::Stalled => {}
            other => panic!("unexpected result after resume: {:?}", other),
        }
    }
    assert_eq!(r.phase, RoundPhase::Running);
    assert!(consumed >= 50);
}

#[test]
fn identical_inputs_give_identical_pair_sequences() {
    // Determinism: two rounds fed the same input sequences consume the same
    // tick-indexed pairs.
    let locals: Vec<u32> = (0..20).map(|i| i * 3).collect();
    let remotes: Vec<u32> = (0..20).map(|i| 1000 + i * 7).collect();
    let run = |seed_state: Vec<u8>| -> Vec<(u64, u32, u32)> {
        let mut r = Round::new(64, 2, 2, 10, 60, 0, seed_state);
        for t in 0u64..20 {
            assert_eq!(r.feed_local(t, locals[t as usize]), tango::FeedOutcome::Accepted);
            assert_eq!(r.feed_remote(t, remotes[t as usize]), tango::FeedOutcome::Accepted);
        }
        assert!(r.try_start());
        let mut out = vec![];
        loop {
            match r.step(false) {
                StepResult::Stepped(p) => out.push((p.tick, p.local, p.remote)),
                _ => break,
            }
        }
        out
    };
    let a = run(vec![]);
    let b = run(vec![]);
    assert_eq!(a, b);
    assert_eq!(a.len(), 20);
    for (i, (tick, l, rm)) in a.iter().enumerate() {
        assert_eq!(*tick, i as u64);
        assert_eq!(*l, locals[i]);
        assert_eq!(*rm, remotes[i]);
    }
}
