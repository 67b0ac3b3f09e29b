use tango::{parse_replay, serialize_replay, InputPair, Recorder, Replayer, ReplayPoll};

fn sample_pairs(n: u64) -> Vec<InputPair> {
    (0..n)
        .map(|t| InputPair { tick: t, local: 10 + t as u32, remote: 20 + t as u32 })
        .collect()
}

#[test]
fn playback_reproduces_recording() {
    // Recorder then replayer: the played-back pair sequence is exactly the
    // recorded one, in order, and completion is reported at the end.
    let mut rec = Recorder::new(vec![9, 9, 9], 1);
    for p in sample_pairs(5) {
        rec.record(p);
    }
    let replay = rec.finalize(true);
    let mut player = Replayer::new(replay);
    for t in 0u64..5 {
        match player.poll() {
            ReplayPoll::Pair(p) => {
                assert_eq!((p.tick, p.local, p.remote), (t, 10 + t as u32, 20 + t as u32));
            }
            other => panic!("expected a pair at tick {}, got {:?}", t, other),
        }
    }
    assert_eq!(player.poll(), ReplayPoll::Done);
}

#[test]
fn incomplete_replay_idles_at_end() {
    // A mid-capture log idles at the last available tick instead of
    // completing.
    let mut rec = Recorder::new(vec![], 0);
    for p in sample_pairs(2) {
        rec.record(p);
    }
    let mut player = Replayer::new(rec.finalize(false));
    assert!(matches!(player.poll(), ReplayPoll::Pair(_)));
    assert!(matches!(player.poll(), ReplayPoll::Pair(_)));
    assert_eq!(player.poll(), ReplayPoll::Idle);
    assert_eq!(player.poll(), ReplayPoll::Idle);
}

#[test]
fn pause_and_single_step() {
    let mut rec = Recorder::new(vec![], 0);
    for p in sample_pairs(3) {
        rec.record(p);
    }
    let mut player = Replayer::new(rec.finalize(true));
    player.pause();
    // Paused playback idles...
    assert_eq!(player.poll(), ReplayPoll::Idle);
    assert_eq!(player.poll(), ReplayPoll::Idle);
    // ...but a single step delivers exactly one tick while staying paused.
    match player.single_step() {
        ReplayPoll::Pair(p) => assert_eq!(p.tick, 0),
        other => panic!("expected a pair, got {:?}", other),
    }
    assert_eq!(player.poll(), ReplayPoll::Idle);
    player.unpause();
    match player.poll() {
        ReplayPoll::Pair(p) => assert_eq!(p.tick, 1),
        other => panic!("expected a pair, got {:?}", other),
    }
}

#[test]
fn replay_file_round_trips() {
    let mut rec = Recorder::new(vec![1, 2, 3, 4, 5], 1);
    for p in sample_pairs(4) {
        rec.record(p);
    }
    let replay = rec.finalize(true);
    let bytes = serialize_replay(&replay);
    let parsed = parse_replay(&bytes).unwrap();
    assert_eq!(parsed.initial_state, replay.initial_state);
    assert_eq!(parsed.pairs, replay.pairs);
    assert_eq!(parsed.is_complete, replay.is_complete);
    assert_eq!(parsed.local_player_index, replay.local_player_index);
}

#[test]
fn replay_file_rejects_malformed_bytes() {
    // Too short.
    assert!(parse_replay(&[1, 0, 0, 0]).is_none());
    // A completion flag that is neither zero nor one.
    assert!(parse_replay(&[2, 0, 0, 0, 0, 0]).is_none());
    // A snapshot length past the end.
    assert!(parse_replay(&[1, 0, 9, 0, 0, 0, 0]).is_none());
    // A pair count that does not match the remaining bytes.
    let mut rec = Recorder::new(vec![], 0);
    rec.record(InputPair { tick: 0, local: 1, remote: 2 });
    let mut bytes = serialize_replay(&rec.finalize(true));
    bytes.pop();
    assert!(parse_replay(&bytes).is_none());
}

#[test]
fn empty_replay_round_trips() {
    let rec = Recorder::new(vec![], 3);
    let replay = rec.finalize(false);
    let bytes = serialize_replay(&replay);
    let parsed = parse_replay(&bytes).unwrap();
    assert!(parsed.pairs.is_empty());
    assert!(!parsed.is_complete);
    assert_eq!(parsed.local_player_index, 3);
}
