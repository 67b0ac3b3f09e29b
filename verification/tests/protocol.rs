use tango::{
    decode_message, encode_frame, encode_message, negotiate, take_frame, Match, MatchError,
    Message, RoundPhase, Settings, StepResult, TransportError,
};


fn settings(rom_checksum: u32, seed: u128) -> Settings {
    Settings {
        match_type: 1,
        match_subtype: 0,
        input_delay: 2,
        rom_checksum,
        seed_contribution: seed,
    }
}

#[test]
fn init_message_round_trips() {
    let m = Message::Init { settings: settings(0xdeadbeef, 0x0123_4567_89ab_cdef_0011_2233_4455_6677) };
    let bytes = encode_message(&m);
    assert_eq!(bytes.len(), 27);
    assert_eq!(decode_message(&bytes), Some(m));
}

#[test]
fn input_message_round_trips() {
    let m = Message::InputMsg { tick: 12345678901234, input: 0x0305, checksum: None };
    let bytes = encode_message(&m);
    assert_eq!(bytes.len(), 14);
    assert_eq!(decode_message(&bytes), Some(m));

    let m2 = Message::InputMsg { tick: 7, input: 0xffff_0001, checksum: Some(0xcafef00d) };
    let bytes2 = encode_message(&m2);
    assert_eq!(bytes2.len(), 18);
    assert_eq!(decode_message(&bytes2), Some(m2));
}

#[test]
fn decode_rejects_malformed_messages() {
    assert_eq!(decode_message(&[]), None);
    assert_eq!(decode_message(&[9u8; 27]), None);
    // A truncated input message.
    let m = Message::InputMsg { tick: 7, input: 1, checksum: None };
    let mut bytes = encode_message(&m);
    bytes.pop();
    assert_eq!(decode_message(&bytes), None);
}

#[test]
fn frame_round_trips_and_buffers() {
    let m = Message::InputMsg { tick: 42, input: 0x10, checksum: Some(3) };
    let frame = encode_frame(&m);
    // A whole frame parses and consumes exactly itself.
    match take_frame(&frame) {
        Ok(Some((decoded, consumed))) => {
            assert_eq!(decoded, m);
            assert_eq!(consumed, frame.len());
        }
        other => panic!("expected a frame, got {:?}", other),
    }
    // A partial frame asks for more data.
    assert_eq!(take_frame(&frame[..3]), Ok(None));
    assert_eq!(take_frame(&frame[..frame.len() - 1]), Ok(None));
    // Two frames back to back: the first parses, the rest stays.
    let mut two = frame.clone();
    two.extend_from_slice(&frame);
    match take_frame(&two) {
        Ok(Some((_, consumed))) => assert_eq!(consumed, frame.len()),
        other => panic!("expected a frame, got {:?}", other),
    }
}

#[test]
fn frame_rejects_malformed_streams() {
    // A length over the ceiling is fatal.
    let oversized = [0xffu8, 0xff, 0xff, 0xff, 0, 0];
    assert_eq!(take_frame(&oversized), Err(TransportError::Malformed));
    // A frame whose payload does not decode is fatal.
    let bad = [3u8, 0, 0, 0, 9, 9, 9];
    assert_eq!(take_frame(&bad), Err(TransportError::Malformed));
}

#[test]
fn negotiation_agrees_and_derives_seed() {
    let a = settings(0x1111, 5);
    let b = settings(0x1111, 9);
    let na = negotiate(&a, &b, true).unwrap();
    let nb = negotiate(&b, &a, false).unwrap();
    // Both sides derive the same shared seed: the offerer's contribution
    // seeds first on either side.
    assert_eq!(na.shared_seed, nb.shared_seed);
    assert_eq!(na.shared_seed, 5u128.wrapping_mul(3).wrapping_add(9));
    assert!(na.is_offerer);
    assert!(!nb.is_offerer);
}

#[test]
fn negotiation_mismatch_fails_and_creates_no_round() {
    // Peer A reports one ROM checksum, peer B another: negotiation fails
    // with SettingsMismatch and no round is created.
    let a = settings(0x1111, 5);
    let b = settings(0x2222, 9);
    assert_eq!(negotiate(&a, &b, true), Err(MatchError::SettingsMismatch));

    let mut m = Match::new(a, true, 1200, 100, 60);
    assert_eq!(
        m.handle_remote_init(b, vec![]),
        Err(MatchError::SettingsMismatch)
    );
    assert!(m.round.is_none());
    assert!(m.negotiated.is_none());
}

#[test]
fn match_runs_round_and_cancels() {
    let a = settings(0x1111, 5);
    let b = settings(0x1111, 9);
    let mut m = Match::new(a, true, 1200, 100, 60);
    assert_eq!(m.handle_remote_init(b, vec![7, 7]), Ok(()));
    assert!(m.round.is_some());
    for t in 0u64..2 {
        m.feed_local(t, t as u32);
        m.feed_remote(t, 100 + t as u32);
    }
    assert!(m.try_start());
    match m.step() {
        StepResult::Stepped(p) => assert_eq!((p.tick, p.local, p.remote), (0, 0, 100)),
        other => panic!("expected a consumed pair, got {:?}", other),
    }
    // Cancellation is observed at the next tick boundary.
    m.cancel();
    assert_eq!(
        m.step(),
        StepResult::Ended(tango::RoundOutcome::Cancelled)
    );
    let round = m.round.as_ref().unwrap();
    assert_eq!(
        round.phase,
        RoundPhase::Ended(tango::RoundOutcome::Cancelled)
    );
    assert!(round.detached);
    // The finished round hands its recording out.
    let replay = m.take_replay().unwrap();
    assert!(!replay.is_complete);
    assert_eq!(replay.pairs.len(), 1);
    assert_eq!(replay.initial_state, vec![7, 7]);
    assert!(m.round.is_none());
    let stats = m.debug_stats();
    assert!(stats.round.is_none());
}

#[test]
fn ingress_filter_drops_duplicates_and_rejects_gaps() {
    let mut filter = tango::InputIngress::new();
    assert_eq!(filter.accept(0), tango::IngressVerdict::Accept);
    assert_eq!(filter.accept(1), tango::IngressVerdict::Accept);
    // A replayed tick is dropped before it reaches the queue.
    assert_eq!(filter.accept(1), tango::IngressVerdict::Duplicate);
    assert_eq!(filter.accept(0), tango::IngressVerdict::Duplicate);
    // A skipped tick violates the ordered stream contract.
    assert_eq!(filter.accept(5), tango::IngressVerdict::Gap);
    // The filter itself is unmoved by either.
    assert_eq!(filter.accept(2), tango::IngressVerdict::Accept);
}
