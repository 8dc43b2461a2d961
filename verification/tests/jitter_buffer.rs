use hazel::jitter::{DecodeAction, JitterBuffer, PushOutcome, MAX_BUFFER_SIZE, MAX_MISSES};

fn played(a: DecodeAction<u32>) -> Option<u32> {
    match a {
        DecodeAction::Play(p) => Some(p),
        _ => None,
    }
}

#[test]
fn empty_buffer_waits() {
    let mut jb: JitterBuffer<u32> = JitterBuffer::new();
    assert_eq!(jb.len(), 0);
    assert_eq!(jb.next_playout_seq(), None);
    assert!(jb.earliest().is_none());
    assert!(matches!(jb.next_action(true), DecodeAction::Waiting));
}

#[test]
fn plays_in_sequence_once_ready() {
    let mut jb: JitterBuffer<u32> = JitterBuffer::new();
    assert_eq!(jb.push_packet(11, false, 110), PushOutcome::Stored);
    assert_eq!(jb.push_packet(10, false, 100), PushOutcome::Stored);
    assert_eq!(jb.push_packet(12, false, 120), PushOutcome::Stored);
    assert_eq!(jb.earliest(), Some((10, &100)));
    assert!(matches!(jb.next_action(false), DecodeAction::Waiting));
    assert_eq!(played(jb.next_action(true)), Some(100));
    assert_eq!(jb.next_playout_seq(), Some(11));
    assert_eq!(played(jb.next_action(false)), Some(110));
    assert_eq!(played(jb.next_action(false)), Some(120));
    assert_eq!(jb.len(), 0);
}

#[test]
fn conceals_then_gives_up() {
    let mut jb: JitterBuffer<u32> = JitterBuffer::new();
    jb.push_packet(1, false, 1);
    assert_eq!(played(jb.next_action(true)), Some(1));
    for _ in 0..MAX_MISSES {
        assert!(matches!(jb.next_action(true), DecodeAction::Conceal));
    }
    assert!(matches!(jb.next_action(true), DecodeAction::GaveUp));
    assert_eq!(jb.next_playout_seq(), None);
    assert!(matches!(jb.next_action(true), DecodeAction::Waiting));
}

#[test]
fn recovers_from_following_packet() {
    let mut jb: JitterBuffer<u32> = JitterBuffer::new();
    jb.push_packet(20, false, 200);
    jb.push_packet(22, false, 220);
    assert_eq!(played(jb.next_action(true)), Some(200));
    match jb.next_action(true) {
        DecodeAction::Recover(p) => assert_eq!(p, 220),
        _ => panic!("expected recovery"),
    }
    assert_eq!(jb.next_playout_seq(), Some(22));
    assert_eq!(jb.len(), 0);
}

#[test]
fn late_packet_is_dropped() {
    let mut jb: JitterBuffer<u32> = JitterBuffer::new();
    jb.push_packet(10, false, 100);
    jb.next_action(true);
    let outcome = jb.push_packet(9, false, 90);
    assert_eq!(outcome, PushOutcome::Late);
    assert!(outcome.updates_timing());
    assert_eq!(jb.len(), 0);
}

#[test]
fn marker_closes_chunk_and_older_packets_are_stale() {
    let mut jb: JitterBuffer<u32> = JitterBuffer::new();
    jb.push_packet(5, false, 50);
    let outcome = jb.push_packet(6, true, 0);
    assert_eq!(outcome, PushOutcome::ChunkEnd);
    assert!(!outcome.updates_timing());
    assert_eq!(played(jb.next_action(true)), Some(50));
    let closed = jb.next_action(true);
    assert!(matches!(closed, DecodeAction::ChunkClosed));
    assert!(!closed.produces_audio());
    assert_eq!(jb.next_playout_seq(), None);
    assert_eq!(jb.push_packet(4, false, 40), PushOutcome::Stale);
    assert_eq!(jb.len(), 0);
    assert_eq!(jb.push_packet(7, false, 70), PushOutcome::Stored);
}

#[test]
fn full_buffer_drops_oldest() {
    let mut jb: JitterBuffer<u32> = JitterBuffer::new();
    for seq in 0..=(MAX_BUFFER_SIZE as u64) {
        assert_eq!(jb.push_packet(seq, false, seq as u32), PushOutcome::Stored);
    }
    assert_eq!(jb.len(), MAX_BUFFER_SIZE);
    assert_eq!(jb.earliest(), Some((1, &1)));
}

#[test]
fn sequence_numbers_wrap() {
    let mut jb: JitterBuffer<u32> = JitterBuffer::new();
    jb.push_packet(u64::MAX, false, 1);
    jb.push_packet(0, false, 2);
    assert_eq!(played(jb.next_action(true)), Some(2));
    assert_eq!(jb.next_playout_seq(), Some(1));
}

#[test]
fn audio_producing_actions() {
    assert!(DecodeAction::Play(1u32).produces_audio());
    assert!(DecodeAction::Recover(1u32).produces_audio());
    assert!(DecodeAction::<u32>::Conceal.produces_audio());
    assert!(!DecodeAction::<u32>::Waiting.produces_audio());
    assert!(!DecodeAction::<u32>::GaveUp.produces_audio());
    assert!(PushOutcome::Stored.updates_timing());
    assert!(!PushOutcome::Stale.updates_timing());
}
