use hazel::sender::{
    is_silence, needs_ping, AudioStep, AudioStreamingState, ScreenStreamingData, PING_INTERVAL_NANOS,
    SILENCE_HANG_NANOS,
};

#[test]
fn silence_and_ping_thresholds() {
    assert!(!is_silence(SILENCE_HANG_NANOS));
    assert!(is_silence(SILENCE_HANG_NANOS + 1));
    assert!(!is_silence(0));
    assert_eq!(SILENCE_HANG_NANOS, 400_000_000);
    assert!(!needs_ping(PING_INTERVAL_NANOS));
    assert!(needs_ping(PING_INTERVAL_NANOS + 1));
    assert_eq!(PING_INTERVAL_NANOS, 10_000_000_000);
}

#[test]
fn speech_section_ends_with_one_marker() {
    let mut s = AudioStreamingState::new();
    assert_eq!(s.on_samples(true), AudioStep::Idle);
    assert_eq!(s.on_samples(false), AudioStep::Encode);
    assert!(s.sends_encoded());
    assert_eq!(s.on_samples(false), AudioStep::Encode);
    assert_eq!(s.on_samples(true), AudioStep::EndSpeech);
    assert!(!s.sends_encoded());
    assert_eq!(s.on_samples(true), AudioStep::Idle);
}

#[test]
fn wake_closes_section_on_timeout_or_mute() {
    let mut s = AudioStreamingState::new();
    assert!(!s.on_wake(true, false));
    s.on_samples(false);
    assert!(!s.on_wake(false, true));
    assert!(s.transmitting);
    assert!(s.on_wake(true, true));
    assert!(!s.transmitting);
    s.on_samples(false);
    assert!(s.on_wake(false, false));
    assert!(!s.on_wake(false, false));
}

#[test]
fn sequence_numbers_count_up() {
    let mut s = AudioStreamingState::new();
    assert_eq!(s.take_seq(), 0);
    assert_eq!(s.take_seq(), 1);
    assert_eq!(s.seq, 2);
    let mut screen = ScreenStreamingData::new("cast");
    assert_eq!(screen.seq, 0);
    assert_eq!(screen.take_seq(), 0);
    assert_eq!(screen.take_seq(), 1);
    assert_eq!(screen.screencast, "cast");
}
