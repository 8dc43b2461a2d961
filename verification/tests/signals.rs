use hazel::channel::FrameChannelState;
use hazel::notifier::{CaptureNotifierState, WaitResult};

#[test]
fn nothing_ready_keeps_waiting_or_times_out() {
    let mut s = CaptureNotifierState::new();
    assert!(!s.is_ready());
    assert_eq!(s.poll_wait(false), None);
    assert_eq!(s.poll_wait(true), Some(WaitResult::Timeout));
}

#[test]
fn audio_ready_wakes_and_clears() {
    let mut s = CaptureNotifierState::new();
    s.notify_ping();
    s.notify_audio();
    assert!(s.is_ready());
    let got = s.poll_wait(true);
    assert_eq!(
        got,
        Some(WaitResult::Ready(CaptureNotifierState { ping: true, is_audio_ready: true, is_screen_ready: false }))
    );
    assert_eq!(s, CaptureNotifierState::new());
}

#[test]
fn screen_ready_wakes() {
    let mut s = CaptureNotifierState::new();
    s.notify_screen();
    assert_eq!(
        s.poll_wait(false),
        Some(WaitResult::Ready(CaptureNotifierState { ping: false, is_audio_ready: false, is_screen_ready: true }))
    );
}

#[test]
fn ping_alone_does_not_wake() {
    let mut s = CaptureNotifierState::new();
    s.notify_ping();
    assert!(!s.is_ready());
    assert_eq!(s.poll_wait(false), None);
    assert_eq!(s.poll_wait(true), Some(WaitResult::Timeout));
    assert!(s.ping);
}

#[test]
fn frame_channel_keeps_latest() {
    let mut ch: FrameChannelState<u32> = FrameChannelState::new();
    assert_eq!(ch.poll_frame(), None);
    ch.send(1);
    ch.send(2);
    assert_eq!(ch.poll_frame(), Some(Some(2)));
    assert_eq!(ch.poll_frame(), None);
}

#[test]
fn frame_channel_delivers_before_close() {
    let mut ch: FrameChannelState<&str> = FrameChannelState::new();
    ch.send("last");
    ch.close();
    assert!(ch.is_closed());
    assert_eq!(ch.poll_frame(), Some(Some("last")));
    assert_eq!(ch.poll_frame(), Some(None));
    assert_eq!(ch.poll_frame(), Some(None));
}
