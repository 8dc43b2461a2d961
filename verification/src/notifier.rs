//! Wake-up bookkeeping between the capture threads and the packet sender:
//! which kinds of data are ready, and what a waiting sender is told.

use vstd::prelude::*;

verus! {

/// What the capture side has signalled since the sender last woke up.
#[derive(Debug, Clone, Copy, PartialEq, Eq, Structural)]
pub struct CaptureNotifierState {
    pub ping: bool,
    pub is_audio_ready: bool,
    pub is_screen_ready: bool,
}

/// What a waiting sender is told.
#[derive(Debug, Clone, Copy, PartialEq, Eq, Structural)]
pub enum WaitResult {
    /// Audio or screen data is ready; the signals gathered so far.
    Ready(CaptureNotifierState),
    /// The wait timed out with nothing ready.
    Timeout,
}

/// One check of a waiting sender: the state afterwards and what it is told,
/// `None` when it keeps waiting.
pub open spec fn spec_poll_wait(s: CaptureNotifierState, timed_out: bool) -> (
    CaptureNotifierState,
    Option<WaitResult>,
) {
    if s.spec_is_ready() {
        (CaptureNotifierState::spec_cleared(), Some(WaitResult::Ready(s)))
    } else if timed_out {
        (s, Some(WaitResult::Timeout))
    } else {
        (s, None)
    }
}

impl CaptureNotifierState {
    /// Audio or screen data waits to be sent.
    pub open spec fn spec_is_ready(self) -> bool {
        self.is_audio_ready || self.is_screen_ready
    }

    /// Nothing signalled.
    pub fn new() -> (s: Self)
        ensures
            !s.ping && !s.is_audio_ready && !s.is_screen_ready,
    {
        CaptureNotifierState { ping: false, is_audio_ready: false, is_screen_ready: false }
    }

    /// Audio or screen data waits to be sent.
    pub fn is_ready(&self) -> (res: bool)
        ensures
            res == self.spec_is_ready(),
    {
        self.is_audio_ready || self.is_screen_ready
    }

    /// Captured audio is ready.
    pub fn notify_audio(&mut self)
        ensures
            *final(self) == (CaptureNotifierState { is_audio_ready: true, ..*old(self) }),
    {
        self.is_audio_ready = true;
    }

    /// A keep-alive is due; it does not wake the sender by itself.
    pub fn notify_ping(&mut self)
        ensures
            *final(self) == (CaptureNotifierState { ping: true, ..*old(self) }),
    {
        self.ping = true;
    }

    /// A captured screen frame is ready.
    pub fn notify_screen(&mut self)
        ensures
            *final(self) == (CaptureNotifierState { is_screen_ready: true, ..*old(self) }),
    {
        self.is_screen_ready = true;
    }

    /// One check of a waiting sender: when data is ready it is handed all
    /// signals gathered so far, which are cleared; otherwise it is told of a
    /// timeout if its wait has run out, and keeps waiting (`None`) if not.
    pub fn poll_wait(&mut self, timed_out: bool) -> (res: Option<WaitResult>)
        ensures
            (*final(self), res) == spec_poll_wait(*old(self), timed_out),
    {
        if self.is_ready() {
            let result = *self;
            self.is_audio_ready = false;
            self.is_screen_ready = false;
            self.ping = false;
            Some(WaitResult::Ready(result))
        } else if timed_out {
            Some(WaitResult::Timeout)
        } else {
            None
        }
    }

    /// The state with no signal.
    pub open spec fn spec_cleared() -> CaptureNotifierState {
        CaptureNotifierState { ping: false, is_audio_ready: false, is_screen_ready: false }
    }
}

/// A notification of ready audio is never lost: the next check of a waiting
/// sender, timed out or not, hands it over together with a pending
/// keep-alive, and leaves nothing signalled.
pub proof fn lemma_audio_notification_delivered(s: CaptureNotifierState, timed_out: bool)
    ensures
        ({
            let (after, res) = spec_poll_wait(CaptureNotifierState { is_audio_ready: true, ..s }, timed_out);
            &&& res matches Some(WaitResult::Ready(r)) && r.is_audio_ready && r.ping == s.ping
            &&& after == CaptureNotifierState::spec_cleared()
        }),
{
}

/// A keep-alive alone never wakes the sender: without ready data a check
/// keeps waiting or times out, and the keep-alive stays pending.
pub proof fn lemma_ping_alone_does_not_wake(s: CaptureNotifierState, timed_out: bool)
    requires
        !s.spec_is_ready(),
    ensures
        ({
            let pinged = CaptureNotifierState { ping: true, ..s };
            let (after, res) = spec_poll_wait(pinged, timed_out);
            &&& !(res matches Some(WaitResult::Ready(_)))
            &&& after.ping
        }),
{
}

} // verus!
