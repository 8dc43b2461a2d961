//! A one-slot channel for preview frames: a new frame replaces the one not
//! yet taken, so the receiver always gets the latest.

use vstd::prelude::*;

verus! {

/// Shared state of a frame channel.
pub struct FrameChannelState<T> {
    frame: Option<T>,
    closed: bool,
}

/// Abstract state of a frame channel.
pub struct FrameChannelView<T> {
    pub frame: Option<T>,
    pub closed: bool,
}

/// The channel after a frame is sent.
pub open spec fn spec_send<T>(v: FrameChannelView<T>, frame: T) -> FrameChannelView<T> {
    FrameChannelView { frame: Some(frame), ..v }
}

/// The channel after the sender is gone.
pub open spec fn spec_close<T>(v: FrameChannelView<T>) -> FrameChannelView<T> {
    FrameChannelView { closed: true, ..v }
}

/// One attempt of the receiver: the channel afterwards, and what it gets.
pub open spec fn spec_poll<T>(v: FrameChannelView<T>) -> (FrameChannelView<T>, Option<Option<T>>) {
    match v.frame {
        Some(f) => (FrameChannelView { frame: None, ..v }, Some(Some(f))),
        None => if v.closed {
            (v, Some(None))
        } else {
            (v, None)
        },
    }
}

impl<T> FrameChannelState<T> {
    pub closed spec fn view(&self) -> FrameChannelView<T> {
        FrameChannelView { frame: self.frame, closed: self.closed }
    }

    /// An open channel with no frame.
    pub fn new() -> (res: Self)
        ensures
            res@.frame is None,
            !res@.closed,
    {
        FrameChannelState { frame: None, closed: false }
    }

    /// Puts a frame in the slot, replacing one not yet taken.
    pub fn send(&mut self, frame: T)
        ensures
            final(self)@ == spec_send(old(self)@, frame),
    {
        self.frame = Some(frame);
    }

    /// The sender is gone.
    pub fn close(&mut self)
        ensures
            final(self)@ == spec_close(old(self)@),
    {
        self.closed = true;
    }

    /// Whether the sender is gone.
    pub fn is_closed(&self) -> (res: bool)
        ensures
            res == self@.closed,
    {
        self.closed
    }

    /// One attempt of the receiver: `Some(Some(frame))` takes the waiting
    /// frame, `Some(None)` reports a closed channel with no frame left, and
    /// `None` means the receiver has to wait.
    pub fn poll_frame(&mut self) -> (res: Option<Option<T>>)
        ensures
            (final(self)@, res) == spec_poll(old(self)@),
    {
        match self.frame.take() {
            Some(frame) => Some(Some(frame)),
            None => {
                if self.closed {
                    Some(None)
                } else {
                    None
                }
            },
        }
    }
}

/// The receiver always gets the latest frame: of two frames sent before it
/// looks, it takes the second, and the first is gone.
pub proof fn lemma_latest_frame_wins<T>(v: FrameChannelView<T>, a: T, b: T)
    ensures
        spec_poll(spec_send(spec_send(v, a), b)).1 == Some(Some(b)),
        spec_poll(spec_send(spec_send(v, a), b)).0.frame is None,
{
}

/// A frame sent before the sender went away is still delivered; only then
/// does the receiver learn that the channel is closed.
pub proof fn lemma_frame_delivered_before_close<T>(v: FrameChannelView<T>, a: T)
    ensures
        spec_poll(spec_close(spec_send(v, a))).1 == Some(Some(a)),
        spec_poll(spec_poll(spec_close(spec_send(v, a))).0).1 == Some(None::<T>),
{
}

} // verus!
