//! Decisions of the packet sender: when captured audio is encoded and sent,
//! when a speech section is closed with a marker packet, which sequence
//! numbers the packets carry, and when a keep-alive is due. Capturing,
//! denoising, encoding and the socket stay with the caller.

use vstd::prelude::*;

verus! {

/// How long, in nanoseconds, the microphone stays open after the last
/// voice activity, so that speech is not cut off too sharply.
pub const SILENCE_HANG_NANOS: u128 = 400_000_000;

/// After how many nanoseconds without any packet a keep-alive is sent, to
/// keep the NAT mapping open.
pub const PING_INTERVAL_NANOS: u128 = 10_000_000_000;

/// Whether the user has been silent long enough to stop transmitting,
/// given the nanoseconds since the last voice activity.
pub fn is_silence(since_voice_nanos: u128) -> (res: bool)
    ensures
        res == (since_voice_nanos > SILENCE_HANG_NANOS),
{
    since_voice_nanos > SILENCE_HANG_NANOS
}

/// Whether a keep-alive is due, given the nanoseconds since the last packet
/// of any kind was sent.
pub fn needs_ping(since_send_nanos: u128) -> (res: bool)
    ensures
        res == (since_send_nanos > PING_INTERVAL_NANOS),
{
    since_send_nanos > PING_INTERVAL_NANOS
}

/// What to do with a batch of captured samples.
#[derive(Debug, Clone, Copy, PartialEq, Eq, Structural)]
pub enum AudioStep {
    /// Encode the samples; the encoder's packets are sent.
    Encode,
    /// The speech section is over: reset the encoder and send a marker.
    EndSpeech,
    /// Silence outside a speech section: drop the samples.
    Idle,
}

/// Audio side of the packet sender.
#[derive(Debug, Clone, Copy, PartialEq, Eq, Structural)]
pub struct AudioStreamingState {
    /// Sequence number of the next audio packet.
    pub seq: u64,
    /// Whether a speech section is being sent.
    pub transmitting: bool,
}

/// The state and step after a batch of samples; `silent` tells whether the
/// silence has lasted long enough (see `is_silence`).
pub open spec fn spec_on_samples(s: AudioStreamingState, silent: bool) -> (AudioStreamingState, AudioStep) {
    if !silent {
        (AudioStreamingState { transmitting: true, ..s }, AudioStep::Encode)
    } else if s.transmitting {
        (AudioStreamingState { transmitting: false, ..s }, AudioStep::EndSpeech)
    } else {
        (s, AudioStep::Idle)
    }
}

/// The state after the sender wakes up, and whether the speech section must
/// be closed: when it was transmitting and either the wait timed out with
/// no audio or the microphone was switched off.
pub open spec fn spec_on_wake(s: AudioStreamingState, timed_out: bool, capture_enabled: bool) -> (
    AudioStreamingState,
    bool,
) {
    if s.transmitting && (timed_out || !capture_enabled) {
        (AudioStreamingState { transmitting: false, ..s }, true)
    } else {
        (s, false)
    }
}

impl AudioStreamingState {
    /// Nothing sent yet.
    pub fn new() -> (res: Self)
        ensures
            res == (AudioStreamingState { seq: 0, transmitting: false }),
    {
        AudioStreamingState { seq: 0, transmitting: false }
    }

    /// Decides what to do with a batch of samples that the denoiser let
    /// through.
    pub fn on_samples(&mut self, silent: bool) -> (step: AudioStep)
        ensures
            (*final(self), step) == spec_on_samples(*old(self), silent),
    {
        if !silent {
            self.transmitting = true;
            AudioStep::Encode
        } else if self.transmitting {
            self.transmitting = false;
            AudioStep::EndSpeech
        } else {
            AudioStep::Idle
        }
    }

    /// Decides, after a wait, whether the speech section must be closed
    /// (reset the encoder and send a marker).
    pub fn on_wake(&mut self, timed_out: bool, capture_enabled: bool) -> (end_speech: bool)
        ensures
            (*final(self), end_speech) == spec_on_wake(*old(self), timed_out, capture_enabled),
    {
        if self.transmitting && (timed_out || !capture_enabled) {
            self.transmitting = false;
            true
        } else {
            false
        }
    }

    /// Whether a packet that the encoder produced is to be sent.
    pub fn sends_encoded(&self) -> (res: bool)
        ensures
            res == self.transmitting,
    {
        self.transmitting
    }

    /// The sequence number for the packet being sent; the next one follows.
    pub fn take_seq(&mut self) -> (seq: u64)
        requires
            old(self).seq < u64::MAX,
        ensures
            seq == old(self).seq,
            *final(self) == (AudioStreamingState { seq: (old(self).seq + 1) as u64, ..*old(self) }),
    {
        let seq = self.seq;
        self.seq = self.seq + 1;
        seq
    }
}

/// Video side of the packet sender: the sequence number of the next frame
/// and the screencast whose frames are sent.
pub struct ScreenStreamingData<C> {
    pub seq: u64,
    pub screencast: C,
}

impl<C> ScreenStreamingData<C> {
    /// No frame sent yet.
    pub fn new(screencast: C) -> (res: Self)
        ensures
            res.seq == 0,
            res.screencast == screencast,
    {
        ScreenStreamingData { seq: 0, screencast }
    }

    /// The sequence number for the frame being sent; the next one follows.
    pub fn take_seq(&mut self) -> (seq: u64)
        requires
            old(self).seq < u64::MAX,
        ensures
            seq == old(self).seq,
            final(self).seq == old(self).seq + 1,
            final(self).screencast == old(self).screencast,
    {
        let seq = self.seq;
        self.seq = self.seq + 1;
        seq
    }
}

/// Each speech section is closed by exactly one marker: once a section has
/// ended, further silence neither sends another marker nor a packet.
pub proof fn lemma_one_marker_per_section(s: AudioStreamingState, timed_out: bool, enabled: bool)
    ensures
        ({
            let (after, step) = spec_on_samples(s, true);
            &&& !after.transmitting
            &&& spec_on_samples(after, true).1 == AudioStep::Idle
            &&& !spec_on_wake(after, timed_out, enabled).1
            &&& (step == AudioStep::EndSpeech) == s.transmitting
        }),
{
}

/// Speech is sent exactly while a section is open: after voice activity the
/// encoder's packets are sent, and after the section is closed, by silence
/// or on waking, they are not.
pub proof fn lemma_transmits_while_speaking(s: AudioStreamingState, timed_out: bool, enabled: bool)
    ensures
        spec_on_samples(s, false).0.transmitting,
        spec_on_wake(s, timed_out, enabled).1 ==> !spec_on_wake(s, timed_out, enabled).0.transmitting,
        spec_on_wake(s, timed_out, enabled).1 ==> s.transmitting,
        spec_on_samples(s, true).0.seq == s.seq && spec_on_wake(s, timed_out, enabled).0.seq == s.seq,
{
}

} // verus!
