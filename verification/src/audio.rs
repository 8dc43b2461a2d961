//! Audio plumbing shared by capture and playback: sample queues, device
//! commands and the per-speaker state shown to the user.

use std::collections::VecDeque;
use std::sync::atomic::AtomicBool;
use vstd::prelude::*;

verus! {

/// Sampling rate per channel.
pub const DEFAULT_RATE: u32 = 48000;

pub const DEFAULT_CHANNELS: u32 = 2;

/// Encoder bit rate, as recommended for Opus voice.
pub const DEFAULT_BIT_RATE: usize = 128000;

/// How many items `pop_slice` moves: nothing when a full buffer is asked for
/// and not available, otherwise as many as both sides allow.
pub open spec fn spec_pop_count(available: nat, wanted: nat, partial: bool) -> nat {
    if !partial && available < wanted {
        0
    } else if available < wanted {
        available
    } else {
        wanted
    }
}

/// Moving samples from a queue into a buffer.
pub trait VecDequeExt<T: Copy> {
    spec fn items(&self) -> Seq<T>;

    /// Fills `out` from the front of the queue; when `partial` is false and
    /// the queue holds fewer items than `out`, nothing is moved. Returns how
    /// many items were moved.
    fn pop_slice(&mut self, out: &mut [T], partial: bool) -> (n: usize)
        ensures
            n == spec_pop_count(old(self).items().len(), old(out)@.len(), partial),
            final(self).items() == old(self).items().skip(n as int),
            final(out)@.len() == old(out)@.len(),
            forall|i: int| 0 <= i < n ==> #[trigger] final(out)@[i] == old(self).items()[i],
            forall|i: int| n <= i < old(out)@.len() ==> #[trigger] final(out)@[i] == old(out)@[i],
    ;

    /// As `pop_slice`, but each moved item is combined with the item it
    /// replaces by `f(old, new)`.
    fn pop_slice_with<F: Fn(T, T) -> T>(&mut self, out: &mut [T], partial: bool, f: F) -> (n:
        usize)
        requires
            forall|a: T, b: T| f.requires((a, b)),
        ensures
            n == spec_pop_count(old(self).items().len(), old(out)@.len(), partial),
            final(self).items() == old(self).items().skip(n as int),
            final(out)@.len() == old(out)@.len(),
            forall|i: int|
                0 <= i < n ==> f.ensures((old(out)@[i], old(self).items()[i]), #[trigger] final(out)@[i]),
            forall|i: int| n <= i < old(out)@.len() ==> #[trigger] final(out)@[i] == old(out)@[i],
    ;
}

impl<T: Copy> VecDequeExt<T> for VecDeque<T> {
    open spec fn items(&self) -> Seq<T> {
        self@
    }

    fn pop_slice(&mut self, out: &mut [T], partial: bool) -> (n: usize) {
        let take_new = |_old: T, new: T| -> (r: T)
            ensures
                r == new,
            { new };
        self.pop_slice_with(out, partial, take_new)
    }

    fn pop_slice_with<F: Fn(T, T) -> T>(&mut self, out: &mut [T], partial: bool, f: F) -> (n:
        usize) {
        if !partial && self.len() < out.len() {
            return 0;
        }
        let length = if self.len() < out.len() {
            self.len()
        } else {
            out.len()
        };
        let mut idx: usize = 0;
        while idx < length
            invariant
                0 <= idx <= length,
                length <= old(self)@.len(),
                length <= old(out)@.len(),
                length == spec_pop_count(old(self)@.len(), old(out)@.len(), partial),
                forall|a: T, b: T| f.requires((a, b)),
                self@ == old(self)@.skip(idx as int),
                out@.len() == old(out)@.len(),
                forall|i: int|
                    0 <= i < idx ==> f.ensures((old(out)@[i], old(self)@[i]), #[trigger] out@[i]),
                forall|i: int| idx <= i < old(out)@.len() ==> #[trigger] out@[i] == old(out)@[i],
            decreases length - idx,
        {
            let value = match self.pop_front() {
                Some(v) => v,
                None => {
                    proof {
                        assert(false);
                    }
                    return idx;
                },
            };
            assert(self@ =~= old(self)@.skip(idx + 1));
            let combined = f(out[idx], value);
            out[idx] = combined;
            idx = idx + 1;
        }
        length
    }
}

/// State shared with the interface for one remote speaker.
pub struct AudioStreamingClientSharedState {
    pub user_id: i32,
    pub is_talking: AtomicBool,
}

impl AudioStreamingClientSharedState {
    /// The state of speaker `user_id`, not talking.
    pub fn new(user_id: i32) -> (res: Self)
        ensures
            res.user_id == user_id,
    {
        AudioStreamingClientSharedState { user_id, is_talking: AtomicBool::new(false) }
    }
}

/// Queues raw samples for playback.
pub struct AudioSamplesSender {}

/// Receives raw samples for playback.
pub struct AudioSamplesRecv {}

} // verus!
