//! Packet bookkeeping of the audio jitter buffer: which encoded packets are
//! kept, in what order they are played, when a gap is concealed and when a
//! speech chunk ends. Timing estimates and decoding stay with the caller.

use std::collections::BTreeMap;
use vstd::prelude::*;
use vstd::std_specs::btree::*;
use vstd::std_specs::iter::IteratorSpec;

verus! {

broadcast use vstd::std_specs::btree::group_btree_axioms;

/// Smallest key of a map, if any.
fn min_key<V>(m: &BTreeMap<u64, V>) -> (res: Option<u64>)
    ensures
        res is None <==> m@.dom().len() == 0,
        res matches Some(k) ==> m@.contains_key(k) && forall|j: u64|
            m@.contains_key(j) ==> k <= j,
{
    let mut res: Option<u64> = None;
    for k in it: m.keys()
        invariant
            res is None <==> it.index() == 0,
            res matches Some(r) ==> {
                &&& exists|i: int| 0 <= i < it.index() && *it.seq()[i] == r
                &&& forall|i: int| 0 <= i < it.index() ==> r <= *it.seq()[i]
            },
    {
        match res {
            None => {
                res = Some(*k);
            },
            Some(r) => {
                if *k < r {
                    res = Some(*k);
                }
            },
        }
    }
    proof {
        let keys = spec_keys_iter(m).remaining();
        assert(keys.unref().to_set() == m@.dom());
        if res is Some {
            assert forall|j: u64| m@.contains_key(j) implies res->0 <= j by {
                assert(keys.unref().to_set().contains(j));
                let i = choose|i: int| 0 <= i < keys.len() && keys.unref()[i] == j;
                assert(keys.unref()[i] == *keys[i]);
            }
            let i = choose|i: int| 0 <= i < keys.len() && *keys[i] == res->0;
            assert(keys.unref()[i] == *keys[i]);
            assert(keys.unref().contains(res->0));
        } else {
            assert(keys.len() == 0);
            assert(keys.unref() =~= Seq::<u64>::empty());
            assert(m@.dom() =~= Set::empty());
        }
    }
    res
}


/// How many packets the buffer holds at most; the oldest one gives way.
pub const MAX_BUFFER_SIZE: usize = 20;

/// How many gaps in a row are concealed before the speech chunk is given up.
pub const MAX_MISSES: u32 = 4;

/// The sequence number that follows `s`, wrapping around.
pub open spec fn next_seq(s: u64) -> u64 {
    if s == u64::MAX {
        0
    } else {
        (s + 1) as u64
    }
}

/// The smallest sequence number held in `m`.
pub open spec fn spec_min_key<P>(m: Map<u64, P>) -> u64 {
    choose|k: u64| m.contains_key(k) && forall|j: u64| m.contains_key(j) ==> k <= j
}

/// What happened to a pushed packet.
#[derive(Debug, Clone, Copy, PartialEq, Eq, Structural)]
pub enum PushOutcome {
    /// It belongs to a speech chunk that has already been closed; dropped.
    Stale,
    /// It marks the end of a speech chunk; remembered, not stored.
    ChunkEnd,
    /// Its turn to be played has passed; dropped, though it still counts for
    /// the timing estimate.
    Late,
    /// It is buffered for playout.
    Stored,
}

impl PushOutcome {
    /// Whether the packet's arrival feeds the jitter estimate.
    pub open spec fn spec_updates_timing(self) -> bool {
        self is Late || self is Stored
    }

    /// Whether the packet's arrival feeds the jitter estimate.
    pub fn updates_timing(&self) -> (res: bool)
        ensures
            res == self.spec_updates_timing(),
    {
        match self {
            PushOutcome::Late => true,
            PushOutcome::Stored => true,
            _ => false,
        }
    }
}

/// What the decoder is to do next.
#[derive(Debug)]
pub enum DecodeAction<P> {
    /// Nothing to play yet: the buffer is empty or still filling up.
    Waiting,
    /// The speech chunk ended; the decoder is to be reset.
    ChunkClosed,
    /// Decode this packet, the one whose turn it is.
    Play(P),
    /// The packet whose turn it was is missing; recover it from the forward
    /// error correction data in this packet, which follows it.
    Recover(P),
    /// The packet whose turn it was is missing; conceal the gap.
    Conceal,
    /// Too many packets went missing in a row; the speech chunk is closed
    /// and the decoder is to be reset.
    GaveUp,
}

impl<P> DecodeAction<P> {
    /// Whether the action produces samples.
    pub open spec fn spec_produces_audio(&self) -> bool {
        self is Play || self is Recover || self is Conceal
    }

    /// Whether the action produces samples.
    pub fn produces_audio(&self) -> (res: bool)
        ensures
            res == self.spec_produces_audio(),
    {
        match self {
            DecodeAction::Play(_) => true,
            DecodeAction::Recover(_) => true,
            DecodeAction::Conceal => true,
            _ => false,
        }
    }
}

/// Abstract state of the jitter buffer.
pub struct JitterView<P> {
    pub packets: Map<u64, P>,
    pub next_playout_seq: Option<u64>,
    pub ending_chunk: Option<u64>,
    pub misses: u32,
}

/// Outcome of pushing a packet with sequence number `seq`.
pub open spec fn spec_push<P>(v: JitterView<P>, seq: u64, marker: bool, packet: P) -> (
    JitterView<P>,
    PushOutcome,
) {
    if v.ending_chunk matches Some(end) && v.next_playout_seq is None && seq < end {
        (v, PushOutcome::Stale)
    } else if marker {
        (JitterView { ending_chunk: Some(seq), ..v }, PushOutcome::ChunkEnd)
    } else if v.next_playout_seq matches Some(next) && seq < next {
        (v, PushOutcome::Late)
    } else {
        let kept = if v.packets.len() >= MAX_BUFFER_SIZE {
            v.packets.remove(spec_min_key(v.packets))
        } else {
            v.packets
        };
        (JitterView { packets: kept.insert(seq, packet), ..v }, PushOutcome::Stored)
    }
}

/// The state after a speech chunk is closed.
pub open spec fn spec_close<P>(v: JitterView<P>) -> JitterView<P> {
    JitterView { next_playout_seq: None, misses: 0, ..v }
}

/// Next step of playout once the sequence number to play is known.
pub open spec fn spec_play_step<P>(v: JitterView<P>, seq: u64) -> (JitterView<P>, DecodeAction<P>) {
    if v.ending_chunk == Some(seq) {
        (spec_close(v), DecodeAction::ChunkClosed)
    } else if v.packets.contains_key(seq) {
        (
            JitterView {
                packets: v.packets.remove(seq),
                next_playout_seq: Some(next_seq(seq)),
                misses: 0,
                ..v
            },
            DecodeAction::Play(v.packets[seq]),
        )
    } else if v.packets.contains_key(next_seq(seq)) {
        (
            JitterView {
                packets: v.packets.remove(next_seq(seq)),
                next_playout_seq: Some(next_seq(seq)),
                ..v
            },
            DecodeAction::Recover(v.packets[next_seq(seq)]),
        )
    } else if v.misses + 1 > MAX_MISSES {
        (spec_close(v), DecodeAction::GaveUp)
    } else {
        (
            JitterView {
                next_playout_seq: Some(next_seq(seq)),
                misses: (v.misses + 1) as u32,
                ..v
            },
            DecodeAction::Conceal,
        )
    }
}

/// Next step of playout. `ready` tells whether the oldest buffered packet
/// has waited long enough to start a speech chunk; it matters only between
/// chunks.
pub open spec fn spec_next_action<P>(v: JitterView<P>, ready: bool) -> (JitterView<P>, DecodeAction<P>) {
    match v.next_playout_seq {
        Some(seq) => spec_play_step(v, seq),
        None => if v.packets.len() == 0 || !ready {
            (v, DecodeAction::Waiting)
        } else {
            spec_play_step(
                JitterView { next_playout_seq: Some(spec_min_key(v.packets)), ..v },
                spec_min_key(v.packets),
            )
        },
    }
}

/// Packet bookkeeping of one speaker's jitter buffer.
pub struct JitterBuffer<P> {
    packets_buffer: BTreeMap<u64, P>,
    /// Sequence number of the next packet to play.
    next_playout_seq: Option<u64>,
    /// Sequence number of the marker that ends the current speech chunk.
    ending_chunk: Option<u64>,
    /// How many gaps in a row were concealed.
    misses: u32,
}

impl<P> JitterBuffer<P> {
    pub closed spec fn view(&self) -> JitterView<P> {
        JitterView {
            packets: self.packets_buffer@,
            next_playout_seq: self.next_playout_seq,
            ending_chunk: self.ending_chunk,
            misses: self.misses,
        }
    }

    /// The buffer holds at most `MAX_BUFFER_SIZE` packets and has concealed
    /// at most `MAX_MISSES` gaps in a row.
    pub open spec fn wf(&self) -> bool {
        &&& self@.packets.len() <= MAX_BUFFER_SIZE
        &&& self@.packets.dom().finite()
        &&& self@.misses <= MAX_MISSES
    }

    /// An empty buffer between speech chunks.
    pub fn new() -> (res: Self)
        ensures
            res.wf(),
            res@.packets == Map::<u64, P>::empty(),
            res@.next_playout_seq is None,
            res@.ending_chunk is None,
            res@.misses == 0,
    {
        JitterBuffer {
            packets_buffer: BTreeMap::new(),
            next_playout_seq: None,
            ending_chunk: None,
            misses: 0,
        }
    }

    /// Number of buffered packets.
    pub fn len(&self) -> (n: usize)
        ensures
            n == self@.packets.len(),
    {
        self.packets_buffer.len()
    }

    /// Sequence number of the next packet to play, if a speech chunk is playing.
    pub fn next_playout_seq(&self) -> (res: Option<u64>)
        ensures
            res == self@.next_playout_seq,
    {
        self.next_playout_seq
    }

    /// The oldest buffered packet, with its sequence number.
    pub fn earliest(&self) -> (res: Option<(u64, &P)>)
        ensures
            match res {
                None => self@.packets.len() == 0,
                Some((k, p)) => self@.packets.len() > 0 && k == spec_min_key(self@.packets)
                    && *p == self@.packets[k],
            },
    {
        match min_key(&self.packets_buffer) {
            None => None,
            Some(k) => {
                let p = self.packets_buffer.get(&k);
                match p {
                    Some(p) => Some((k, p)),
                    None => None,
                }
            },
        }
    }

    /// Takes in a packet with sequence number `seq`; `marker` tells whether it
    /// marks the end of a speech chunk.
    pub fn push_packet(&mut self, seq: u64, marker: bool, packet: P) -> (outcome: PushOutcome)
        requires
            old(self).wf(),
        ensures
            final(self).wf(),
            (final(self)@, outcome) == spec_push(old(self)@, seq, marker, packet),
    {
        if let Some(end) = self.ending_chunk {
            if self.next_playout_seq.is_none() && seq < end {
                return PushOutcome::Stale;
            }
        }
        if marker {
            self.ending_chunk = Some(seq);
            return PushOutcome::ChunkEnd;
        }
        if let Some(next) = self.next_playout_seq {
            if seq < next {
                return PushOutcome::Late;
            }
        }
        if self.packets_buffer.len() >= MAX_BUFFER_SIZE {
            if let Some(oldest) = min_key(&self.packets_buffer) {
                self.packets_buffer.remove(&oldest);
            }
        }
        self.packets_buffer.insert(seq, packet);
        PushOutcome::Stored
    }

    fn close_speech_chunk(&mut self)
        ensures
            final(self)@ == spec_close(old(self)@),
    {
        self.misses = 0;
        self.next_playout_seq = None;
    }

    fn play_step(&mut self, seq: u64) -> (action: DecodeAction<P>)
        requires
            old(self).wf(),
            old(self)@.next_playout_seq == Some(seq),
        ensures
            final(self).wf(),
            (final(self)@, action) == spec_play_step(old(self)@, seq),
    {
        if let Some(end) = self.ending_chunk {
            if end == seq {
                self.close_speech_chunk();
                return DecodeAction::ChunkClosed;
            }
        }
        if let Some(packet) = self.packets_buffer.remove(&seq) {
            self.misses = 0;
            self.next_playout_seq = Some(seq.wrapping_add(1));
            assert(self.next_playout_seq == Some(next_seq(seq)));
            return DecodeAction::Play(packet);
        }
        assert(self.packets_buffer@ =~= old(self)@.packets);
        let ghost cur = seq;
        let seq = seq.wrapping_add(1);
        assert(seq == next_seq(cur));
        self.next_playout_seq = Some(seq);
        if let Some(packet) = self.packets_buffer.remove(&seq) {
            return DecodeAction::Recover(packet);
        }
        assert(self.packets_buffer@ =~= old(self)@.packets);
        if self.misses + 1 > MAX_MISSES {
            self.close_speech_chunk();
            return DecodeAction::GaveUp;
        }
        self.misses = self.misses + 1;
        DecodeAction::Conceal
    }

    /// Decides the next step of playout. `ready` tells whether the oldest
    /// buffered packet has waited for the target delay; it is consulted only
    /// when no speech chunk is playing.
    pub fn next_action(&mut self, ready: bool) -> (action: DecodeAction<P>)
        requires
            old(self).wf(),
        ensures
            final(self).wf(),
            (final(self)@, action) == spec_next_action(old(self)@, ready),
    {
        let seq = match self.next_playout_seq {
            Some(seq) => seq,
            None => {
                let first = min_key(&self.packets_buffer);
                match first {
                    None => {
                        return DecodeAction::Waiting;
                    },
                    Some(k) => {
                        if !ready {
                            return DecodeAction::Waiting;
                        }
                        self.next_playout_seq = Some(k);
                        k
                    },
                }
            },
        };
        self.play_step(seq)
    }
}

/// A packet that is not stored leaves the buffered packets as they were:
/// stale, late and marker packets are never played.
pub proof fn lemma_unstored_push_keeps_packets<P>(v: JitterView<P>, seq: u64, marker: bool, packet: P)
    ensures
        spec_push(v, seq, marker, packet).1 != PushOutcome::Stored ==> spec_push(
            v,
            seq,
            marker,
            packet,
        ).0.packets == v.packets,
        spec_push(v, seq, marker, packet).1 == PushOutcome::Stored ==> spec_push(
            v,
            seq,
            marker,
            packet,
        ).0.packets.contains_key(seq) && spec_push(v, seq, marker, packet).0.packets[seq]
            == packet,
{
}

/// A packet whose turn has come is played, and playout moves on to the next
/// sequence number.
pub proof fn lemma_due_packet_is_played<P>(v: JitterView<P>, ready: bool, s: u64)
    requires
        v.next_playout_seq == Some(s),
        v.ending_chunk != Some(s),
        v.packets.contains_key(s),
    ensures
        spec_next_action(v, ready).1 == DecodeAction::Play(v.packets[s]),
        spec_next_action(v, ready).0.next_playout_seq == Some(next_seq(s)),
        !spec_next_action(v, ready).0.packets.contains_key(s),
{
}

/// Playout never goes backwards: every step that produces audio advances the
/// sequence number to play by exactly one.
pub proof fn lemma_playout_advances_by_one<P>(v: JitterView<P>, ready: bool, s: u64)
    requires
        v.next_playout_seq == Some(s),
        spec_next_action(v, ready).1.spec_produces_audio(),
    ensures
        spec_next_action(v, ready).0.next_playout_seq == Some(next_seq(s)),
{
}

/// Once the end-of-chunk marker's sequence number comes up, the chunk is
/// closed and playout waits for the next chunk.
pub proof fn lemma_marker_closes_chunk<P>(v: JitterView<P>, ready: bool, s: u64)
    requires
        v.next_playout_seq == Some(s),
        v.ending_chunk == Some(s),
    ensures
        spec_next_action(v, ready).1 is ChunkClosed,
        spec_next_action(v, ready).0.next_playout_seq is None,
        spec_next_action(v, ready).0.misses == 0,
{
}

impl<P> View for JitterBuffer<P> {
    type V = JitterView<P>;

    open spec fn view(&self) -> JitterView<P> {
        self.view()
    }
}

/// Only gaps in a row count towards giving up: playing a packet resets the
/// count of concealed gaps to zero, each concealment adds one, and the speech
/// chunk is given up only when `MAX_MISSES` gaps have been concealed in a row
/// and the next packet is missing too.
pub proof fn lemma_misses_count_gaps_in_a_row<P>(v: JitterView<P>, ready: bool)
    requires
        v.misses <= MAX_MISSES,
    ensures
        ({
            let (w, action) = spec_next_action(v, ready);
            &&& action is Play ==> w.misses == 0
            &&& action is Conceal ==> w.misses == v.misses + 1
            &&& action is Recover ==> w.misses == v.misses
            &&& action is GaveUp ==> v.misses == MAX_MISSES && w.misses == 0
        }),
{
}

} // verus!
