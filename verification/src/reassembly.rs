//! Reassembly of video frames from the chunks they are sent in. A frame is
//! cut into `data_shards` chunks of payload and `recovery_shards` chunks of
//! Reed-Solomon recovery data; any `data_shards` of them rebuild it.

use crate::models::markers::UserId;
use std::collections::BTreeMap;
use vstd::prelude::*;

verus! {

broadcast use vstd::std_specs::btree::group_btree_axioms;

#[verifier::external_type_specification]
#[verifier::external_body]
pub struct ExReedSolomonError(reed_solomon_simd::Error);

/// The original shards that Reed-Solomon decoding restores from the given
/// original and recovery shards (each with its index), keyed by index;
/// `None` when decoding fails.
pub uninterp spec fn rs_restore(
    original_count: nat,
    recovery_count: nat,
    original: Seq<(usize, Seq<u8>)>,
    recovery: Seq<(usize, Seq<u8>)>,
) -> Option<Map<usize, Seq<u8>>>;

/// The indexed shards as plain values.
pub open spec fn shards_view(v: Seq<(usize, Vec<u8>)>) -> Seq<(usize, Seq<u8>)> {
    v.map_values(|p: (usize, Vec<u8>)| (p.0, p.1@))
}

/// `reed_solomon_simd::decode`: restores the missing original shards from
/// the given original and recovery shards, returning them by index.
#[verifier::external_body]
fn reed_solomon_decode(
    original_count: usize,
    recovery_count: usize,
    original: &Vec<(usize, Vec<u8>)>,
    recovery: &Vec<(usize, Vec<u8>)>,
) -> (res: Result<BTreeMap<usize, Vec<u8>>, reed_solomon_simd::Error>)
    ensures
        match res {
            Ok(m) => rs_restore(
                original_count as nat,
                recovery_count as nat,
                shards_view(original@),
                shards_view(recovery@),
            ) == Some(m@.map_values(|v: Vec<u8>| v@)),
            Err(_) => rs_restore(
                original_count as nat,
                recovery_count as nat,
                shards_view(original@),
                shards_view(recovery@),
            ) is None,
        },
{
    reed_solomon_simd::decode(
        original_count,
        recovery_count,
        original.iter().map(|p| (p.0, &p.1)),
        recovery.iter().map(|p| (p.0, &p.1)),
    )
}

/// Why a frame with enough chunks could not be assembled.
#[derive(Debug, Clone, Copy, PartialEq, Eq, Structural)]
pub enum ProcessError {
    /// Reed-Solomon decoding rejected the shards.
    Recovery,
    /// Decoding succeeded but did not restore a missing payload chunk.
    MissingShard,
}

/// Header carried by every chunk of a frame.
#[derive(Debug, Clone, Copy, PartialEq, Eq, Structural)]
pub struct StreamPacketHeader {
    /// Sequence number of the frame.
    pub seq: u64,
    /// Index of this chunk: payload chunks first, then recovery chunks.
    pub shard: u16,
    /// Number of payload chunks.
    pub data_shards: u16,
    /// Number of recovery chunks.
    pub recovery_shards: u16,
    /// Size of every chunk.
    pub shard_size: u32,
    /// Size of the frame; the last payload chunk is padded up to a full chunk.
    pub data_size: u32,
}

impl StreamPacketHeader {
    pub open spec fn spec_total_chunks(self) -> nat {
        (self.data_shards + self.recovery_shards) as nat
    }

    pub open spec fn spec_is_fec(self) -> bool {
        self.shard >= self.data_shards
    }

    /// Number of chunks of the frame, payload and recovery together.
    pub fn total_chunks(&self) -> (n: usize)
        ensures
            n == self.spec_total_chunks(),
    {
        self.data_shards as usize + self.recovery_shards as usize
    }

    /// Whether this chunk carries recovery data rather than payload.
    pub fn is_fec(&self) -> (res: bool)
        ensures
            res == self.spec_is_fec(),
    {
        self.shard >= self.data_shards
    }
}

/// One received chunk with its header.
#[derive(Debug, Clone)]
pub struct OwnedEncodedVideoFrameChunk {
    pub header: StreamPacketHeader,
    pub data: Vec<u8>,
}

/// A slot for one chunk of a frame under construction.
#[derive(Debug)]
pub struct Chunk {
    pub processed: bool,
    pub data: Vec<u8>,
}

/// Abstract content of a chunk slot.
#[verifier::ext_equal]
pub struct ChunkView {
    pub processed: bool,
    pub data: Seq<u8>,
}

impl Chunk {
    pub open spec fn view(&self) -> ChunkView {
        ChunkView { processed: self.processed, data: self.data@ }
    }

    /// An empty, unfilled slot.
    pub fn new() -> (c: Chunk)
        ensures
            !c.processed,
            c.data@ == Seq::<u8>::empty(),
    {
        Chunk { processed: false, data: Vec::new() }
    }

    /// Empties the slot.
    pub fn reset(&mut self)
        ensures
            !final(self).processed,
            final(self).data@ == Seq::<u8>::empty(),
    {
        self.processed = false;
        self.data.clear();
    }

    /// Fills the slot with `data`.
    pub fn set(&mut self, data: &[u8])
        ensures
            final(self).processed,
            final(self).data@ == data@,
    {
        self.processed = true;
        self.data.clear();
        self.data.extend_from_slice(data);
        assert(self.data@ =~= data@);
    }
}


/// Number of filled slots.
pub open spec fn count_processed(chunks: Seq<ChunkView>) -> nat
    decreases chunks.len(),
{
    if chunks.len() == 0 {
        0
    } else {
        count_processed(chunks.drop_last()) + if chunks.last().processed {
            1nat
        } else {
            0nat
        }
    }
}

proof fn lemma_count_processed_bound(chunks: Seq<ChunkView>)
    ensures
        count_processed(chunks) <= chunks.len(),
    decreases chunks.len(),
{
    if chunks.len() > 0 {
        lemma_count_processed_bound(chunks.drop_last());
    }
}

proof fn lemma_count_processed_push(chunks: Seq<ChunkView>, c: ChunkView)
    ensures
        count_processed(chunks.push(c)) == count_processed(chunks) + if c.processed {
            1nat
        } else {
            0nat
        },
{
    assert(chunks.push(c).drop_last() =~= chunks);
}

proof fn lemma_count_processed_update(chunks: Seq<ChunkView>, i: int, c: ChunkView)
    requires
        0 <= i < chunks.len(),
        !chunks[i].processed,
        c.processed,
    ensures
        count_processed(chunks.update(i, c)) == count_processed(chunks) + 1,
    decreases chunks.len(),
{
    if i == chunks.len() - 1 {
        assert(chunks.update(i, c).drop_last() =~= chunks.drop_last());
    } else {
        lemma_count_processed_update(chunks.drop_last(), i, c);
        assert(chunks.update(i, c).drop_last() =~= chunks.drop_last().update(i, c));
    }
}

/// `chunks` grown with empty slots to at least `total` slots.
pub open spec fn grow_chunks(chunks: Seq<ChunkView>, total: nat) -> Seq<ChunkView> {
    if chunks.len() < total {
        chunks + Seq::new(
            (total - chunks.len()) as nat,
            |i: int| ChunkView { processed: false, data: Seq::empty() },
        )
    } else {
        chunks
    }
}

/// Abstract state of a frame under construction.
#[verifier::ext_equal]
pub struct PendingFrameView {
    pub header: StreamPacketHeader,
    pub data_shards: nat,
    pub recovery_shards: nat,
    pub in_construction: bool,
    pub chunks: Seq<ChunkView>,
    pub data: Seq<u8>,
}

/// The frame after `merge_chunk` stores a chunk with this header and data.
pub open spec fn spec_merge_chunk(v: PendingFrameView, header: StreamPacketHeader, data: Seq<u8>) -> PendingFrameView {
    PendingFrameView {
        header,
        data_shards: v.data_shards + if header.spec_is_fec() {
            0nat
        } else {
            1nat
        },
        recovery_shards: v.recovery_shards + if header.spec_is_fec() {
            1nat
        } else {
            0nat
        },
        in_construction: true,
        chunks: grow_chunks(v.chunks, header.spec_total_chunks()).update(
            header.shard as int,
            ChunkView { processed: true, data },
        ),
        data: v.data,
    }
}

/// Whether `merge_chunk` may store a chunk with this header: its slot exists
/// once the frame has grown to the announced size, and is still empty.
pub open spec fn spec_can_merge(v: PendingFrameView, header: StreamPacketHeader) -> bool {
    &&& (header.shard as nat) < grow_chunks(v.chunks, header.spec_total_chunks()).len()
    &&& header.shard < v.chunks.len() ==> !v.chunks[header.shard as int].processed
}

/// The frame after `reset`: released, with all slots emptied.
pub open spec fn spec_reset_frame(v: PendingFrameView) -> PendingFrameView {
    PendingFrameView {
        data_shards: 0,
        recovery_shards: 0,
        in_construction: false,
        chunks: Seq::new(
            v.chunks.len(),
            |i: int| ChunkView { processed: false, data: Seq::empty() },
        ),
        ..v
    }
}

/// A frame whose chunks are being collected. Frames are reused: a frame is
/// in construction from its first chunk until it is complete.
pub struct PendingFrame {
    pub header: StreamPacketHeader,
    data_shards: usize,
    recovery_shards: usize,
    in_construction: bool,
    chunks: Vec<Chunk>,
    data: Vec<u8>,
}

/// The indexed payload and recovery shards among the first `n` slots:
/// filled slots below `data_shards` are payload, the others recovery.
pub open spec fn spec_shard_lists(chunks: Seq<ChunkView>, n: nat, data_shards: nat) -> (
    Seq<(usize, Seq<u8>)>,
    Seq<(usize, Seq<u8>)>,
)
    decreases n,
{
    if n == 0 {
        (Seq::empty(), Seq::empty())
    } else {
        let (o, r) = spec_shard_lists(chunks, (n - 1) as nat, data_shards);
        let c = chunks[n - 1];
        if !c.processed {
            (o, r)
        } else if n - 1 >= data_shards {
            (o, r.push((((n - 1) as int) as usize, c.data)))
        } else {
            (o.push((((n - 1) as int) as usize, c.data)), r)
        }
    }
}

/// The first `n` slots' bytes, in order.
pub open spec fn spec_concat(chunks: Seq<ChunkView>, n: nat) -> Seq<u8>
    decreases n,
{
    if n == 0 {
        Seq::empty()
    } else {
        spec_concat(chunks, (n - 1) as nat) + chunks[n - 1].data
    }
}

/// The first `n` payload chunks, with missing ones taken from `restored`.
pub open spec fn spec_assemble(chunks: Seq<ChunkView>, n: nat, restored: Map<usize, Seq<u8>>) -> Seq<u8>
    decreases n,
{
    if n == 0 {
        Seq::empty()
    } else {
        spec_assemble(chunks, (n - 1) as nat, restored) + if chunks[n - 1].processed {
            chunks[n - 1].data
        } else {
            restored[((n - 1) as int) as usize]
        }
    }
}

/// Every missing one of the first `n` payload chunks was restored.
pub open spec fn spec_all_restored(chunks: Seq<ChunkView>, n: nat, restored: Map<usize, Seq<u8>>) -> bool {
    forall|i: int|
        0 <= i < n && !(#[trigger] chunks[i]).processed ==> restored.contains_key(i as usize)
}

/// `s` cut to at most `n` bytes.
pub open spec fn truncated(s: Seq<u8>, n: nat) -> Seq<u8> {
    if s.len() > n {
        s.take(n as int)
    } else {
        s
    }
}

/// Outcome of trying to assemble the frame: whether it is complete, and the
/// frame's bytes afterwards.
pub open spec fn spec_process(v: PendingFrameView) -> (Result<bool, ProcessError>, Seq<u8>) {
    let hdr = v.header;
    let ds = hdr.data_shards as nat;
    if v.data_shards + v.recovery_shards < ds {
        (Ok(false), v.data)
    } else if v.data_shards >= ds {
        (Ok(true), truncated(spec_concat(v.chunks, ds), hdr.data_size as nat))
    } else {
        let (o, r) = spec_shard_lists(v.chunks, hdr.spec_total_chunks(), ds);
        match rs_restore(ds, hdr.recovery_shards as nat, o, r) {
            None => (Err(ProcessError::Recovery), Seq::empty()),
            Some(m) => if spec_all_restored(v.chunks, ds, m) {
                (Ok(true), truncated(spec_assemble(v.chunks, ds, m), hdr.data_size as nat))
            } else {
                (Err(ProcessError::MissingShard), Seq::empty())
            },
        }
    }
}

/// A frame that has never been used.
pub open spec fn spec_fresh_frame() -> PendingFrameView {
    PendingFrameView {
        header: StreamPacketHeader {
            seq: 0,
            shard: 0,
            data_shards: 0,
            recovery_shards: 0,
            shard_size: 0,
            data_size: 0,
        },
        data_shards: 0,
        recovery_shards: 0,
        in_construction: false,
        chunks: Seq::empty(),
        data: Seq::empty(),
    }
}

impl PendingFrame {
    pub closed spec fn view(&self) -> PendingFrameView {
        PendingFrameView {
            header: self.header,
            data_shards: self.data_shards as nat,
            recovery_shards: self.recovery_shards as nat,
            in_construction: self.in_construction,
            chunks: self.chunks@.map_values(|c: Chunk| c.view()),
            data: self.data@,
        }
    }

    /// The counters agree with the filled slots.
    pub open spec fn wf(&self) -> bool {
        self@.data_shards + self@.recovery_shards == count_processed(self@.chunks)
    }

    /// An empty frame with no slots.
    pub fn new() -> (f: PendingFrame)
        ensures
            f.wf(),
            f@ == spec_fresh_frame(),
    {
        let f = PendingFrame {
            header: StreamPacketHeader {
                seq: 0,
                shard: 0,
                data_shards: 0,
                recovery_shards: 0,
                shard_size: 0,
                data_size: 0,
            },
            data_shards: 0,
            recovery_shards: 0,
            in_construction: false,
            chunks: Vec::new(),
            data: Vec::new(),
        };
        assert(f@ =~= spec_fresh_frame());
        f
    }

    /// Whether the frame is collecting chunks.
    pub fn in_construction(&self) -> (res: bool)
        ensures
            res == self@.in_construction,
    {
        self.in_construction
    }

    /// The assembled frame, once `process` has succeeded.
    pub fn data(&self) -> (d: &Vec<u8>)
        ensures
            d@ == self@.data,
    {
        &self.data
    }

    /// Releases the frame for reuse: all slots are emptied.
    pub fn reset(&mut self)
        requires
            old(self).wf(),
        ensures
            final(self).wf(),
            final(self)@ == spec_reset_frame(old(self)@),
    {
        self.in_construction = false;
        self.data_shards = 0;
        self.recovery_shards = 0;
        let n = self.chunks.len();
        let mut i: usize = 0;
        while i < n
            invariant
                n == self.chunks@.len(),
                0 <= i <= n,
                self.data_shards == 0,
                self.recovery_shards == 0,
                !self.in_construction,
                self.header == old(self).header,
                self.data@ == old(self).data@,
                forall|j: int|
                    0 <= j < i ==> !#[trigger] self.chunks@[j].processed
                        && self.chunks@[j].data@ == Seq::<u8>::empty(),
            decreases n - i,
        {
            self.chunks[i].reset();
            i = i + 1;
        }
        proof {
            let v = self@.chunks;
            assert forall|k: int| 0 <= k <= v.len() implies count_processed(v.take(k)) == 0 by {
                lemma_count_zero_prefix(v, k);
            }
            assert(v.take(v.len() as int) =~= v);
            assert(self@ =~= spec_reset_frame(old(self)@));
        }
    }

    /// Assembles the frame once enough chunks are in: `Ok(false)` while
    /// chunks are missing, `Ok(true)` when the frame's bytes are ready. When
    /// payload chunks are missing they are restored from the recovery chunks.
    pub fn process(&mut self) -> (res: Result<bool, ProcessError>)
        requires
            old(self).wf(),
            old(self)@.chunks.len() >= old(self)@.header.spec_total_chunks(),
        ensures
            final(self).wf(),
            (res, final(self)@.data) == spec_process(old(self)@),
            final(self)@.chunks == old(self)@.chunks,
            final(self)@.header == old(self)@.header,
            final(self)@.in_construction == old(self)@.in_construction,
            final(self)@.data_shards == old(self)@.data_shards,
            final(self)@.recovery_shards == old(self)@.recovery_shards,
    {
        let n_slots = self.chunks.len();
        proof {
            lemma_count_processed_bound(self@.chunks);
            assert(self@.chunks.len() == n_slots);
        }
        let ds = self.header.data_shards as usize;
        let total_processed = self.data_shards + self.recovery_shards;
        if total_processed < ds {
            return Ok(false);
        }
        self.data.clear();
        let recovery_needed = self.data_shards < ds;
        let mut out: Vec<u8> = Vec::new();
        if recovery_needed {
            let total = self.header.total_chunks();
            let mut original: Vec<(usize, Vec<u8>)> = Vec::new();
            let mut recovery: Vec<(usize, Vec<u8>)> = Vec::new();
            let mut i: usize = 0;
            while i < total
                invariant
                    0 <= i <= total,
                    total == self@.header.spec_total_chunks(),
                    total <= self@.chunks.len(),
                    ds == self@.header.data_shards,
                    (shards_view(original@), shards_view(recovery@)) == spec_shard_lists(
                        self@.chunks,
                        i as nat,
                        ds as nat,
                    ),
                decreases total - i,
            {
                let chunk = &self.chunks[i];
                let ghost prev_o = original@;
                let ghost prev_r = recovery@;
                if chunk.processed {
                    if i >= ds {
                        recovery.push((i, chunk.data.clone()));
                        assert(shards_view(recovery@) =~= shards_view(prev_r).push(
                            (i, chunk.data@),
                        ));
                    } else {
                        original.push((i, chunk.data.clone()));
                        assert(shards_view(original@) =~= shards_view(prev_o).push(
                            (i, chunk.data@),
                        ));
                    }
                }
                i = i + 1;
            }
            let restored = match reed_solomon_decode(
                ds,
                self.header.recovery_shards as usize,
                &original,
                &recovery,
            ) {
                Ok(m) => m,
                Err(_) => {
                    return Err(ProcessError::Recovery);
                },
            };
            let ghost rmap = restored@.map_values(|v: Vec<u8>| v@);
            assert(rs_restore(
                ds as nat,
                self@.header.recovery_shards as nat,
                spec_shard_lists(self@.chunks, self@.header.spec_total_chunks(), ds as nat).0,
                spec_shard_lists(self@.chunks, self@.header.spec_total_chunks(), ds as nat).1,
            ) == Some(rmap));
            let mut j: usize = 0;
            while j < ds
                invariant
                    0 <= j <= ds,
                    self@ == (PendingFrameView { data: Seq::empty(), ..old(self)@ }),
                    rs_restore(
                        ds as nat,
                        self@.header.recovery_shards as nat,
                        spec_shard_lists(self@.chunks, self@.header.spec_total_chunks(), ds as nat).0,
                        spec_shard_lists(self@.chunks, self@.header.spec_total_chunks(), ds as nat).1,
                    ) == Some(rmap),
                    self.wf(),
                    self.data_shards < ds,
                    self.data_shards + self.recovery_shards >= ds,
                    ds == self@.header.data_shards,
                    ds <= self@.chunks.len(),
                    rmap == restored@.map_values(|v: Vec<u8>| v@),
                    out@ == spec_assemble(self@.chunks, j as nat, rmap),
                    spec_all_restored(self@.chunks, j as nat, rmap),
                decreases ds - j,
            {
                let chunk = &self.chunks[j];
                if chunk.processed {
                    out.extend_from_slice(chunk.data.as_slice());
                } else {
                    match restored.get(&j) {
                        Some(d) => {
                            out.extend_from_slice(d.as_slice());
                        },
                        None => {
                            proof {
                                assert(!rmap.contains_key(j));
                                assert(!self@.chunks[j as int].processed);
                                assert(!spec_all_restored(self@.chunks, ds as nat, rmap));
                                let v = old(self)@;
                                assert(v.chunks == self@.chunks);
                                assert(v.data_shards < ds);
                                assert(v.data_shards + v.recovery_shards >= ds);
                                assert(spec_process(v).0 == Err::<bool, ProcessError>(
                                    ProcessError::MissingShard,
                                ));
                            }
                            return Err(ProcessError::MissingShard);
                        },
                    }
                }
                j = j + 1;
            }
        } else {
            let mut j: usize = 0;
            while j < ds
                invariant
                    0 <= j <= ds,
                    ds == self@.header.data_shards,
                    ds <= self@.chunks.len(),
                    out@ == spec_concat(self@.chunks, j as nat),
                decreases ds - j,
            {
                out.extend_from_slice(self.chunks[j].data.as_slice());
                j = j + 1;
            }
        }
        out.truncate(self.header.data_size as usize);
        self.data = out;
        Ok(true)
    }

    /// Whether `merge_chunk` may store a chunk with this header.
    pub fn can_merge(&self, header: &StreamPacketHeader) -> (res: bool)
        ensures
            res == spec_can_merge(self@, *header),
    {
        let total = header.total_chunks();
        let n = self.chunks.len();
        let shard = header.shard as usize;
        let len = if n < total {
            total
        } else {
            n
        };
        shard < len && (shard >= n || !self.chunks[shard].processed)
    }

    /// Stores one received chunk in its slot, growing the frame to the
    /// chunk count its header announces. The slot must not be filled already.
    pub fn merge_chunk(&mut self, new_chunk: &OwnedEncodedVideoFrameChunk)
        requires
            old(self).wf(),
            spec_can_merge(old(self)@, new_chunk.header),
        ensures
            final(self).wf(),
            final(self)@ == spec_merge_chunk(old(self)@, new_chunk.header, new_chunk.data@),
    {
        self.in_construction = true;
        self.header = new_chunk.header;
        let total_chunks = new_chunk.header.total_chunks();
        let ghost grown = grow_chunks(old(self)@.chunks, total_chunks as nat);
        if self.chunks.len() < total_chunks {
            let diff = total_chunks - self.chunks.len();
            let mut k: usize = 0;
            while k < diff
                invariant
                    0 <= k <= diff,
                    diff == total_chunks - old(self)@.chunks.len(),
                    self@.chunks =~= old(self)@.chunks + Seq::new(
                        k as nat,
                        |i: int| ChunkView { processed: false, data: Seq::empty() },
                    ),
                    count_processed(self@.chunks) == count_processed(old(self)@.chunks),
                    self.data_shards == old(self).data_shards,
                    self.recovery_shards == old(self).recovery_shards,
                    self.data@ == old(self).data@,
                    self.header == new_chunk.header,
                    self.in_construction,
                decreases diff - k,
            {
                let ghost prev = self@.chunks;
                proof {
                    lemma_count_processed_push(
                        prev,
                        ChunkView { processed: false, data: Seq::empty() },
                    );
                }
                let c = Chunk::new();
                assert(c.view() == ChunkView { processed: false, data: Seq::<u8>::empty() });
                self.chunks.push(c);
                assert(self@.chunks =~= prev.push(
                    ChunkView { processed: false, data: Seq::empty() },
                ));
                k = k + 1;
            }
        }
        assert(self@.chunks =~= grown);
        let shard = new_chunk.header.shard as usize;
        proof {
            lemma_count_processed_bound(self@.chunks);
            lemma_count_processed_update(
                self@.chunks,
                shard as int,
                ChunkView { processed: true, data: new_chunk.data@ },
            );
        }
        self.chunks[shard].set(new_chunk.data.as_slice());
        assert(self@.chunks =~= grown.update(
            shard as int,
            ChunkView { processed: true, data: new_chunk.data@ },
        ));
        proof {
            lemma_count_processed_bound(self@.chunks);
            assert(self.data_shards + self.recovery_shards + 1 <= self.chunks@.len());
        }
        if new_chunk.header.is_fec() {
            self.recovery_shards = self.recovery_shards + 1;
        } else {
            self.data_shards = self.data_shards + 1;
        }
        assert(self@ =~= spec_merge_chunk(old(self)@, new_chunk.header, new_chunk.data@));
    }
}

/// How many frames a client may have under construction at once.
pub const PENDING_FRAMES: usize = 4;

/// First frame at or after `i` that is being built for frame `seq`.
pub open spec fn find_building(f: Seq<PendingFrameView>, seq: u64, i: int) -> Option<int>
    decreases f.len() - i,
{
    if i < 0 || i >= f.len() {
        None
    } else if f[i].in_construction && f[i].header.seq == seq {
        Some(i)
    } else {
        find_building(f, seq, i + 1)
    }
}

/// First frame at or after `i` that is free.
pub open spec fn find_free(f: Seq<PendingFrameView>, i: int) -> Option<int>
    decreases f.len() - i,
{
    if i < 0 || i >= f.len() {
        None
    } else if !f[i].in_construction {
        Some(i)
    } else {
        find_free(f, i + 1)
    }
}

/// First frame at or after `i` with the lowest sequence number.
pub open spec fn find_oldest(f: Seq<PendingFrameView>, i: int) -> int
    decreases f.len() - i,
{
    if i < 0 || i >= f.len() - 1 {
        i
    } else {
        let j = find_oldest(f, i + 1);
        if f[i].header.seq <= f[j].header.seq {
            i
        } else {
            j
        }
    }
}

/// The frame a chunk of frame `seq` goes to: the one already collecting
/// `seq`, else a free one, else the oldest one, which is taken over.
pub open spec fn spec_select_frame(f: Seq<PendingFrameView>, seq: u64) -> int {
    match find_building(f, seq, 0) {
        Some(i) => i,
        None => match find_free(f, 0) {
            Some(i) => i,
            None => find_oldest(f, 0),
        },
    }
}

proof fn lemma_find_building_range(f: Seq<PendingFrameView>, seq: u64, i: int)
    ensures
        find_building(f, seq, i) matches Some(k) ==> i <= k < f.len(),
    decreases f.len() - i,
{
    if 0 <= i < f.len() {
        lemma_find_building_range(f, seq, i + 1);
    }
}

proof fn lemma_find_free_range(f: Seq<PendingFrameView>, i: int)
    ensures
        find_free(f, i) matches Some(k) ==> i <= k < f.len(),
    decreases f.len() - i,
{
    if 0 <= i < f.len() {
        lemma_find_free_range(f, i + 1);
    }
}

proof fn lemma_find_free_found(f: Seq<PendingFrameView>, i: int, k: int)
    requires
        0 <= i <= k < f.len(),
        !f[k].in_construction,
    ensures
        find_free(f, i) matches Some(j) && 0 <= j < f.len() && !f[j].in_construction,
    decreases f.len() - i,
{
    if f[i].in_construction {
        lemma_find_free_found(f, i + 1, k);
    }
}

proof fn lemma_find_building_found(f: Seq<PendingFrameView>, seq: u64, i: int)
    requires
        0 <= i,
    ensures
        find_building(f, seq, i) matches Some(k) ==> 0 <= k < f.len() && f[k].in_construction
            && f[k].header.seq == seq,
    decreases f.len() - i,
{
    if i < f.len() {
        lemma_find_building_found(f, seq, i + 1);
    }
}

/// Every frame that is not collecting chunks has all its slots empty.
pub open spec fn released_frames_empty(f: Seq<PendingFrameView>) -> bool {
    forall|i: int, k: int|
        0 <= i < f.len() && !f[i].in_construction && 0 <= k < f[i].chunks.len()
            ==> !(#[trigger] f[i].chunks[k]).processed
}

proof fn lemma_find_oldest_range(f: Seq<PendingFrameView>, i: int)
    requires
        0 <= i < f.len(),
    ensures
        i <= find_oldest(f, i) < f.len(),
        forall|k: int| i <= k < f.len() ==> f[find_oldest(f, i)].header.seq <= #[trigger] f[k].header.seq,
    decreases f.len() - i,
{
    if i < f.len() - 1 {
        lemma_find_oldest_range(f, i + 1);
    }
}

proof fn lemma_select_range(f: Seq<PendingFrameView>, seq: u64)
    requires
        f.len() > 0,
    ensures
        0 <= spec_select_frame(f, seq) < f.len(),
{
    lemma_find_building_range(f, seq, 0);
    lemma_find_free_range(f, 0);
    lemma_find_oldest_range(f, 0);
}

proof fn lemma_count_zero_prefix(v: Seq<ChunkView>, k: int)
    requires
        0 <= k <= v.len(),
        forall|i: int| 0 <= i < v.len() ==> !#[trigger] v[i].processed,
    ensures
        count_processed(v.take(k)) == 0,
    decreases k,
{
    if k > 0 {
        lemma_count_zero_prefix(v, k - 1);
        assert(v.take(k).drop_last() =~= v.take(k - 1));
    }
}


/// Abstract state of one remote screen's reassembly.
#[verifier::ext_equal]
pub struct ClientView {
    pub frames: Seq<PendingFrameView>,
    pub next_seq: u64,
}

/// Whether the chunk can be taken in: every frame is consistent, and the
/// slot the chunk goes to exists and is still empty.
pub open spec fn spec_can_take(v: ClientView, chunk: StreamPacketHeader) -> bool {
    chunk.seq < v.next_seq || spec_can_merge(
        v.frames[spec_select_frame(v.frames, chunk.seq)],
        chunk,
    )
}

/// Outcome of taking in one chunk: the new state and, when a frame was
/// completed, its bytes.
pub open spec fn spec_process_chunk(v: ClientView, chunk: StreamPacketHeader, data: Seq<u8>) -> (
    ClientView,
    Result<Option<Seq<u8>>, ProcessError>,
) {
    if chunk.seq < v.next_seq {
        (v, Ok(None))
    } else {
        let i = spec_select_frame(v.frames, chunk.seq);
        let merged = spec_merge_chunk(v.frames[i], chunk, data);
        let (res, bytes) = spec_process(merged);
        let processed = PendingFrameView { data: bytes, ..merged };
        match res {
            Err(e) => (ClientView { frames: v.frames.update(i, processed), ..v }, Err(e)),
            Ok(false) => (ClientView { frames: v.frames.update(i, processed), ..v }, Ok(None)),
            Ok(true) => (
                ClientView {
                    frames: v.frames.update(i, spec_reset_frame(processed)),
                    next_seq: (chunk.seq + 1) as u64,
                },
                Ok(Some(bytes)),
            ),
        }
    }
}

/// The reassembly state of a screen that has sent nothing yet.
pub open spec fn spec_fresh_client() -> ClientView {
    ClientView { frames: Seq::new(PENDING_FRAMES as nat, |i: int| spec_fresh_frame()), next_seq: 0 }
}

/// Reassembly state for one remote screen.
pub struct VideoStreamingClientState {
    pending_frames: Vec<PendingFrame>,
    next_seq: u64,
}

impl VideoStreamingClientState {
    pub closed spec fn view(&self) -> ClientView {
        ClientView {
            frames: self.pending_frames@.map_values(|f: PendingFrame| f@),
            next_seq: self.next_seq,
        }
    }

    /// There are `PENDING_FRAMES` frames and each is consistent.
    pub closed spec fn wf(&self) -> bool {
        &&& self.pending_frames@.len() == PENDING_FRAMES
        &&& forall|i: int| 0 <= i < self.pending_frames@.len() ==> #[trigger] self.pending_frames@[i].wf()
        &&& released_frames_empty(self@.frames)
    }

    /// A fresh state: `PENDING_FRAMES` free frames, waiting for frame 0.
    pub fn new() -> (res: Self)
        ensures
            res.wf(),
            res@ == spec_fresh_client(),
            released_frames_empty(res@.frames),
    {
        let mut pending_frames: Vec<PendingFrame> = Vec::new();
        let mut i: usize = 0;
        while i < PENDING_FRAMES
            invariant
                0 <= i <= PENDING_FRAMES,
                pending_frames@.len() == i,
                forall|k: int|
                    0 <= k < i ==> (#[trigger] pending_frames@[k]).wf()
                        && pending_frames@[k]@ == spec_fresh_frame(),
            decreases PENDING_FRAMES - i,
        {
            pending_frames.push(PendingFrame::new());
            i = i + 1;
        }
        let res = VideoStreamingClientState { pending_frames, next_seq: 0 };
        assert(res@ =~= spec_fresh_client());
        res
    }

    /// Sequence number below which chunks are ignored.
    pub fn next_seq(&self) -> (n: u64)
        ensures
            n == self@.next_seq,
    {
        self.next_seq
    }

    fn select_frame(&self, seq: u64) -> (i: usize)
        requires
            self.wf(),
        ensures
            i == spec_select_frame(self@.frames, seq),
            i < PENDING_FRAMES,
    {
        let ghost f = self@.frames;
        let n = self.pending_frames.len();
        proof {
            lemma_select_range(f, seq);
        }
        let mut i: usize = 0;
        while i < n
            invariant
                n == f.len(),
                n == PENDING_FRAMES,
                f == self@.frames,
                0 <= i <= n,
                find_building(f, seq, 0) == find_building(f, seq, i as int),
            decreases n - i,
        {
            if self.pending_frames[i].in_construction() && self.pending_frames[i].header.seq == seq {
                return i;
            }
            i = i + 1;
        }
        let mut i: usize = 0;
        while i < n
            invariant
                n == f.len(),
                n == PENDING_FRAMES,
                f == self@.frames,
                0 <= i <= n,
                find_building(f, seq, 0) is None,
                find_free(f, 0) == find_free(f, i as int),
            decreases n - i,
        {
            if !self.pending_frames[i].in_construction() {
                return i;
            }
            i = i + 1;
        }
        let mut best: usize = n - 1;
        let mut i: usize = n - 1;
        while i > 0
            invariant
                n == f.len(),
                n > 0,
                f == self@.frames,
                0 <= i < n,
                best == find_oldest(f, i as int),
                find_building(f, seq, 0) is None,
                find_free(f, 0) is None,
            decreases i,
        {
            i = i - 1;
            proof {
                lemma_find_oldest_range(f, (i + 1) as int);
            }
            if self.pending_frames[i].header.seq <= self.pending_frames[best].header.seq {
                best = i;
            }
        }
        best
    }

    /// Whether `process_chunk` may take in a chunk with this header: it is
    /// late, or its slot in the frame it goes to exists and is still empty.
    pub fn can_take(&self, header: &StreamPacketHeader) -> (res: bool)
        requires
            self.wf(),
        ensures
            res == spec_can_take(self@, *header),
    {
        if header.seq < self.next_seq {
            return true;
        }
        let i = self.select_frame(header.seq);
        self.pending_frames[i].can_merge(header)
    }

    /// Takes in one chunk of a remote screen. Chunks of frames older than
    /// the last completed one are ignored. When the chunk completes a frame,
    /// the frame's bytes are returned for decoding and the frame is released.
    pub fn process_chunk(&mut self, chunk: &OwnedEncodedVideoFrameChunk) -> (res: Result<
        Option<Vec<u8>>,
        ProcessError,
    >)
        requires
            old(self).wf(),
            spec_can_take(old(self)@, chunk.header),
            chunk.header.seq < u64::MAX,
        ensures
            final(self).wf(),
            released_frames_empty(final(self)@.frames),
            ({
                let (v, r) = spec_process_chunk(old(self)@, chunk.header, chunk.data@);
                &&& final(self)@ == v
                &&& match (res, r) {
                    (Ok(None), Ok(None)) => true,
                    (Ok(Some(d)), Ok(Some(sd))) => d@ == sd,
                    (Err(e), Err(se)) => e == se,
                    _ => false,
                }
            }),
    {
        proof {
            lemma_process_keeps_released_empty(old(self)@, chunk.header, chunk.data@);
        }
        if chunk.header.seq < self.next_seq {
            return Ok(None);
        }
        let i = self.select_frame(chunk.header.seq);
        proof {
            assert(self.pending_frames@[i as int].wf());
        }
        self.pending_frames[i].merge_chunk(chunk);
        let done = self.pending_frames[i].process();
        proof {
            assert(self@.frames =~= old(self)@.frames.update(
                i as int,
                self.pending_frames@[i as int]@,
            ));
        }
        match done {
            Err(e) => Err(e),
            Ok(false) => Ok(None),
            Ok(true) => {
                let data = self.pending_frames[i].data().clone();
                self.next_seq = chunk.header.seq + 1;
                self.pending_frames[i].reset();
                assert(self@.frames =~= old(self)@.frames.update(
                    i as int,
                    self.pending_frames@[i as int]@,
                ));
                Ok(Some(data))
            },
        }
    }
}

/// Index of the first screen of user `user_id` at or after `i`.
pub open spec fn find_screen(s: Seq<(i32, ClientView)>, user_id: i32, i: int) -> Option<int>
    decreases s.len() - i,
{
    if i < 0 || i >= s.len() {
        None
    } else if s[i].0 == user_id {
        Some(i)
    } else {
        find_screen(s, user_id, i + 1)
    }
}

proof fn lemma_find_screen_range(s: Seq<(i32, ClientView)>, user_id: i32, i: int)
    requires
        0 <= i,
    ensures
        find_screen(s, user_id, i) matches Some(k) ==> i <= k < s.len() && s[k].0 == user_id,
        find_screen(s, user_id, i) is None ==> forall|k: int|
            i <= k < s.len() ==> (#[trigger] s[k]).0 != user_id,
    decreases s.len() - i,
{
    if i < s.len() {
        lemma_find_screen_range(s, user_id, i + 1);
    }
}

/// Whether the decoding worker may take in a chunk of user `user_id`: a
/// chunk that did not parse, or of a user not watched, is dropped; any
/// other must be one that the user's reassembly can take.
pub open spec fn spec_can_process(
    s: Seq<(i32, ClientView)>,
    user_id: i32,
    parsed_correctly: bool,
    chunk: StreamPacketHeader,
) -> bool {
    parsed_correctly ==> match find_screen(s, user_id, 0) {
        Some(k) => spec_can_take(s[k].1, chunk) && chunk.seq < u64::MAX,
        None => true,
    }
}

/// The reassembly of the screens being watched, one per user.
pub struct DecodingWorker {
    active_clients: Vec<(UserId, VideoStreamingClientState)>,
}

impl DecodingWorker {
    pub closed spec fn view(&self) -> Seq<(i32, ClientView)> {
        self.active_clients@.map_values(|c: (UserId, VideoStreamingClientState)| (c.0.value, c.1@))
    }

    /// Each user's reassembly is well formed.
    pub closed spec fn wf(&self) -> bool {
        forall|i: int| 0 <= i < self.active_clients@.len() ==> (#[trigger] self.active_clients@[i]).1.wf()
    }

    /// No screen watched.
    pub fn new() -> (res: Self)
        ensures
            res.wf(),
            res@ == Seq::<(i32, ClientView)>::empty(),
    {
        let res = DecodingWorker { active_clients: Vec::new() };
        assert(res@ =~= Seq::<(i32, ClientView)>::empty());
        res
    }

    fn find(&self, user_id: UserId) -> (res: Option<usize>)
        ensures
            match res {
                Some(k) => find_screen(self@, user_id.value, 0) == Some(k as int),
                None => find_screen(self@, user_id.value, 0) is None,
            },
    {
        let mut i: usize = 0;
        while i < self.active_clients.len()
            invariant
                0 <= i <= self.active_clients@.len(),
                find_screen(self@, user_id.value, 0) == find_screen(self@, user_id.value, i as int),
            decreases self.active_clients@.len() - i,
        {
            if self.active_clients[i].0.value == user_id.value {
                return Some(i);
            }
            i = i + 1;
        }
        None
    }

    /// Starts watching the screen of `user_id`; a user already watched is
    /// left as is. Returns whether the user was added.
    pub fn add_client(&mut self, user_id: UserId) -> (added: bool)
        requires
            old(self).wf(),
        ensures
            final(self).wf(),
            match find_screen(old(self)@, user_id.value, 0) {
                Some(_) => !added && final(self)@ == old(self)@,
                None => added && final(self)@ == old(self)@.push((user_id.value, spec_fresh_client())),
            },
    {
        match self.find(user_id) {
            Some(_) => false,
            None => {
                let client = VideoStreamingClientState::new();
                self.active_clients.push((user_id, client));
                assert(self@ =~= old(self)@.push((user_id.value, spec_fresh_client())));
                true
            },
        }
    }

    /// Whether `process_frame_chunk` may take in this chunk.
    pub fn can_process(&self, user_id: UserId, parsed_correctly: bool, header: &StreamPacketHeader) -> (res: bool)
        requires
            self.wf(),
        ensures
            res == spec_can_process(self@, user_id.value, parsed_correctly, *header),
    {
        proof {
            lemma_find_screen_range(self@, user_id.value, 0);
        }
        if !parsed_correctly {
            return true;
        }
        match self.find(user_id) {
            None => true,
            Some(k) => self.active_clients[k].1.can_take(header) && header.seq < u64::MAX,
        }
    }

    /// Takes in one received chunk of user `user_id`. A chunk that did not
    /// parse, or of a user not watched, is dropped (`Ok(None)`); otherwise
    /// it goes to the user's reassembly, and a completed frame's bytes are
    /// returned for decoding.
    pub fn process_frame_chunk(
        &mut self,
        user_id: UserId,
        parsed_correctly: bool,
        chunk: &OwnedEncodedVideoFrameChunk,
    ) -> (res: Result<Option<Vec<u8>>, ProcessError>)
        requires
            old(self).wf(),
            spec_can_process(old(self)@, user_id.value, parsed_correctly, chunk.header),
        ensures
            final(self).wf(),
            match (parsed_correctly, find_screen(old(self)@, user_id.value, 0)) {
                (true, Some(k)) => {
                    let (v, r) = spec_process_chunk(old(self)@[k].1, chunk.header, chunk.data@);
                    &&& final(self)@ == old(self)@.update(k, (user_id.value, v))
                    &&& match (res, r) {
                        (Ok(None), Ok(None)) => true,
                        (Ok(Some(d)), Ok(Some(sd))) => d@ == sd,
                        (Err(e), Err(se)) => e == se,
                        _ => false,
                    }
                },
                _ => final(self)@ == old(self)@ && res matches Ok(None),
            },
    {
        proof {
            lemma_find_screen_range(self@, user_id.value, 0);
        }
        if !parsed_correctly {
            return Ok(None);
        }
        match self.find(user_id) {
            None => Ok(None),
            Some(k) => {
                let (id, mut client) = self.active_clients.remove(k);
                let res = client.process_chunk(chunk);
                self.active_clients.insert(k, (id, client));
                assert(self@ =~= old(self)@.update(
                    k as int,
                    (user_id.value, spec_process_chunk(old(self)@[k as int].1, chunk.header, chunk.data@).0),
                ));
                assert forall|i: int| 0 <= i < self.active_clients@.len() implies (#[trigger] self.active_clients@[i]).1.wf() by {
                    if i != k {
                        assert(self.active_clients@[i] == old(self).active_clients@[i]);
                    }
                }
                res
            },
        }
    }
}

/// Chunks of frames before the next expected one change nothing.
pub proof fn lemma_late_chunk_ignored(v: ClientView, chunk: StreamPacketHeader, data: Seq<u8>)
    requires
        chunk.seq < v.next_seq,
    ensures
        spec_process_chunk(v, chunk, data) == (v, Ok::<Option<Seq<u8>>, ProcessError>(None)),
{
}

/// The next expected frame never moves backwards, and completing a frame
/// moves it past that frame.
pub proof fn lemma_next_seq_monotonic(v: ClientView, chunk: StreamPacketHeader, data: Seq<u8>)
    requires
        chunk.seq < u64::MAX,
    ensures
        spec_process_chunk(v, chunk, data).0.next_seq >= v.next_seq,
        spec_process_chunk(v, chunk, data).1 matches Ok(Some(_)) ==> spec_process_chunk(
            v,
            chunk,
            data,
        ).0.next_seq == chunk.seq + 1,
{
}

/// When every payload chunk is in, the frame is their concatenation cut to
/// the frame size, and no recovery data is consulted.
pub proof fn lemma_complete_frame_is_concatenation(v: PendingFrameView)
    requires
        v.data_shards >= v.header.data_shards,
    ensures
        spec_process(v) == (
            Ok::<bool, ProcessError>(true),
            truncated(spec_concat(v.chunks, v.header.data_shards as nat), v.header.data_size as nat),
        ),
{
}

/// Whether two chunk headers belong to the same frame.
pub open spec fn same_frame(a: StreamPacketHeader, b: StreamPacketHeader) -> bool {
    &&& a.seq == b.seq
    &&& a.data_shards == b.data_shards
    &&& a.recovery_shards == b.recovery_shards
    &&& a.shard_size == b.shard_size
    &&& a.data_size == b.data_size
}

/// The chunks of a frame may arrive in any order: taking in two different
/// chunks of one frame in either order assembles the same frame.
pub proof fn lemma_chunk_order_irrelevant(
    v: PendingFrameView,
    a: StreamPacketHeader,
    da: Seq<u8>,
    b: StreamPacketHeader,
    db: Seq<u8>,
)
    requires
        same_frame(a, b),
        a.shard != b.shard,
        spec_can_merge(v, a),
        spec_can_merge(v, b),
    ensures
        ({
            let ab = spec_merge_chunk(spec_merge_chunk(v, a, da), b, db);
            let ba = spec_merge_chunk(spec_merge_chunk(v, b, db), a, da);
            &&& ab.chunks == ba.chunks
            &&& ab.data_shards == ba.data_shards
            &&& ab.recovery_shards == ba.recovery_shards
            &&& spec_process(ab) == spec_process(ba)
        }),
{
    let t = a.spec_total_chunks();
    assert(b.spec_total_chunks() == t);
    let g = grow_chunks(v.chunks, t);
    let ca = ChunkView { processed: true, data: da };
    let cb = ChunkView { processed: true, data: db };
    let va = spec_merge_chunk(v, a, da);
    let vb = spec_merge_chunk(v, b, db);
    assert(grow_chunks(va.chunks, t) == va.chunks);
    assert(grow_chunks(vb.chunks, t) == vb.chunks);
    let ab = spec_merge_chunk(va, b, db);
    let ba = spec_merge_chunk(vb, a, da);
    assert(ab.chunks =~= g.update(a.shard as int, ca).update(b.shard as int, cb));
    assert(ba.chunks =~= g.update(b.shard as int, cb).update(a.shard as int, ca));
    assert(ab.chunks =~= ba.chunks);
    assert(ab.header.data_shards == ba.header.data_shards);
    assert(ab.header.recovery_shards == ba.header.recovery_shards);
    assert(ab.header.data_size == ba.header.data_size);
    assert(ab.header.spec_total_chunks() == ba.header.spec_total_chunks());
}

proof fn lemma_process_keeps_released_empty(v: ClientView, chunk: StreamPacketHeader, data: Seq<u8>)
    requires
        released_frames_empty(v.frames),
        v.frames.len() > 0,
    ensures
        released_frames_empty(spec_process_chunk(v, chunk, data).0.frames),
        spec_process_chunk(v, chunk, data).0.frames.len() == v.frames.len(),
{
    lemma_select_range(v.frames, chunk.seq);
    let w = spec_process_chunk(v, chunk, data).0;
    if chunk.seq >= v.next_seq {
        let i = spec_select_frame(v.frames, chunk.seq);
        assert forall|a: int, k: int|
            0 <= a < w.frames.len() && !w.frames[a].in_construction && 0 <= k < w.frames[a].chunks.len()
                implies !(#[trigger] w.frames[a].chunks[k]).processed by {
            if a != i {
                assert(w.frames[a] == v.frames[a]);
            }
        }
    }
}

/// Completing a frame releases its slot: when a chunk completes a frame,
/// the frame that held it is afterwards free, with every chunk slot empty,
/// no other frame changes, and the next expected frame is the one after it.
pub proof fn lemma_completed_frame_released(v: ClientView, chunk: StreamPacketHeader, data: Seq<u8>)
    requires
        v.frames.len() > 0,
        chunk.seq < u64::MAX,
        spec_process_chunk(v, chunk, data).1 matches Ok(Some(_)),
    ensures
        ({
            let w = spec_process_chunk(v, chunk, data).0;
            let i = spec_select_frame(v.frames, chunk.seq);
            &&& 0 <= i < v.frames.len()
            &&& w.frames.len() == v.frames.len()
            &&& !w.frames[i].in_construction
            &&& forall|k: int| 0 <= k < w.frames[i].chunks.len() ==> !(#[trigger] w.frames[i].chunks[k]).processed
            &&& forall|j: int| 0 <= j < v.frames.len() && j != i ==> #[trigger] w.frames[j] == v.frames[j]
            &&& w.next_seq == chunk.seq + 1
        }),
{
    lemma_select_range(v.frames, chunk.seq);
}

/// After a completed frame, the first chunk of a frame that nobody is
/// collecting yet can always be taken in: the released slot is free and
/// empty.
pub proof fn lemma_next_frame_can_start(
    v: ClientView,
    chunk: StreamPacketHeader,
    data: Seq<u8>,
    next: StreamPacketHeader,
)
    requires
        v.frames.len() > 0,
        chunk.seq < u64::MAX,
        released_frames_empty(v.frames),
        spec_process_chunk(v, chunk, data).1 matches Ok(Some(_)),
        forall|j: int|
            0 <= j < spec_process_chunk(v, chunk, data).0.frames.len() ==> !(
            #[trigger] spec_process_chunk(v, chunk, data).0.frames[j].in_construction
                && spec_process_chunk(v, chunk, data).0.frames[j].header.seq == next.seq),
        (next.shard as nat) < next.spec_total_chunks(),
    ensures
        spec_can_take(spec_process_chunk(v, chunk, data).0, next),
{
    let w = spec_process_chunk(v, chunk, data).0;
    lemma_completed_frame_released(v, chunk, data);
    lemma_process_keeps_released_empty(v, chunk, data);
    let i = spec_select_frame(v.frames, chunk.seq);
    lemma_find_building_found(w.frames, next.seq, 0);
    assert(find_building(w.frames, next.seq, 0) is None);
    lemma_find_free_found(w.frames, 0, i);
    let j = find_free(w.frames, 0)->0;
    assert(spec_select_frame(w.frames, next.seq) == j);
    let f = w.frames[j];
    if (next.shard as int) < f.chunks.len() {
        assert(!f.chunks[next.shard as int].processed);
    }
}

} // verus!
