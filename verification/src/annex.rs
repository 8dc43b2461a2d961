//! Splitting of an H.264 Annex-B byte stream into NAL units.

use arrayvec::ArrayVec;
use vstd::prelude::*;

verus! {

/// Kind of a NAL unit, taken from the low five bits of its first byte.
#[derive(Debug, Clone, Copy, PartialEq, Eq, Structural)]
pub enum NalType {
    Pps,
    Sps,
    Idr,
    Other,
}

/// One NAL unit: the bytes between two start codes.
#[derive(Debug, Clone, Copy)]
pub struct Nal<'a> {
    pub data: &'a [u8],
    pub type_: NalType,
}

/// How many NAL units a single access unit may hold.
pub const MAX_NALS: usize = 6;

#[verifier::external_type_specification]
#[verifier::external_body]
#[verifier::reject_recursive_types(T)]
pub struct ExArrayVec<T, const CAP: usize>(ArrayVec<T, CAP>);

/// The NAL units held by an `ArrayVec`, each as its bytes and its kind.
pub uninterp spec fn nal_vec_items(v: ArrayVec<Nal<'_>, 6>) -> Seq<(Seq<u8>, NalType)>;

/// `ArrayVec::new`: an empty vector.
#[verifier::external_body]
fn nal_vec_new<'a>() -> (v: ArrayVec<Nal<'a>, 6>)
    ensures
        nal_vec_items(v) == Seq::<(Seq<u8>, NalType)>::empty(),
{
    ArrayVec::new()
}

/// `ArrayVec::push`: appends one item; it panics on a full vector, so the
/// caller must leave room.
#[verifier::external_body]
fn nal_vec_push<'a>(v: &mut ArrayVec<Nal<'a>, 6>, nal: Nal<'a>)
    requires
        nal_vec_items(*old(v)).len() < 6,
    ensures
        nal_vec_items(*final(v)) == nal_vec_items(*old(v)).push((nal.data@, nal.type_)),
{
    v.push(nal)
}

/// Number of zero bytes that directly precede index `i`.
pub open spec fn zero_run(s: Seq<u8>, i: int) -> nat
    decreases i,
{
    if i <= 0 || i > s.len() || s[i - 1] != 0 {
        0
    } else {
        1 + zero_run(s, i - 1)
    }
}

/// Index `i` holds the `1` that ends a start code (at least two zeros before it).
pub open spec fn ends_start_code(s: Seq<u8>, i: int) -> bool {
    0 <= i < s.len() && s[i] == 1 && zero_run(s, i) >= 2
}

/// Length of the start code that ends at `i`: four bytes after three or more
/// zeros, three otherwise.
pub open spec fn start_code_len(s: Seq<u8>, i: int) -> int {
    if zero_run(s, i) >= 3 {
        4
    } else {
        3
    }
}

/// The first start code of `s`, as its position and its length.
#[verifier::opaque]
pub open spec fn first_start_code(s: Seq<u8>) -> Option<(int, int)> {
    if exists|i: int| ends_start_code(s, i) {
        let i = choose|i: int|
            ends_start_code(s, i) && forall|j: int| 0 <= j < i ==> !ends_start_code(s, j);
        Some((i + 1 - start_code_len(s, i), start_code_len(s, i)))
    } else {
        None
    }
}

/// Kind of a NAL unit whose first byte is `b`.
pub open spec fn spec_nal_type(b: u8) -> NalType {
    let t = b & 0x1f;
    if t == 5 {
        NalType::Idr
    } else if t == 7 {
        NalType::Sps
    } else if t == 8 {
        NalType::Pps
    } else {
        NalType::Other
    }
}

/// The NAL units of `s`, in order: each runs from the end of one start code
/// to the next start code or the end of the input; splitting stops at the
/// first empty unit.
#[verifier::opaque]
pub open spec fn spec_nals(s: Seq<u8>) -> Seq<(Seq<u8>, NalType)>
    decreases s.len(),
{
    match first_start_code(s) {
        None => Seq::empty(),
        Some((start, len)) => {
            if 0 <= start && 3 <= len && start + len <= s.len() {
                let rem = s.skip(start + len);
                let end = match first_start_code(rem) {
                    Some((next, _)) => next,
                    None => rem.len() as int,
                };
                let nal = rem.take(end);
                if nal.len() == 0 || end < 0 || end > rem.len() {
                    Seq::empty()
                } else {
                    seq![(nal, spec_nal_type(nal[0]))] + spec_nals(rem.skip(end))
                }
            } else {
                Seq::empty()
            }
        },
    }
}

proof fn lemma_first_start_code_bounds(s: Seq<u8>)
    ensures
        first_start_code(s) matches Some((p, l)) ==> {
            &&& l == 3 || l == 4
            &&& 0 <= p
            &&& p + l <= s.len()
            &&& ends_start_code(s, p + l - 1)
        },
{
    reveal(first_start_code);
    if exists|i: int| ends_start_code(s, i) {
        lemma_first_exists(s);
        let i = choose|i: int|
            ends_start_code(s, i) && forall|j: int| 0 <= j < i ==> !ends_start_code(s, j);
        lemma_zero_run_bound(s, i);
    }
}

proof fn lemma_zero_run_bound(s: Seq<u8>, i: int)
    requires
        0 <= i <= s.len(),
    ensures
        zero_run(s, i) <= i,
    decreases i,
{
    if i > 0 && s[i - 1] == 0 {
        lemma_zero_run_bound(s, i - 1);
    }
}

proof fn lemma_first_exists(s: Seq<u8>)
    requires
        exists|i: int| ends_start_code(s, i),
    ensures
        exists|i: int|
            ends_start_code(s, i) && forall|j: int| 0 <= j < i ==> !ends_start_code(s, j),
{
    let k = choose|i: int| ends_start_code(s, i);
    lemma_first_below(s, k, 0);
}

proof fn lemma_first_below(s: Seq<u8>, k: int, lo: int)
    requires
        ends_start_code(s, k),
        0 <= lo <= k,
        forall|j: int| 0 <= j < lo ==> !ends_start_code(s, j),
    ensures
        exists|i: int|
            ends_start_code(s, i) && forall|j: int| 0 <= j < i ==> !ends_start_code(s, j),
    decreases k - lo,
{
    if ends_start_code(s, lo) {
        assert(ends_start_code(s, lo) && forall|j: int| 0 <= j < lo ==> !ends_start_code(s, j));
    } else {
        lemma_first_below(s, k, lo + 1);
    }
}

/// Finds the first Annex-B start code (`00 00 01` or `00 00 00 01`) and
/// returns its position and length.
pub fn find_start_code(buf: &[u8]) -> (res: Option<(usize, usize)>)
    ensures
        match res {
            Some((p, l)) => first_start_code(buf@) == Some((p as int, l as int)),
            None => first_start_code(buf@) is None,
        },
{
    let mut zeros: usize = 0;
    let mut i: usize = 0;
    while i < buf.len()
        invariant
            0 <= i <= buf.len(),
            zeros == zero_run(buf@, i as int),
            forall|j: int| 0 <= j < i ==> !ends_start_code(buf@, j),
        decreases buf.len() - i,
    {
        let b = buf[i];
        proof {
            lemma_zero_run_bound(buf@, i as int);
        }
        if b == 0 {
            zeros = zeros + 1;
        } else if b == 1 && zeros >= 2 {
            let len: usize = if zeros >= 3 { 4 } else { 3 };
            proof {
                assert(ends_start_code(buf@, i as int));
                assert(ends_start_code(buf@, i as int) && forall|j: int|
                    0 <= j < i ==> !ends_start_code(buf@, j));
                reveal(first_start_code);
                let k = choose|k: int|
                    ends_start_code(buf@, k) && forall|j: int|
                        0 <= j < k ==> !ends_start_code(buf@, j);
                assert(k == i as int);
            }
            return Some((i + 1 - len, len));
        } else {
            zeros = 0;
        }
        i = i + 1;
    }
    proof {
        reveal(first_start_code);
    }
    None
}


fn nal_type_of(b: u8) -> (t: NalType)
    ensures
        t == spec_nal_type(b),
{
    let code = b & 0x1f;
    if code == 5 {
        NalType::Idr
    } else if code == 7 {
        NalType::Sps
    } else if code == 8 {
        NalType::Pps
    } else {
        NalType::Other
    }
}

proof fn lemma_nals_step(s: Seq<u8>, start: int, len: int, end: int)
    requires
        first_start_code(s) == Some((start, len)),
        0 <= start,
        3 <= len,
        start + len <= s.len(),
        0 < end <= s.len() - (start + len),
        first_start_code(s.skip(start + len)) matches Some((next, _)) ==> end == next,
        first_start_code(s.skip(start + len)) is None ==> end == s.len() - (start + len),
    ensures
        spec_nals(s) == seq![
            (s.skip(start + len).take(end), spec_nal_type(s.skip(start + len).take(end)[0]))
        ] + spec_nals(s.skip(start + len).skip(end)),
{
    reveal(spec_nals);
}

proof fn lemma_nals_stop(s: Seq<u8>)
    requires
        ({
            ||| first_start_code(s) is None
            ||| first_start_code(s) matches Some((start, len)) && start + len <= s.len() && (
            first_start_code(s.skip(start + len)) matches Some((next, _)) && next == 0)
            ||| first_start_code(s) matches Some((start, len)) && start + len == s.len()
        }),
        first_start_code(s) matches Some((start, len)) ==> 0 <= start && 3 <= len,
    ensures
        spec_nals(s) =~= Seq::<(Seq<u8>, NalType)>::empty(),
{
    reveal(spec_nals);
}

/// Splits an Annex-B stream into its NAL units, each with its kind.
///
/// At most `MAX_NALS` units fit in the result; the input must not hold more.
pub fn annex_b_nals<'a>(buf: &'a [u8]) -> (result: ArrayVec<Nal<'a>, 6>)
    requires
        spec_nals(buf@).len() <= MAX_NALS,
    ensures
        nal_vec_items(result) == spec_nals(buf@),
{
    let mut result = nal_vec_new();
    let mut rest: &'a [u8] = buf;
    loop
        invariant
            nal_vec_items(result) + spec_nals(rest@) == spec_nals(buf@),
            spec_nals(buf@).len() <= 6,
        decreases rest@.len(),
    {
        proof {
            lemma_first_start_code_bounds(rest@);
        }
        let found = find_start_code(rest);
        let (start, start_len) = match found {
            Some(v) => v,
            None => {
                proof {
                    lemma_nals_stop(rest@);
                }
                assert(nal_vec_items(result) + spec_nals(rest@) =~= nal_vec_items(result));
                return result;
            },
        };
        assert(first_start_code(rest@) == Some((start as int, start_len as int)));
        assert(start + start_len <= rest@.len());
        assert(rest@.len() == rest.len());
        let nal_start = start + start_len;
        let remaining: &'a [u8] = &rest[nal_start..rest.len()];
        assert(remaining@ =~= rest@.skip(nal_start as int));
        proof {
            lemma_first_start_code_bounds(remaining@);
        }
        let nal_end = match find_start_code(remaining) {
            Some((next, _)) => next,
            None => remaining.len(),
        };
        let nal: &'a [u8] = &remaining[0..nal_end];
        let next_rest: &'a [u8] = &remaining[nal_end..remaining.len()];
        assert(nal@ =~= remaining@.take(nal_end as int));
        assert(next_rest@ =~= remaining@.skip(nal_end as int));
        if nal.len() == 0 {
            proof {
                lemma_nals_stop(rest@);
            }
            assert(nal_vec_items(result) + spec_nals(rest@) =~= nal_vec_items(result));
            return result;
        }
        let type_ = nal_type_of(nal[0]);
        proof {
            lemma_nals_step(rest@, start as int, start_len as int, nal_end as int);
            let head = seq![(nal@, type_)];
            assert(nal_vec_items(result) + (head + spec_nals(next_rest@)) =~= nal_vec_items(
                result,
            ).push((nal@, type_)) + spec_nals(next_rest@));
        }
        nal_vec_push(&mut result, Nal { data: nal, type_ });
        rest = next_rest;
    }
}

/// A NAL unit's kind follows H.264's `nal_unit_type`, the low five bits of
/// its first byte: IDR slice for 5, SPS for 7, PPS for 8, and other for
/// every other value.
pub proof fn lemma_nal_kind_by_type(b: u8)
    ensures
        (spec_nal_type(b) == NalType::Idr) == (b & 0x1f == 5),
        (spec_nal_type(b) == NalType::Sps) == (b & 0x1f == 7),
        (spec_nal_type(b) == NalType::Pps) == (b & 0x1f == 8),
        (spec_nal_type(b) == NalType::Other) == (b & 0x1f != 5 && b & 0x1f != 7 && b & 0x1f != 8),
{
}

/// Every unit of a split stream is non-empty, and its kind follows the
/// `nal_unit_type` of its first byte.
pub proof fn lemma_nal_kinds(s: Seq<u8>)
    ensures
        forall|i: int|
            0 <= i < spec_nals(s).len() ==> {
                let (data, kind) = #[trigger] spec_nals(s)[i];
                &&& data.len() > 0
                &&& (kind == NalType::Idr) == (data[0] & 0x1f == 5)
                &&& (kind == NalType::Sps) == (data[0] & 0x1f == 7)
                &&& (kind == NalType::Pps) == (data[0] & 0x1f == 8)
                &&& (kind == NalType::Other) == (data[0] & 0x1f != 5 && data[0] & 0x1f != 7
                    && data[0] & 0x1f != 8)
            },
    decreases s.len(),
{
    reveal(spec_nals);
    lemma_first_start_code_bounds(s);
    match first_start_code(s) {
        None => {},
        Some((start, len)) => {
            if 0 <= start && 3 <= len && start + len <= s.len() {
                let rem = s.skip(start + len);
                let end = match first_start_code(rem) {
                    Some((next, _)) => next,
                    None => rem.len() as int,
                };
                let nal = rem.take(end);
                if !(nal.len() == 0 || end < 0 || end > rem.len()) {
                    let tail = rem.skip(end);
                    lemma_nal_kinds(tail);
                    lemma_nal_kind_by_type(nal[0]);
                    let head = seq![(nal, spec_nal_type(nal[0]))];
                    assert(spec_nals(s) == head + spec_nals(tail));
                    assert forall|i: int| 0 <= i < spec_nals(s).len() implies {
                        let (data, kind) = #[trigger] spec_nals(s)[i];
                        &&& data.len() > 0
                        &&& (kind == NalType::Idr) == (data[0] & 0x1f == 5)
                        &&& (kind == NalType::Sps) == (data[0] & 0x1f == 7)
                        &&& (kind == NalType::Pps) == (data[0] & 0x1f == 8)
                        &&& (kind == NalType::Other) == (data[0] & 0x1f != 5 && data[0] & 0x1f != 7
                            && data[0] & 0x1f != 8)
                    } by {
                        if i > 0 {
                            assert(spec_nals(s)[i] == spec_nals(tail)[i - 1]);
                        }
                    }
                }
            }
        },
    }
}

} // verus!
