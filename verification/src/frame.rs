//! The RPC wire format.
//!
//! Every message is one frame:
//! `[key length: u8][key: UTF-8][tag: u8][request id: 16 bytes, only when tag != 0]`
//! `[body length: u32 little-endian][body]`.
//! Requests carry an id that the matching response repeats; notifications
//! carry none.

use bytes::BytesMut;
use core::str::Utf8Error;
use vstd::bytes::*;
use vstd::prelude::*;
use vstd::utf8::*;

verus! {

broadcast use {encode_utf8_valid_utf8, encode_utf8_decode_utf8, decode_utf8_encode_utf8};

/// Errors while reading frames off a connection.
#[derive(Debug, Clone, Copy, PartialEq, Eq, Structural)]
pub enum RpcError {
    /// The peer closed the stream before a frame was complete.
    ConnectionClosed,
    /// The transport failed.
    TCPIoError,
    /// The body could not be decoded into the expected message.
    BodyDeserializeError,
    /// The method key is not valid UTF-8.
    KeyDeserializeError,
    /// The request id is malformed.
    InvalidUUID,
}

/// Length in bytes of a request id.
pub const UUID_LEN: usize = 16;

/// The body of a request or response that carries nothing.
#[derive(Debug, Clone, Copy, PartialEq, Eq, Structural)]
pub struct Empty {}

/// A decoded frame; its body borrows from the receive buffer.
pub struct Frame<'a> {
    pub key: String,
    pub id: Option<[u8; 16]>,
    pub body: &'a [u8],
}

/// The abstract content of a frame.
pub struct FrameView {
    pub key: Seq<char>,
    pub id: Option<Seq<u8>>,
    pub body: Seq<u8>,
}

impl<'a> Frame<'a> {
    pub open spec fn view(&self) -> FrameView {
        FrameView {
            key: self.key@,
            id: match self.id {
                Some(id) => Some(id@),
                None => None,
            },
            body: self.body@,
        }
    }
}

/// `std::str::from_utf8`: the bytes as a string slice when they are valid
/// UTF-8, an error otherwise.
#[verifier::external_body]
fn str_from_utf8(v: &[u8]) -> (res: Result<&str, Utf8Error>)
    ensures
        res is Ok <==> valid_utf8(v@),
        res matches Ok(s) ==> s@ == decode_utf8(v@),
{
    core::str::from_utf8(v)
}

#[verifier::external_type_specification]
#[verifier::external_body]
pub struct ExUtf8Error(Utf8Error);

/// Little-endian value of four bytes.
pub open spec fn le_u32(s: Seq<u8>) -> nat {
    spec_u32_from_le_bytes(s) as nat
}

/// Parsing the method key at the start of a frame: `None` while the key is
/// not fully received, otherwise the key and its length in bytes.
pub open spec fn spec_parse_rpc_method(buf: Seq<u8>) -> Result<Option<(Seq<char>, int)>, RpcError> {
    let key_bytes = buf[0] as int;
    if buf.len() - 1 < key_bytes {
        Ok(None)
    } else if !valid_utf8(buf.subrange(1, key_bytes + 1)) {
        Err(RpcError::KeyDeserializeError)
    } else {
        Ok(Some((decode_utf8(buf.subrange(1, key_bytes + 1)), key_bytes)))
    }
}

/// Parsing the optional request id at `start`: `None` while it is not fully
/// received, otherwise the id and the position after it.
pub open spec fn spec_parse_uuid(buf: Seq<u8>, start: int) -> Option<(Option<Seq<u8>>, int)> {
    if start >= buf.len() {
        None
    } else if buf[start] == 0 {
        Some((None, start + 1))
    } else if buf.len() - start < 1 + UUID_LEN {
        None
    } else {
        Some((Some(buf.subrange(start + 1, start + 1 + UUID_LEN)), start + 1 + UUID_LEN))
    }
}

/// Parsing the length-prefixed body at `start`: `None` while it is not fully
/// received, otherwise where the body starts and where it ends.
pub open spec fn spec_process_payload(buf: Seq<u8>, start: int) -> Option<(int, int)> {
    if buf.len() - start < 4 {
        None
    } else {
        let len = le_u32(buf.subrange(start, start + 4));
        if buf.len() - (start + 4) < len {
            None
        } else {
            Some((start + 4, start + 4 + len))
        }
    }
}

/// Decoding one frame from the front of `buf`: `Ok(None)` while it is not
/// fully received, otherwise the frame and the number of bytes it takes.
pub open spec fn spec_decode_frame(buf: Seq<u8>) -> Result<Option<(FrameView, int)>, RpcError> {
    if buf.len() == 0 {
        Ok(None)
    } else {
        match spec_parse_rpc_method(buf) {
            Err(e) => Err(e),
            Ok(None) => Ok(None),
            Ok(Some((key, key_len))) => match spec_parse_uuid(buf, key_len + 1) {
                None => Ok(None),
                Some((id, body_at)) => match spec_process_payload(buf, body_at) {
                    None => Ok(None),
                    Some((b_start, b_end)) => Ok(
                        Some(
                            (FrameView { key, id, body: buf.subrange(b_start, b_end) }, b_end),
                        ),
                    ),
                },
            },
        }
    }
}

/// The bytes of one frame.
pub open spec fn spec_encode_frame(key: Seq<char>, id: Option<Seq<u8>>, body: Seq<u8>) -> Seq<u8> {
    let key_bytes = encode_utf8(key);
    seq![key_bytes.len() as u8] + key_bytes + match id {
        None => seq![0u8],
        Some(u) => seq![1u8] + u,
    } + spec_u32_to_le_bytes(body.len() as u32) + body
}

/// Reads the method key at the front of `buf`; `Ok(None)` asks for more bytes.
pub fn parse_rpc_method(buf: &[u8]) -> (res: Result<Option<(String, usize)>, RpcError>)
    requires
        buf@.len() >= 1,
    ensures
        match (res, spec_parse_rpc_method(buf@)) {
            (Ok(None), Ok(None)) => true,
            (Ok(Some((k, n))), Ok(Some((sk, sn)))) => k@ == sk && n == sn,
            (Err(e), Err(se)) => e == se,
            _ => false,
        },
{
    let key_bytes = buf[0] as usize;
    if buf.len() - 1 < key_bytes {
        return Ok(None);
    }
    let key = &buf[1..key_bytes + 1];
    match str_from_utf8(key) {
        Ok(s) => Ok(Some((s.to_owned(), key_bytes))),
        Err(_) => Err(RpcError::KeyDeserializeError),
    }
}

/// Reads the optional request id at `start`; `Ok(None)` asks for more bytes.
pub fn parse_uuid(buf: &[u8], start: usize) -> (res: Result<Option<(Option<[u8; 16]>, usize)>, RpcError>)
    ensures
        match res {
            Ok(r) => match (r, spec_parse_uuid(buf@, start as int)) {
                (None, None) => true,
                (Some((id, n)), Some((sid, sn))) => n == sn && match (id, sid) {
                    (None, None) => true,
                    (Some(a), Some(b)) => a@ == b,
                    _ => false,
                },
                _ => false,
            },
            Err(_) => false,
        },
{
    if start >= buf.len() {
        return Ok(None);
    }
    let is_tagged = buf[start];
    if is_tagged == 0 {
        return Ok(Some((None, start + 1)));
    }
    if buf.len() - start < 1 + UUID_LEN {
        return Ok(None);
    }
    let i = start + 1;
    let mut uuid = [0u8; 16];
    let mut j: usize = 0;
    while j < UUID_LEN
        invariant
            i + UUID_LEN <= buf.len(),
            0 <= j <= UUID_LEN,
            forall|k: int| 0 <= k < j ==> uuid@[k] == buf@[i + k],
        decreases UUID_LEN - j,
    {
        uuid[j] = buf[i + j];
        j = j + 1;
    }
    assert(uuid@ =~= buf@.subrange(i as int, i + UUID_LEN));
    Ok(Some((Some(uuid), i + UUID_LEN)))
}

/// Locates the length-prefixed body at `start`: where it begins and ends.
/// `None` asks for more bytes.
pub fn process_payload(buf: &[u8], start: usize) -> (res: Option<(usize, usize)>)
    requires
        start <= buf@.len(),
    ensures
        match (res, spec_process_payload(buf@, start as int)) {
            (None, None) => true,
            (Some((a, b)), Some((sa, sb))) => a == sa && b == sb,
            _ => false,
        },
{
    if buf.len() - start < 4 {
        return None;
    }
    let body_length = u32_from_le_bytes(&buf[start..start + 4]) as usize;
    if buf.len() - (start + 4) < body_length {
        return None;
    }
    let body_start = start + 4;
    Some((body_start, body_start + body_length))
}

/// Decodes one frame from the front of `buf`: `Ok(None)` asks for more bytes,
/// `Ok(Some((frame, n)))` is a frame taking the first `n` bytes.
pub fn decode_frame<'a>(buf: &'a [u8]) -> (res: Result<Option<(Frame<'a>, usize)>, RpcError>)
    ensures
        match (res, spec_decode_frame(buf@)) {
            (Ok(None), Ok(None)) => true,
            (Ok(Some((f, n))), Ok(Some((sf, sn)))) => f.view() == sf && n == sn,
            (Err(e), Err(se)) => e == se,
            _ => false,
        },
{
    if buf.len() == 0 {
        return Ok(None);
    }
    let (key, key_len) = match parse_rpc_method(buf) {
        Err(e) => return Err(e),
        Ok(None) => return Ok(None),
        Ok(Some(v)) => v,
    };
    let (id, body_at) = match parse_uuid(buf, key_len + 1) {
        Err(e) => return Err(e),
        Ok(None) => return Ok(None),
        Ok(Some(v)) => v,
    };
    let (body_start, body_end) = match process_payload(buf, body_at) {
        None => return Ok(None),
        Some(v) => v,
    };
    let body = &buf[body_start..body_end];
    let frame = Frame { key, id, body };
    proof {
        let sf = spec_decode_frame(buf@);
        assert(frame.view().id == match id {
            Some(i) => Some(i@),
            None => None::<Seq<u8>>,
        });
    }
    Ok(Some((frame, body_end)))
}

/// Encodes one frame. The key must fit its one-byte length and the body its
/// four-byte length.
pub fn encode_frame(key: &str, id: Option<&[u8; 16]>, body: &[u8]) -> (frame: Vec<u8>)
    requires
        encode_utf8(key@).len() <= u8::MAX,
        body@.len() <= u32::MAX,
    ensures
        frame@ == spec_encode_frame(
            key@,
            match id {
                Some(i) => Some(i@),
                None => None,
            },
            body@,
        ),
{
    let key_bytes = key.as_bytes();
    let key_len = key_bytes.len() as u8;
    let body_len = body.len() as u32;
    let mut out: Vec<u8> = Vec::new();
    out.push(key_len);
    out.extend_from_slice(key_bytes);
    match id {
        Some(value) => {
            out.push(1u8);
            out.extend_from_slice(value.as_slice());
        },
        None => {
            out.push(0u8);
        },
    }
    let len_bytes = u32_to_le_bytes(body_len);
    out.extend_from_slice(len_bytes.as_slice());
    out.extend_from_slice(body);
    proof {
        let ids = match id {
            Some(i) => Some(i@),
            None => None,
        };
        assert(out@ =~= spec_encode_frame(key@, ids, body@));
    }
    out
}


/// A frame taken out of a receive buffer, owning its body.
pub struct OwnedFrame {
    pub key: String,
    pub id: Option<[u8; 16]>,
    pub body: Vec<u8>,
}

impl OwnedFrame {
    pub open spec fn view(&self) -> FrameView {
        FrameView {
            key: self.key@,
            id: match self.id {
                Some(id) => Some(id@),
                None => None,
            },
            body: self.body@,
        }
    }
}

#[verifier::external_type_specification]
#[verifier::external_body]
pub struct ExBytesMut(BytesMut);

/// The bytes a `BytesMut` holds.
pub uninterp spec fn bytes_contents(b: BytesMut) -> Seq<u8>;

/// `BytesMut::new`: an empty buffer.
#[verifier::external_body]
fn bytes_new() -> (b: BytesMut)
    ensures
        bytes_contents(b) == Seq::<u8>::empty(),
{
    BytesMut::new()
}

/// `Deref` of `BytesMut`: its bytes as a slice.
#[verifier::external_body]
fn bytes_as_slice(b: &BytesMut) -> (s: &[u8])
    ensures
        s@ == bytes_contents(*b),
{
    &b[..]
}

/// `BytesMut::extend_from_slice`: appends the bytes. It panics when the
/// capacity it needs overflows; the bound on the contents rules that out
/// except for a buffer whose earlier allocations already span a quarter of
/// the address space, which is left unsaid.
#[verifier::external_body]
fn bytes_extend(b: &mut BytesMut, bytes: &[u8])
    requires
        bytes_contents(*old(b)).len() + bytes@.len() <= isize::MAX,
    ensures
        bytes_contents(*final(b)) == bytes_contents(*old(b)) + bytes@,
{
    b.extend_from_slice(bytes)
}

/// `BytesMut::clear`: drops all bytes.
#[verifier::external_body]
fn bytes_clear(b: &mut BytesMut)
    ensures
        bytes_contents(*final(b)) == Seq::<u8>::empty(),
{
    b.clear()
}

/// `BytesMut::split_off`: keeps the first `at` bytes and returns the rest.
/// It panics when `at` exceeds the capacity, which the contents' length
/// never does.
#[verifier::external_body]
fn bytes_split_off(b: &mut BytesMut, at: usize) -> (rest: BytesMut)
    requires
        at <= bytes_contents(*old(b)).len(),
    ensures
        bytes_contents(*final(b)) == bytes_contents(*old(b)).take(at as int),
        bytes_contents(rest) == bytes_contents(*old(b)).skip(at as int),
{
    b.split_off(at)
}

/// The bytes received on a connection that do not yet make up a frame,
/// or that wait to be taken out as frames.
pub struct FrameBuffer {
    buf: BytesMut,
}

impl FrameBuffer {
    pub closed spec fn view(&self) -> Seq<u8> {
        bytes_contents(self.buf)
    }

    /// Nothing received.
    pub fn new() -> (res: Self)
        ensures
            res@ == Seq::<u8>::empty(),
    {
        FrameBuffer { buf: bytes_new() }
    }

    /// Number of buffered bytes.
    pub fn len(&self) -> (n: usize)
        ensures
            n == self@.len(),
    {
        bytes_as_slice(&self.buf).len()
    }

    /// Appends received bytes; the buffer must stay within `isize::MAX`
    /// bytes.
    pub fn extend(&mut self, bytes: &[u8])
        requires
            old(self)@.len() + bytes@.len() <= isize::MAX,
        ensures
            final(self)@ == old(self)@ + bytes@,
    {
        bytes_extend(&mut self.buf, bytes);
    }

    /// Drops everything buffered, as when the connection is lost.
    pub fn clear(&mut self)
        ensures
            final(self)@ == Seq::<u8>::empty(),
    {
        bytes_clear(&mut self.buf);
    }

    /// Takes the first frame out of the buffer: `Ok(None)` while it is not
    /// fully received, leaving the buffer as it is; an error leaves the
    /// buffer as it is too.
    pub fn next_frame(&mut self) -> (res: Result<Option<OwnedFrame>, RpcError>)
        ensures
            match spec_decode_frame(old(self)@) {
                Ok(None) => res matches Ok(None) && final(self)@ == old(self)@,
                Ok(Some((sf, n))) => res matches Ok(Some(f)) && f@ == sf && final(self)@ == old(
                    self,
                )@.skip(n),
                Err(se) => res matches Err(e) && e == se && final(self)@ == old(self)@,
            },
    {
        let decoded = decode_frame(bytes_as_slice(&self.buf));
        match decoded {
            Err(e) => Err(e),
            Ok(None) => Ok(None),
            Ok(Some((frame, used))) => {
                let mut body: Vec<u8> = Vec::new();
                body.extend_from_slice(frame.body);
                let owned = OwnedFrame { key: frame.key, id: frame.id, body };
                let len = bytes_as_slice(&self.buf).len();
                if len > used {
                    let rest = bytes_split_off(&mut self.buf, used);
                    self.buf = rest;
                } else {
                    bytes_clear(&mut self.buf);
                    assert(old(self)@.skip(used as int) =~= Seq::<u8>::empty());
                }
                assert(spec_decode_frame(old(self)@) matches Ok(Some((sf, n))) && sf.key == owned@.key);
                assert(spec_decode_frame(old(self)@) matches Ok(Some((sf, n))) && sf.id == owned@.id);
                assert(spec_decode_frame(old(self)@) matches Ok(Some((sf, n))) && sf.body == owned@.body);
                Ok(Some(owned))
            },
        }
    }
}

/// Decoding what `encode_frame` produced gives back the same key, request id
/// and body, and consumes exactly the frame, whatever bytes follow it: a
/// `FrameBuffer` that holds the frame and then `rest` hands out the frame
/// and keeps `rest`.
pub proof fn lemma_decode_encode_roundtrip(
    key: Seq<char>,
    id: Option<Seq<u8>>,
    body: Seq<u8>,
    rest: Seq<u8>,
)
    requires
        encode_utf8(key).len() <= u8::MAX,
        body.len() <= u32::MAX,
        id matches Some(u) ==> u.len() == UUID_LEN,
    ensures
        ({
            let frame = spec_encode_frame(key, id, body);
            &&& spec_decode_frame(frame + rest) == Ok::<Option<(FrameView, int)>, RpcError>(
                Some((FrameView { key, id, body }, frame.len() as int)),
            )
            &&& (frame + rest).skip(frame.len() as int) == rest
        }),
{
    lemma_auto_spec_u32_to_from_le_bytes();
    let frame = spec_encode_frame(key, id, body);
    let buf = frame + rest;
    let kb = encode_utf8(key);
    let k = kb.len() as int;
    assert(buf[0] as int == k);
    assert(buf.subrange(1, k + 1) =~= kb);
    let tag_len: int = match id {
        None => 1,
        Some(_) => 1 + UUID_LEN as int,
    };
    let q = k + 1 + tag_len;
    match id {
        None => {
            assert(buf[k + 1] == 0u8);
        },
        Some(u) => {
            assert(buf[k + 1] == 1u8);
            assert(buf.subrange(k + 2, k + 2 + UUID_LEN) =~= u);
        },
    }
    let lb = spec_u32_to_le_bytes(body.len() as u32);
    assert(buf.subrange(q, q + 4) =~= lb);
    assert(le_u32(buf.subrange(q, q + 4)) == body.len());
    assert(buf.subrange(q + 4, q + 4 + body.len()) =~= body);
    assert(frame.len() == q + 4 + body.len());
    assert(buf.skip(frame.len() as int) =~= rest);
}

/// Any proper prefix of an encoded frame is reported as incomplete, never as
/// an error: the reader keeps waiting for the rest.
pub proof fn lemma_decode_prefix_incomplete(
    key: Seq<char>,
    id: Option<Seq<u8>>,
    body: Seq<u8>,
    n: int,
)
    requires
        encode_utf8(key).len() <= u8::MAX,
        body.len() <= u32::MAX,
        id matches Some(u) ==> u.len() == UUID_LEN,
        0 <= n < spec_encode_frame(key, id, body).len(),
    ensures
        spec_decode_frame(spec_encode_frame(key, id, body).take(n)) == Ok::<
            Option<(FrameView, int)>,
            RpcError,
        >(None),
{
    lemma_auto_spec_u32_to_from_le_bytes();
    let frame = spec_encode_frame(key, id, body);
    let buf = frame.take(n);
    if n > 0 {
        let kb = encode_utf8(key);
        let k = kb.len() as int;
        assert(buf[0] as int == k);
        if n - 1 >= k {
            assert(buf.subrange(1, k + 1) =~= kb);
            let tag_len: int = match id {
                None => 1,
                Some(_) => 1 + UUID_LEN as int,
            };
            let q = k + 1 + tag_len;
            if n > k + 1 {
                match id {
                    None => {
                        assert(buf[k + 1] == 0u8);
                    },
                    Some(u) => {
                        assert(buf[k + 1] == 1u8);
                    },
                }
            }
            if n >= q + 4 {
                let lb = spec_u32_to_le_bytes(body.len() as u32);
                assert(buf.subrange(q, q + 4) =~= lb);
                assert(le_u32(buf.subrange(q, q + 4)) == body.len());
            }
        }
    }
}

} // verus!
