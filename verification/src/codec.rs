//! Framing: how payloads are laid out on the wire.
//!
//! ```text
//! [u32, big endian: length of the payload][payload]
//! ```
//!
//! The length does not count itself. What a payload says is not looked at
//! here.
use bytes::{Buf, BufMut, BytesMut};
use vstd::prelude::*;
use vstd::string::*;

use crate::frame::{FrameView, MAX_FRAME_LEN};
use crate::text;

verus! {

/// Length of the size header in bytes.
pub const HEADER_LEN: usize = 4;

// ── The buffer ───────────────────────────────────────────────────────────
/// `bytes::BytesMut`: a growing buffer of bytes.
#[verifier::external_type_specification]
#[verifier::external_body]
pub struct ExBytesMut(bytes::BytesMut);

/// The bytes that a buffer holds.
pub uninterp spec fn buffered(b: BytesMut) -> Seq<u8>;

/// The number of bytes. Calls `BytesMut::len`.
#[verifier::external_body]
fn buf_len(b: &BytesMut) -> (r: usize)
    ensures
        r == buffered(*b).len(),
{
    b.len()
}

/// One byte. Indexes the slice that `BytesMut` dereferences to.
#[verifier::external_body]
fn buf_byte(b: &BytesMut, i: usize) -> (r: u8)
    requires
        i < buffered(*b).len(),
    ensures
        r == buffered(*b)[i as int],
{
    b[i]
}

/// Makes room for more bytes. Calls `BytesMut::reserve`, which keeps the
/// contents.
#[verifier::external_body]
fn buf_reserve(b: &mut BytesMut, n: usize)
    requires
        buffered(*old(b)).len() + n <= isize::MAX,
    ensures
        buffered(*final(b)) == buffered(*old(b)),
{
    b.reserve(n);
}

/// Drops bytes at the front. Calls `BytesMut::advance`.
#[verifier::external_body]
fn buf_advance(b: &mut BytesMut, n: usize)
    requires
        n <= buffered(*old(b)).len(),
    ensures
        buffered(*final(b)) == buffered(*old(b)).skip(n as int),
{
    b.advance(n);
}

/// Takes bytes off the front. Calls `BytesMut::split_to`.
#[verifier::external_body]
fn buf_take(b: &mut BytesMut, n: usize) -> (r: Vec<u8>)
    requires
        n <= buffered(*old(b)).len(),
    ensures
        r@ == buffered(*old(b)).take(n as int),
        buffered(*final(b)) == buffered(*old(b)).skip(n as int),
{
    b.split_to(n).to_vec()
}

/// Appends a number. Calls `BufMut::put_u32`, which writes the most
/// significant byte first.
#[verifier::external_body]
fn buf_put_u32(b: &mut BytesMut, n: u32)
    requires
        buffered(*old(b)).len() + 4 <= isize::MAX,
    ensures
        buffered(*final(b)) == buffered(*old(b)) + be32(n),
{
    b.put_u32(n);
}

/// Appends bytes. Calls `BufMut::put_slice`.
#[verifier::external_body]
fn buf_put_slice(b: &mut BytesMut, v: &Vec<u8>)
    requires
        buffered(*old(b)).len() + v@.len() <= isize::MAX,
    ensures
        buffered(*final(b)) == buffered(*old(b)) + v@,
{
    b.put_slice(v);
}

// ── The layout ───────────────────────────────────────────────────────────
/// A number in four bytes, the most significant first.
pub open spec fn be32(n: u32) -> Seq<u8> {
    seq![
        (n / 0x100_0000) as u8,
        (n / 0x1_0000 % 0x100) as u8,
        (n / 0x100 % 0x100) as u8,
        (n % 0x100) as u8,
    ]
}

/// The number in the first four bytes.
pub open spec fn be32_value(b: Seq<u8>) -> int {
    b[0] * 0x100_0000 + b[1] * 0x1_0000 + b[2] * 0x100 + b[3]
}

/// Reading a number back.
pub proof fn lemma_be32(n: u32)
    ensures
        be32(n).len() == 4,
        be32_value(be32(n)) == n,
{
    assert(n / 0x100_0000 < 0x100);
    assert(n == n / 0x100_0000 * 0x100_0000 + n / 0x1_0000 % 0x100 * 0x1_0000 + n / 0x100 % 0x100
        * 0x100 + n % 0x100);
}

/// A payload with its header.
pub open spec fn framed(payload: Seq<u8>) -> Seq<u8> {
    be32((payload.len() % 0x1_0000_0000) as u32) + payload
}

/// What can be read off the front of a stream.
#[verifier::ext_equal]
pub enum Decoded {
    /// Nothing yet.
    More,
    /// A header that announces this much, which is too much.
    TooLarge(int),
    /// A payload, and what follows it.
    Payload(Seq<u8>, Seq<u8>),
}

/// Reads the front of a stream, with payloads of at most `max` bytes.
pub open spec fn decoded(max: nat, bytes: Seq<u8>) -> Decoded {
    if bytes.len() < 4 {
        Decoded::More
    } else {
        let n = be32_value(bytes);
        if n > max {
            Decoded::TooLarge(n)
        } else if bytes.len() < 4 + n {
            Decoded::More
        } else {
            Decoded::Payload(bytes.subrange(4, 4 + n), bytes.skip(4 + n))
        }
    }
}

/// Why a payload could not be sent or read.
#[derive(Debug, Clone, PartialEq, Eq)]
pub enum ProtoError {
    /// The length, and the longest that is accepted.
    FrameTooLarge(usize, usize),
    /// The payload could not be written or read.
    Postcard(String),
    /// The transport failed.
    Io(String),
}

/// The content of a [`ProtoError`].
#[verifier::ext_equal]
pub enum ProtoErrorView {
    FrameTooLarge(usize, usize),
    Postcard(Seq<char>),
    Io(Seq<char>),
}

impl DeepView for ProtoError {
    type V = ProtoErrorView;

    open spec fn deep_view(&self) -> ProtoErrorView {
        match self {
            ProtoError::FrameTooLarge(n, max) => ProtoErrorView::FrameTooLarge(*n, *max),
            ProtoError::Postcard(m) => ProtoErrorView::Postcard(m@),
            ProtoError::Io(m) => ProtoErrorView::Io(m@),
        }
    }
}

impl ProtoErrorView {
    /// The message.
    pub open spec fn chars(self) -> Seq<char> {
        match self {
            ProtoErrorView::FrameTooLarge(n, max) => "frame too large: declared "@ + text::dec(
                n as nat,
            ) + " bytes, max allowed "@ + text::dec(max as nat),
            ProtoErrorView::Postcard(m) => "postcard codec: "@ + m,
            ProtoErrorView::Io(m) => "io: "@ + m,
        }
    }
}

impl ProtoError {
    /// The message.
    pub fn to_text(&self) -> (r: String)
        ensures
            r@ == self.deep_view().chars(),
    {
        match self {
            ProtoError::FrameTooLarge(n, max) => {
                let a = text::dec_text(*n as u64);
                let b = text::dec_text(*max as u64);
                let s = text::join3("frame too large: declared ", a.as_str(), " bytes, max allowed ");
                text::join2(s.as_str(), b.as_str())
            },
            ProtoError::Postcard(m) => text::join2("postcard codec: ", m.as_str()),
            ProtoError::Io(m) => text::join2("io: ", m.as_str()),
        }
    }
}

/// Puts payloads on a stream and takes them off, up to a maximum length.
#[derive(Debug, Clone)]
pub struct FrameCodec {
    max_len: usize,
}

impl View for FrameCodec {
    type V = usize;

    closed spec fn view(&self) -> usize {
        self.max_len
    }
}

impl Default for FrameCodec {
    fn default() -> (r: FrameCodec)
        ensures
            r@ == MAX_FRAME_LEN,
    {
        FrameCodec::new()
    }
}

impl FrameCodec {
    /// Accepts payloads up to [`MAX_FRAME_LEN`].
    pub fn new() -> (r: FrameCodec)
        ensures
            r@ == MAX_FRAME_LEN,
    {
        FrameCodec { max_len: MAX_FRAME_LEN }
    }

    /// Accepts payloads up to `max` bytes, both ways.
    pub fn with_max_len(max: usize) -> (r: FrameCodec)
        ensures
            r@ == max,
    {
        FrameCodec { max_len: max }
    }

    /// The longest payload that is accepted.
    pub fn max_len(&self) -> (r: usize)
        ensures
            r == self@,
    {
        self.max_len
    }

    /// Takes one payload off the front of a buffer. `None` where it is not all
    /// there yet; the buffer then stays as it is, and so it does where the
    /// payload is too long.
    pub fn decode(&self, src: &mut BytesMut) -> (r: Result<Option<Vec<u8>>, ProtoError>)
        ensures
            match decoded(self@ as nat, buffered(*old(src))) {
                Decoded::More => r == Ok::<Option<Vec<u8>>, ProtoError>(None) && buffered(
                    *final(src),
                ) == buffered(*old(src)),
                Decoded::TooLarge(n) => (r matches Err(e) && e.deep_view()
                    == ProtoErrorView::FrameTooLarge(n as usize, self@)) && buffered(*final(src))
                    == buffered(*old(src)),
                Decoded::Payload(p, rest) => (r matches Ok(Some(v)) && v@ == p) && buffered(
                    *final(src),
                ) == rest,
            },
    {
        let have: usize = buf_len(src);
        if have < HEADER_LEN {
            return Ok(None);
        }
        let ghost bytes = buffered(*src);
        let b0: u64 = buf_byte(src, 0) as u64;
        let b1: u64 = buf_byte(src, 1) as u64;
        let b2: u64 = buf_byte(src, 2) as u64;
        let b3: u64 = buf_byte(src, 3) as u64;
        let n: u64 = b0 * 0x100_0000 + b1 * 0x1_0000 + b2 * 0x100 + b3;
        assert(n == be32_value(bytes));
        if n > self.max_len as u64 {
            return Err(ProtoError::FrameTooLarge(n as usize, self.max_len));
        }
        let want: u64 = n + 4;
        if (have as u64) < want {
            if want <= isize::MAX as u64 {
                buf_reserve(src, (want - have as u64) as usize);
            }
            return Ok(None);
        }
        buf_advance(src, HEADER_LEN);
        let payload = buf_take(src, n as usize);
        assert(payload@ =~= bytes.subrange(4, 4 + n));
        assert(buffered(*src) =~= bytes.skip(4 + n));
        Ok(Some(payload))
    }

    /// Appends a payload with its header. A payload that is too long is
    /// refused, and the buffer stays as it is.
    pub fn encode(&self, payload: &Vec<u8>, dst: &mut BytesMut) -> (r: Result<(), ProtoError>)
        requires
            buffered(*old(dst)).len() + 4 + payload@.len() <= isize::MAX,
        ensures
            payload@.len() > self@ ==> (r matches Err(e) && e.deep_view()
                == ProtoErrorView::FrameTooLarge(payload@.len() as usize, self@)) && buffered(
                *final(dst),
            ) == buffered(*old(dst)),
            payload@.len() <= self@ ==> r is Ok && buffered(*final(dst)) == buffered(*old(dst))
                + framed(payload@),
    {
        let n: usize = payload.len();
        if n > self.max_len {
            return Err(ProtoError::FrameTooLarge(n, self.max_len));
        }
        let ghost before = buffered(*dst);
        let low: u32 = (n as u64 % 0x1_0000_0000) as u32;
        buf_put_u32(dst, low);
        buf_put_slice(dst, payload);
        assert(buffered(*dst) =~= before + framed(payload@));
        Ok(())
    }
}

// ── What comes out is what went in ───────────────────────────────────────
/// A payload that was put on a stream is read back, whatever follows it.
pub proof fn law_payload_is_read_back(max: nat, payload: Seq<u8>, rest: Seq<u8>)
    requires
        payload.len() <= max,
        payload.len() <= u32::MAX,
    ensures
        decoded(max, framed(payload) + rest) == Decoded::Payload(payload, rest),
{
    let n = payload.len() as u32;
    lemma_be32(n);
    let bytes = framed(payload) + rest;
    assert(payload.len() % 0x1_0000_0000 == payload.len());
    assert(be32_value(bytes) == be32_value(be32(n)));
    assert(bytes.subrange(4, 4int + payload.len()) =~= payload);
    assert(bytes.skip(4int + payload.len()) =~= rest);
}

/// While a payload is not all there, nothing is read.
pub proof fn law_partial_payload_waits(max: nat, payload: Seq<u8>, k: int)
    requires
        payload.len() <= max,
        payload.len() <= u32::MAX,
        0 <= k < framed(payload).len(),
    ensures
        decoded(max, framed(payload).take(k)) == Decoded::More,
{
    let n = payload.len() as u32;
    lemma_be32(n);
    let bytes = framed(payload).take(k);
    assert(payload.len() % 0x1_0000_0000 == payload.len());
    if k >= 4 {
        assert(be32_value(bytes) == be32_value(be32(n)));
    }
}

/// Several payloads, one after the other.
pub open spec fn framed_all(payloads: Seq<Seq<u8>>) -> Seq<u8>
    decreases payloads.len(),
{
    if payloads.len() == 0 {
        Seq::empty()
    } else {
        framed(payloads[0]) + framed_all(payloads.skip(1))
    }
}

/// The payloads that are read off a stream, one after the other, until there
/// is no whole one.
pub open spec fn decoded_all(max: nat, bytes: Seq<u8>) -> Seq<Seq<u8>>
    decreases bytes.len(),
{
    match decoded(max, bytes) {
        Decoded::Payload(p, rest) => if rest.len() < bytes.len() {
            seq![p] + decoded_all(max, rest)
        } else {
            Seq::empty()
        },
        _ => Seq::empty(),
    }
}

/// Several payloads come out as they went in, and in the same order.
pub proof fn law_stream_is_read_back(max: nat, payloads: Seq<Seq<u8>>)
    requires
        forall|i: int|
            0 <= i < payloads.len() ==> (#[trigger] payloads[i]).len() <= max && payloads[i].len()
                <= u32::MAX,
    ensures
        decoded_all(max, framed_all(payloads)) == payloads,
    decreases payloads.len(),
{
    if payloads.len() > 0 {
        let tail = payloads.skip(1);
        assert forall|i: int| 0 <= i < tail.len() implies (#[trigger] tail[i]).len() <= max
            && tail[i].len() <= u32::MAX by {
            assert(payloads[i + 1].len() <= max);
        }
        law_stream_is_read_back(max, tail);
        law_payload_is_read_back(max, payloads[0], framed_all(tail));
        assert(seq![payloads[0]] + tail =~= payloads);
    } else {
        assert(decoded_all(max, framed_all(payloads)) =~= payloads);
    }
}

/// The payloads of several frames, as a serialisation writes them.
pub open spec fn written(frames: Seq<FrameView>, write: spec_fn(FrameView) -> Seq<u8>) -> Seq<
    Seq<u8>,
> {
    frames.map_values(write)
}

/// What a serialisation reads from several payloads.
pub open spec fn understood(
    payloads: Seq<Seq<u8>>,
    read: spec_fn(Seq<u8>) -> Option<FrameView>,
) -> Seq<Option<FrameView>> {
    payloads.map_values(read)
}

/// With any serialisation that reads back what it writes, a frame comes off a
/// stream as it was put on, and exactly its own bytes are consumed.
pub proof fn law_frame_is_read_back(
    max: nat,
    frame: FrameView,
    rest: Seq<u8>,
    write: spec_fn(FrameView) -> Seq<u8>,
    read: spec_fn(Seq<u8>) -> Option<FrameView>,
)
    requires
        read(write(frame)) == Some(frame),
        write(frame).len() <= max,
        write(frame).len() <= u32::MAX,
    ensures
        decoded(max, framed(write(frame)) + rest) matches Decoded::Payload(p, left) && read(p)
            == Some(frame) && left == rest,
{
    law_payload_is_read_back(max, write(frame), rest);
}

/// With any serialisation that reads back what it writes, frames come off a
/// stream as they were put on, and in the same order.
pub proof fn law_frames_are_read_back(
    max: nat,
    frames: Seq<FrameView>,
    write: spec_fn(FrameView) -> Seq<u8>,
    read: spec_fn(Seq<u8>) -> Option<FrameView>,
)
    requires
        forall|i: int|
            0 <= i < frames.len() ==> read(write(#[trigger] frames[i])) == Some(frames[i]) && write(
                frames[i],
            ).len() <= max && write(frames[i]).len() <= u32::MAX,
    ensures
        understood(decoded_all(max, framed_all(written(frames, write))), read)
            == frames.map_values(|f: FrameView| Some(f)),
{
    let payloads = written(frames, write);
    assert forall|i: int| 0 <= i < payloads.len() implies (#[trigger] payloads[i]).len() <= max
        && payloads[i].len() <= u32::MAX by {
        assert(payloads[i] == write(frames[i]));
    }
    law_stream_is_read_back(max, payloads);
    assert(understood(payloads, read) =~= frames.map_values(|f: FrameView| Some(f)));
}

/// A payload that is announced as longer than what is accepted is refused as
/// soon as its header is there, whatever follows.
pub proof fn law_oversized_payload_is_refused(max: nat, n: u32, rest: Seq<u8>)
    requires
        n > max,
    ensures
        decoded(max, be32(n) + rest) == Decoded::TooLarge(n as int),
{
    lemma_be32(n);
    let b = be32(n) + rest;
    assert(b[0] == be32(n)[0] && b[1] == be32(n)[1] && b[2] == be32(n)[2] && b[3] == be32(n)[3]);
}

/// The header of a payload takes four bytes, and the payload follows as it is.
pub proof fn law_layout(payload: Seq<u8>)
    requires
        payload.len() <= u32::MAX,
    ensures
        framed(payload).len() == payload.len() + 4,
        framed(payload).skip(4) == payload,
        framed(payload)[0] * 0x100_0000 + framed(payload)[1] * 0x1_0000 + framed(payload)[2]
            * 0x100 + framed(payload)[3] == payload.len(),
{
    lemma_be32(payload.len() as u32);
    assert(framed(payload).skip(4) =~= payload);
    let h = be32(payload.len() as u32);
    assert(framed(payload)[0] == h[0] && framed(payload)[1] == h[1] && framed(payload)[2] == h[2]
        && framed(payload)[3] == h[3]);
}

/// What is said of a payload that could not be sent or read.
pub proof fn law_messages(n: usize, max: usize, m: Seq<char>)
    ensures
        ProtoErrorView::FrameTooLarge(n, max).chars() == "frame too large: declared "@ + text::dec(
            n as nat,
        ) + " bytes, max allowed "@ + text::dec(max as nat),
        ProtoErrorView::Postcard(m).chars() == "postcard codec: "@ + m,
        ProtoErrorView::Io(m).chars() == "io: "@ + m,
{
}

} // verus!
