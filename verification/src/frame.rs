//! The wire layout of a chunk: a length field, the type code, the payload
//! and the checksum field, with both fields as big-endian 32-bit integers.
//!
//! This module only splits and joins bytes. Whether the checksum that a
//! frame carries is the right one is decided in [`crate::chunk`].

use vstd::prelude::*;
use crate::chunk_type::ChunkType;
use crate::error::Error;

verus! {

/// The number of bytes that a frame holds besides its payload.
pub const OVERHEAD: usize = 12;

/// The four bytes of `x`, most significant first.
pub open spec fn be_bytes(x: u32) -> Seq<u8> {
    seq![
        (x / 0x100_0000) as u8,
        (x / 0x1_0000 % 0x100) as u8,
        (x / 0x100 % 0x100) as u8,
        (x % 0x100) as u8,
    ]
}

/// The integer whose big-endian bytes are the first four of `b`.
pub open spec fn be_value(b: Seq<u8>) -> u32
    recommends
        b.len() >= 4,
{
    (b[0] * 0x100_0000 + b[1] * 0x1_0000 + b[2] * 0x100 + b[3]) as u32
}

/// What the length field of a frame holds for a payload of `n` bytes: the
/// low 32 bits of `n`.
pub open spec fn length_field(n: nat) -> u32 {
    (n % 0x1_0000_0000) as u32
}

/// The parts of a frame, as mathematical values.
pub struct FrameView {
    pub chunk_type: Seq<u8>,
    pub data: Seq<u8>,
    pub crc: u32,
}

/// The bytes of the frame that holds the given type code, payload and
/// checksum.
pub open spec fn frame_bytes(chunk_type: Seq<u8>, data: Seq<u8>, crc: u32) -> Seq<u8> {
    be_bytes(length_field(data.len())) + chunk_type + data + be_bytes(crc)
}

/// The part of a frame that its checksum covers: the type code and the
/// payload.
pub open spec fn checked_region(bytes: Seq<u8>) -> Seq<u8>
    recommends
        bytes.len() >= OVERHEAD,
{
    bytes.subrange(4, bytes.len() - 4)
}

/// What splitting `bytes` into the parts of a frame gives. A buffer that
/// cannot hold an empty frame is too short; otherwise the buffer must be
/// exactly as long as its length field says, with nothing missing and
/// nothing left over.
pub open spec fn split_frame(bytes: Seq<u8>) -> Result<FrameView, Error> {
    if bytes.len() < OVERHEAD {
        Err(Error::TooShort)
    } else if bytes.len() - be_value(bytes.subrange(0, 4)) != OVERHEAD {
        Err(Error::LengthMismatch)
    } else {
        Ok(
            FrameView {
                chunk_type: bytes.subrange(4, 8),
                data: bytes.subrange(8, bytes.len() - 4),
                crc: be_value(bytes.subrange(bytes.len() - 4, bytes.len() as int)),
            },
        )
    }
}

/// Reading back the big-endian bytes of an integer gives the integer.
pub proof fn lemma_be_round_trip(x: u32)
    ensures
        be_bytes(x).len() == 4,
        be_value(be_bytes(x)) == x,
{
    let hi: int = (x / 0x1_0000) as int;
    let lo: int = (x % 0x1_0000) as int;
    assert(x == hi * 0x1_0000 + lo);
    assert(hi == (hi / 0x100) * 0x100 + hi % 0x100);
    assert(lo == (lo / 0x100) * 0x100 + lo % 0x100);
    assert(x / 0x100_0000 == hi / 0x100);
    assert(x / 0x100 % 0x100 == lo / 0x100);
    assert(x % 0x100 == lo % 0x100);
}

/// Four bytes are the big-endian bytes of the integer they are read as.
pub proof fn lemma_be_bytes_of_value(b: Seq<u8>)
    requires
        b.len() == 4,
    ensures
        be_bytes(be_value(b)) == b,
{
    let hi: int = b[0] * 0x100 + b[1];
    let mid: int = hi * 0x100 + b[2];
    let all: int = mid * 0x100 + b[3];
    assert(all == b[0] * 0x100_0000 + b[1] * 0x1_0000 + b[2] * 0x100 + b[3]);
    assert(all / 0x100 == mid && all % 0x100 == b[3]);
    assert(mid / 0x100 == hi && mid % 0x100 == b[2]);
    assert(hi / 0x100 == b[0] && hi % 0x100 == b[1]);
    assert(all / 0x1_0000 == hi);
    assert(all / 0x100_0000 == b[0]);
    assert(be_value(b) == all);
    assert(be_bytes(be_value(b)) =~= b);
}

/// The big-endian bytes of `x`.
pub fn u32_to_be(x: u32) -> (r: [u8; 4])
    ensures
        r@ == be_bytes(x),
{
    let r = [
        (x / 0x100_0000) as u8,
        (x / 0x1_0000 % 0x100) as u8,
        (x / 0x100 % 0x100) as u8,
        (x % 0x100) as u8,
    ];
    assert(r@ =~= be_bytes(x));
    r
}

/// The integer that the four bytes of `bytes` from `at` on spell, most
/// significant byte first.
pub fn u32_from_be(bytes: &[u8], at: usize) -> (r: u32)
    requires
        at + 4 <= bytes@.len(),
    ensures
        r == be_value(bytes@.subrange(at as int, at + 4)),
{
    let b0 = bytes[at] as u32;
    let b1 = bytes[at + 1] as u32;
    let b2 = bytes[at + 2] as u32;
    let b3 = bytes[at + 3] as u32;
    b0 * 0x100_0000 + b1 * 0x1_0000 + b2 * 0x100 + b3
}

/// The parts of a frame as they were read off the wire. The checksum is the
/// one that the frame carried; nothing says yet that it is the right one.
#[derive(Debug)]
pub struct Frame {
    pub chunk_type: ChunkType,
    pub data: Vec<u8>,
    pub crc: u32,
}

impl View for Frame {
    type V = FrameView;

    open spec fn view(&self) -> FrameView {
        FrameView { chunk_type: self.chunk_type@, data: self.data@, crc: self.crc }
    }
}

/// The view of the result of decoding: the parts of the frame, or the error.
pub open spec fn decoded_view(r: Result<Frame, Error>) -> Result<FrameView, Error> {
    match r {
        Ok(f) => Ok(f@),
        Err(e) => Err(e),
    }
}

/// The length field for a payload of `n` bytes.
pub fn length_of(n: usize) -> (r: u32)
    ensures
        r == length_field(n as nat),
        n <= u32::MAX ==> r == n,
{
    (n as u64 % 0x1_0000_0000) as u32
}

/// Appends the bytes of `part` to `out`.
fn append(out: &mut Vec<u8>, part: &[u8])
    ensures
        final(out)@ == old(out)@ + part@,
{
    let ghost before = out@;
    let mut i: usize = 0;
    while i < part.len()
        invariant
            i <= part@.len(),
            out@ == before + part@.subrange(0, i as int),
        decreases part@.len() - i,
    {
        out.push(part[i]);
        i += 1;
        assert(out@ =~= before + part@.subrange(0, i as int));
    }
    assert(part@.subrange(0, part@.len() as int) =~= part@);
}

/// The bytes that a checksum is computed over: the type code, then the
/// payload.
pub fn checksum_input(chunk_type: &ChunkType, data: &[u8]) -> (r: Vec<u8>)
    ensures
        r@ == chunk_type@ + data@,
{
    let mut out: Vec<u8> = Vec::new();
    append(&mut out, chunk_type.bytes.as_slice());
    append(&mut out, data);
    assert(out@ =~= chunk_type@ + data@);
    out
}

/// Lays out a frame: the length of the payload, the type code, the payload
/// and the checksum, `12 + data.len()` bytes in all.
pub fn encode(chunk_type: &ChunkType, data: &[u8], crc: u32) -> (r: Vec<u8>)
    ensures
        r@ == frame_bytes(chunk_type@, data@, crc),
        r@.len() == OVERHEAD + data@.len(),
{
    let length = u32_to_be(length_of(data.len()));
    let checksum = u32_to_be(crc);
    let mut out: Vec<u8> = Vec::new();
    append(&mut out, length.as_slice());
    append(&mut out, chunk_type.bytes.as_slice());
    append(&mut out, data);
    append(&mut out, checksum.as_slice());
    out
}

/// Splits a buffer into the parts of the one frame that it must hold.
pub fn decode(bytes: &[u8]) -> (r: Result<Frame, Error>)
    ensures
        decoded_view(r) == split_frame(bytes@),
{
    let len = bytes.len();
    if len < OVERHEAD {
        return Err(Error::TooShort);
    }
    let declared = u32_from_be(bytes, 0);
    let payload_len = len - OVERHEAD;
    if payload_len as u64 != declared as u64 {
        return Err(Error::LengthMismatch);
    }
    let code = [bytes[4], bytes[5], bytes[6], bytes[7]];
    let chunk_type = match ChunkType::try_from(code) {
        Ok(t) => t,
        Err(e) => {
            return Err(e);
        },
    };
    let mut data: Vec<u8> = Vec::new();
    append(&mut data, vstd::slice::slice_subrange(bytes, 8, 8 + payload_len));
    let crc = u32_from_be(bytes, 8 + payload_len);
    assert(chunk_type@ =~= bytes@.subrange(4, 8));
    assert(data@ =~= bytes@.subrange(8, len - 4));
    Ok(Frame { chunk_type, data, crc })
}

/// Decoding the frame that holds given parts gives those parts back, as
/// long as the payload's length fits the length field.
pub proof fn lemma_split_of_frame(chunk_type: Seq<u8>, data: Seq<u8>, crc: u32)
    requires
        chunk_type.len() == 4,
        data.len() <= u32::MAX,
    ensures
        split_frame(frame_bytes(chunk_type, data, crc)) == Ok::<FrameView, Error>(
            FrameView { chunk_type, data, crc },
        ),
{
    let bytes = frame_bytes(chunk_type, data, crc);
    let n = length_field(data.len());
    lemma_be_round_trip(n);
    lemma_be_round_trip(crc);
    assert(bytes.len() == OVERHEAD + data.len());
    assert(bytes.subrange(0, 4) =~= be_bytes(n));
    assert(bytes.subrange(4, 8) =~= chunk_type);
    assert(bytes.subrange(8, bytes.len() - 4) =~= data);
    assert(bytes.subrange(bytes.len() - 4, bytes.len() as int) =~= be_bytes(crc));
}

/// A buffer that splits into parts is the frame of those parts: no two
/// buffers hold the same frame.
pub proof fn lemma_frame_of_split(bytes: Seq<u8>)
    requires
        split_frame(bytes) is Ok,
    ensures
        ({
            let f = split_frame(bytes)->Ok_0;
            &&& f.chunk_type.len() == 4
            &&& f.data.len() == bytes.len() - OVERHEAD
            &&& f.data.len() <= u32::MAX
            &&& frame_bytes(f.chunk_type, f.data, f.crc) == bytes
        }),
{
    let f = split_frame(bytes)->Ok_0;
    let head = bytes.subrange(0, 4);
    let tail = bytes.subrange(bytes.len() - 4, bytes.len() as int);
    lemma_be_bytes_of_value(head);
    lemma_be_bytes_of_value(tail);
    assert(length_field(f.data.len()) == be_value(head));
    assert(frame_bytes(f.chunk_type, f.data, f.crc) =~= bytes);
}

} // verus!
