//! A chunk: a type code and a payload, sealed with the checksum of both.

use vstd::prelude::*;
use vstd::slice::slice_subrange;
use crate::checksum::{checksum, crc32_ieee};
use crate::chunk_type::ChunkType;
use crate::error::Error;
use crate::frame::{
    be_bytes, be_value, checked_region, checksum_input, decode, encode, frame_bytes,
    lemma_be_bytes_of_value, lemma_frame_of_split, lemma_split_of_frame, length_field,
    length_of, split_frame, FrameView, OVERHEAD,
};
use crate::text::{decode_text, text_of, text_view};

verus! {

/// The chunk that a type code and a payload make: its checksum is the
/// CRC-32 of the type code followed by the payload.
pub open spec fn sealed(chunk_type: Seq<u8>, data: Seq<u8>) -> FrameView {
    FrameView { chunk_type, data, crc: crc32_ieee(chunk_type + data) }
}

/// The wire bytes of a chunk.
pub open spec fn serialize(c: FrameView) -> Seq<u8> {
    frame_bytes(c.chunk_type, c.data, c.crc)
}

/// What reading a chunk from `bytes` gives. The buffer must split into the
/// parts of a frame, and the checksum that the frame carries must be the
/// checksum of its type code and payload.
pub open spec fn parse(bytes: Seq<u8>) -> Result<FrameView, Error> {
    match split_frame(bytes) {
        Err(e) => Err(e),
        Ok(f) => if f.crc == crc32_ieee(f.chunk_type + f.data) {
            Ok(f)
        } else {
            Err(Error::ChecksumMismatch)
        },
    }
}

/// The view of the result of parsing: the chunk's parts, or the error.
pub open spec fn parsed_view(r: Result<Chunk, Error>) -> Result<FrameView, Error> {
    match r {
        Ok(c) => Ok(c@),
        Err(e) => Err(e),
    }
}

/// What comparing the checksum stored in a frame with the one computed from
/// its content gives.
pub open spec fn checksum_verdict(stored: u32, computed: u32) -> Result<(), Error> {
    if stored == computed {
        Ok(())
    } else {
        Err(Error::ChecksumMismatch)
    }
}

/// Accepts a frame whose stored checksum is the computed one and refuses
/// every other.
pub fn verify_checksum(stored: u32, computed: u32) -> (r: Result<(), Error>)
    ensures
        r == checksum_verdict(stored, computed),
{
    if stored != computed {
        return Err(Error::ChecksumMismatch);
    }
    Ok(())
}

/// A type code with its payload and the checksum of both. The checksum of
/// every chunk is the right one: a chunk is made from its parts, which
/// computes the checksum, or parsed from bytes, which verifies it.
#[derive(Debug)]
pub struct Chunk {
    chunk_type: ChunkType,
    data: Vec<u8>,
    crc: u32,
}

impl View for Chunk {
    type V = FrameView;

    closed spec fn view(&self) -> FrameView {
        FrameView { chunk_type: self.chunk_type@, data: self.data@, crc: self.crc }
    }
}

impl Chunk {
    #[verifier::type_invariant]
    spec fn checksum_holds(&self) -> bool {
        self.crc == crc32_ieee(self.chunk_type@ + self.data@)
    }

    /// The length that [`Chunk::length`] reports: the payload's byte count,
    /// as far as 32 bits hold it.
    pub open spec fn spec_length(&self) -> u32 {
        length_field(self@.data.len())
    }

    /// Makes a chunk from a type code and a payload of any length, and
    /// seals it with the CRC-32 of the type code followed by the payload.
    pub fn new(chunk_type: ChunkType, data: Vec<u8>) -> (c: Chunk)
        ensures
            c@ == sealed(chunk_type@, data@),
            c@.crc == crc32_ieee(chunk_type@ + data@),
            data@.len() <= u32::MAX ==> c.spec_length() == data@.len(),
    {
        let input = checksum_input(&chunk_type, data.as_slice());
        let crc = checksum(input.as_slice());
        Chunk { chunk_type, data, crc }
    }

    /// Reads a chunk from a buffer that holds exactly one frame. A buffer
    /// of fewer than twelve bytes is too short; a length field that does
    /// not account for the rest of the buffer is a mismatch; and a stored
    /// checksum that differs from the computed one is refused.
    pub fn try_from(value: &[u8]) -> (r: Result<Chunk, Error>)
        ensures
            parsed_view(r) == parse(value@),
            value@.len() < OVERHEAD ==> parsed_view(r) == Err::<FrameView, Error>(
                Error::TooShort,
            ),
            value@.len() >= OVERHEAD && value@.len() - be_value(value@.subrange(0, 4))
                != OVERHEAD ==> parsed_view(r) == Err::<FrameView, Error>(
                Error::LengthMismatch,
            ),
            r is Ok ==> serialize(r->Ok_0@) == value@,
    {
        let frame = match decode(value) {
            Ok(f) => f,
            Err(e) => {
                return Err(e);
            },
        };
        let covered = slice_subrange(value, 4, value.len() - 4);
        let computed = checksum(covered);
        proof {
            lemma_frame_of_split(value@);
            assert(checked_region(value@) =~= frame@.chunk_type + frame@.data);
        }
        match verify_checksum(frame.crc, computed) {
            Ok(()) => {},
            Err(e) => {
                return Err(e);
            },
        }
        Ok(Chunk { chunk_type: frame.chunk_type, data: frame.data, crc: frame.crc })
    }

    /// The payload's byte count. A count that 32 bits cannot hold loses its
    /// high bits, as it does in the length field of the frame.
    #[verifier::when_used_as_spec(spec_length)]
    pub fn length(&self) -> (r: u32)
        ensures
            r == self.spec_length(),
            self@.data.len() <= u32::MAX ==> r == self@.data.len(),
    {
        length_of(self.data.len())
    }

    /// The type code.
    pub fn chunk_type(&self) -> (r: &ChunkType)
        ensures
            r@ == self@.chunk_type,
    {
        &self.chunk_type
    }

    /// The payload.
    pub fn data(&self) -> (r: &[u8])
        ensures
            r@ == self@.data,
    {
        self.data.as_slice()
    }

    /// The checksum, which is the CRC-32 of the type code followed by the
    /// payload.
    pub fn crc(&self) -> (r: u32)
        ensures
            r == self@.crc,
            r == crc32_ieee(self@.chunk_type + self@.data),
    {
        proof {
            use_type_invariant(self);
        }
        self.crc
    }

    /// The payload as text. Fails with [`Error::EncodingError`] when the
    /// payload is not valid UTF-8.
    pub fn data_as_string(&self) -> (r: Result<String, Error>)
        ensures
            text_view(r) == text_of(self@.data),
    {
        decode_text(vstd::slice::slice_to_vec(self.data.as_slice()))
    }

    /// The wire bytes of the chunk: the payload's length, the type code,
    /// the payload and the checksum, the two integers big-endian.
    pub fn as_bytes(&self) -> (r: Vec<u8>)
        ensures
            r@ == serialize(self@),
            r@.len() == OVERHEAD + self@.data.len(),
    {
        encode(&self.chunk_type, self.data.as_slice(), self.crc)
    }
}

/// Parsing the wire bytes of a chunk gives the chunk back: the same type
/// code, payload and checksum. The payload must be one whose length the
/// length field can hold.
pub proof fn lemma_round_trip(chunk_type: Seq<u8>, data: Seq<u8>)
    requires
        chunk_type.len() == 4,
        data.len() <= u32::MAX,
    ensures
        parse(serialize(sealed(chunk_type, data))) == Ok::<FrameView, Error>(
            sealed(chunk_type, data),
        ),
{
    lemma_split_of_frame(chunk_type, data, crc32_ieee(chunk_type + data));
}

/// A buffer that parses is the wire form of the chunk it parses to, and
/// that chunk carries the checksum of its own content.
pub proof fn lemma_parsed_is_sealed(bytes: Seq<u8>)
    requires
        parse(bytes) is Ok,
    ensures
        ({
            let c = parse(bytes)->Ok_0;
            &&& c == sealed(c.chunk_type, c.data)
            &&& serialize(c) == bytes
        }),
{
    lemma_frame_of_split(bytes);
}

/// The byte `b` with one of its eight bits inverted.
pub open spec fn flip_bit(b: u8, bit: u8) -> u8 {
    b ^ (1u8 << bit)
}

/// The buffer `bytes` with one bit of the byte at `index` inverted.
pub open spec fn tampered(bytes: Seq<u8>, index: int, bit: u8) -> Seq<u8> {
    bytes.update(index, flip_bit(bytes[index], bit))
}

/// Inverting a bit changes the byte.
pub proof fn lemma_flip_changes(b: u8, bit: u8)
    requires
        bit < 8,
    ensures
        flip_bit(b, bit) != b,
{
    assert(bit < 8 ==> b ^ (1u8 << bit) != b) by (bit_vector);
}

/// A frame whose stored checksum is not the checksum of its type code and
/// payload is refused as a checksum mismatch.
pub proof fn lemma_wrong_checksum_refused(chunk_type: Seq<u8>, data: Seq<u8>, crc: u32)
    requires
        chunk_type.len() == 4,
        data.len() <= u32::MAX,
        crc != crc32_ieee(chunk_type + data),
    ensures
        parse(frame_bytes(chunk_type, data, crc)) == Err::<FrameView, Error>(
            Error::ChecksumMismatch,
        ),
{
    lemma_split_of_frame(chunk_type, data, crc);
}

/// Inverting any one bit of the checksum field of a chunk's wire bytes
/// makes parsing fail with a checksum mismatch.
pub proof fn lemma_checksum_tamper_detected(
    chunk_type: Seq<u8>,
    data: Seq<u8>,
    index: int,
    bit: u8,
)
    requires
        chunk_type.len() == 4,
        data.len() <= u32::MAX,
        8 + data.len() <= index < OVERHEAD + data.len(),
        bit < 8,
    ensures
        parse(tampered(serialize(sealed(chunk_type, data)), index, bit)) == Err::<
            FrameView,
            Error,
        >(Error::ChecksumMismatch),
{
    let crc = crc32_ieee(chunk_type + data);
    let bytes = serialize(sealed(chunk_type, data));
    let changed = tampered(bytes, index, bit);
    let n = bytes.len() as int;
    let tail = bytes.subrange(n - 4, n);
    let new_tail = changed.subrange(n - 4, n);
    let new_crc = be_value(new_tail);
    lemma_flip_changes(bytes[index], bit);
    assert(tail =~= be_bytes(crc));
    assert(new_tail[index - (n - 4)] != tail[index - (n - 4)]);
    lemma_be_bytes_of_value(new_tail);
    assert(new_crc != crc);
    assert(changed =~= frame_bytes(chunk_type, data, new_crc)) by {
        assert(changed.subrange(0, n - 4) =~= bytes.subrange(0, n - 4));
        assert(changed =~= bytes.subrange(0, n - 4) + new_tail);
        assert(bytes.subrange(0, n - 4) =~= be_bytes(length_field(data.len()))
            + chunk_type + data);
    }
    lemma_wrong_checksum_refused(chunk_type, data, new_crc);
}

/// Inverting any one bit of the payload of a chunk's wire bytes makes
/// parsing fail with a checksum mismatch, unless the changed content has
/// the very checksum that the frame carries; then the changed chunk is read.
pub proof fn lemma_payload_tamper_detected(
    chunk_type: Seq<u8>,
    data: Seq<u8>,
    index: int,
    bit: u8,
)
    requires
        chunk_type.len() == 4,
        data.len() <= u32::MAX,
        8 <= index < 8 + data.len(),
        bit < 8,
    ensures
        ({
            let crc = crc32_ieee(chunk_type + data);
            let changed = tampered(data, index - 8, bit);
            let r = parse(tampered(serialize(sealed(chunk_type, data)), index, bit));
            &&& changed != data
            &&& crc32_ieee(chunk_type + changed) != crc ==> r == Err::<FrameView, Error>(
                Error::ChecksumMismatch,
            )
            &&& crc32_ieee(chunk_type + changed) == crc ==> r == Ok::<FrameView, Error>(
                FrameView { chunk_type, data: changed, crc },
            )
        }),
{
    let crc = crc32_ieee(chunk_type + data);
    let changed = tampered(data, index - 8, bit);
    let bytes = serialize(sealed(chunk_type, data));
    lemma_flip_changes(data[index - 8], bit);
    assert(changed[index - 8] != data[index - 8]);
    assert(bytes[index] == data[index - 8]);
    assert(tampered(bytes, index, bit) =~= frame_bytes(chunk_type, changed, crc));
    lemma_split_of_frame(chunk_type, changed, crc);
}

} // verus!
