//! The four-byte type code of a chunk and the flags carried by its letters.

use vstd::prelude::*;
use vstd::std_specs::cmp::PartialEqSpecImpl;
use vstd::string::StringSliceAdditionalSpecFns;
use vstd::utf8::{is_ascii_chars, is_ascii_chars_encode_utf8};
use crate::error::Error;
use crate::text::{all_ascii, ascii_chars, decode_text, lemma_ascii_is_text, text_of, text_view};

verus! {

/// Whether `b` is an ASCII letter, upper or lower case.
pub open spec fn is_letter(b: u8) -> bool {
    (0x41 <= b <= 0x5a) || (0x61 <= b <= 0x7a)
}

/// Whether bit 5 of `b`, counting from the least significant bit, is set.
/// In an ASCII letter this bit tells lower case from upper case.
pub open spec fn bit5(b: u8) -> bool {
    b & 0x20 != 0
}

/// Whether every byte of `bytes` is an ASCII letter.
pub open spec fn all_letters(bytes: Seq<u8>) -> bool {
    forall|i: int| 0 <= i < bytes.len() ==> is_letter(#[trigger] bytes[i])
}

/// Whether four bytes form a conformant type code: letters only, and the
/// reserved bit, bit 5 of the third byte, clear.
pub open spec fn valid_code(bytes: Seq<u8>) -> bool {
    all_letters(bytes) && !bit5(bytes[2])
}

/// What reading a type code from the UTF-8 bytes of a text gives: the bytes
/// themselves when they are four letters, and otherwise the error. The
/// length is judged before the letters are.
pub open spec fn code_of_text(bytes: Seq<u8>) -> Result<Seq<u8>, Error> {
    if bytes.len() != 4 {
        Err(Error::InvalidLength)
    } else if !all_letters(bytes) {
        Err(Error::InvalidCharacter)
    } else {
        Ok(bytes)
    }
}

/// The view of the result of reading a type code: the code's bytes, or the
/// error.
pub open spec fn code_view(r: Result<ChunkType, Error>) -> Result<Seq<u8>, Error> {
    match r {
        Ok(t) => Ok(t@),
        Err(e) => Err(e),
    }
}

/// In a letter, bit 5 is clear exactly when the letter is upper case.
pub proof fn lemma_case_is_bit5(b: u8)
    requires
        is_letter(b),
    ensures
        bit5(b) <==> 0x61 <= b <= 0x7a,
        !bit5(b) <==> 0x41 <= b <= 0x5a,
{
    assert(((0x41 <= b && b <= 0x5a) || (0x61 <= b && b <= 0x7a)) ==> ((b & 0x20 != 0) <==> (0x61
        <= b && b <= 0x7a))) by (bit_vector);
}

/// Executable form of [`is_letter`].
pub fn is_ascii_letter(b: u8) -> (r: bool)
    ensures
        r == is_letter(b),
{
    (b >= 0x41 && b <= 0x5a) || (b >= 0x61 && b <= 0x7a)
}

/// A four-byte chunk type code. Any four bytes can be held; whether they are
/// a conformant code is asked with [`ChunkType::is_valid`].
#[derive(Debug, Clone, Copy, Eq)]
pub struct ChunkType {
    pub bytes: [u8; 4],
}

impl View for ChunkType {
    type V = Seq<u8>;

    open spec fn view(&self) -> Seq<u8> {
        self.bytes@
    }
}

impl PartialEq for ChunkType {
    /// Two codes are equal when their four bytes are.
    fn eq(&self, other: &ChunkType) -> (r: bool) {
        let r = self.bytes[0] == other.bytes[0] && self.bytes[1] == other.bytes[1]
            && self.bytes[2] == other.bytes[2] && self.bytes[3] == other.bytes[3];
        proof {
            if r {
                assert(self.bytes@ =~= other.bytes@);
            }
        }
        r
    }
}

impl PartialEqSpecImpl for ChunkType {
    open spec fn obeys_eq_spec() -> bool {
        true
    }

    open spec fn eq_spec(&self, other: &ChunkType) -> bool {
        self.bytes@ == other.bytes@
    }
}

impl ChunkType {
    /// Wraps four raw bytes as they are. Nothing is checked here, so this
    /// never fails.
    pub fn try_from(value: [u8; 4]) -> (r: Result<ChunkType, Error>)
        ensures
            r == Ok::<ChunkType, Error>(ChunkType { bytes: value }),
    {
        Ok(ChunkType { bytes: value })
    }

    /// Reads a type code from text: the text must be four bytes long, each
    /// of them an ASCII letter. The letters are kept as they are, case
    /// included.
    pub fn from_str(s: &str) -> (r: Result<ChunkType, Error>)
        ensures
            code_view(r) == code_of_text(s.spec_bytes()),
            is_ascii_chars(s@) ==> s.spec_bytes() == Seq::new(s@.len(), |i: int| s@[i] as u8),
    {
        let b = s.as_bytes();
        proof {
            if is_ascii_chars(s@) {
                is_ascii_chars_encode_utf8(s@);
                assert(s.spec_bytes() =~= Seq::new(s@.len(), |i: int| s@[i] as u8));
            }
        }
        if b.len() != 4 {
            return Err(Error::InvalidLength);
        }
        let mut i: usize = 0;
        while i < 4
            invariant
                b@.len() == 4,
                b@ == s.spec_bytes(),
                is_ascii_chars(s@) ==> s.spec_bytes() == Seq::new(s@.len(), |i: int| s@[i] as u8),
                i <= 4,
                forall|j: int| 0 <= j < i ==> is_letter(#[trigger] b@[j]),
            decreases 4 - i,
        {
            if !is_ascii_letter(b[i]) {
                return Err(Error::InvalidCharacter);
            }
            i += 1;
        }
        let t = ChunkType { bytes: [b[0], b[1], b[2], b[3]] };
        assert(t@ =~= b@);
        Ok(t)
    }

    /// The four bytes of the code.
    pub fn bytes(&self) -> (r: &[u8; 4])
        ensures
            *r == self.bytes,
    {
        &self.bytes
    }

    /// Whether the code is conformant: all four bytes are ASCII letters and
    /// the reserved bit is clear.
    pub fn is_valid(&self) -> (r: bool)
        ensures
            r == valid_code(self@),
    {
        let mut i: usize = 0;
        while i < 4
            invariant
                i <= 4,
                forall|j: int| 0 <= j < i ==> is_letter(#[trigger] self@[j]),
            decreases 4 - i,
        {
            if !is_ascii_letter(self.bytes[i]) {
                return false;
            }
            i += 1;
        }
        self.is_reserved_bit_valid()
    }

    /// A chunk is critical when bit 5 of the first byte is clear; otherwise
    /// it is ancillary.
    pub fn is_critical(&self) -> (r: bool)
        ensures
            r == !bit5(self@[0]),
    {
        (self.bytes[0] & 0x20) == 0
    }

    /// A chunk is public when bit 5 of the second byte is clear; otherwise
    /// it is private.
    pub fn is_public(&self) -> (r: bool)
        ensures
            r == !bit5(self@[1]),
    {
        (self.bytes[1] & 0x20) == 0
    }

    /// The reserved bit, bit 5 of the third byte, must be clear in a
    /// conformant code.
    pub fn is_reserved_bit_valid(&self) -> (r: bool)
        ensures
            r == !bit5(self@[2]),
    {
        (self.bytes[2] & 0x20) == 0
    }

    /// A chunk is safe to copy when bit 5 of the fourth byte is set.
    pub fn is_safe_to_copy(&self) -> (r: bool)
        ensures
            r == bit5(self@[3]),
    {
        (self.bytes[3] & 0x20) != 0
    }

    /// The code as text. Fails with [`Error::EncodingError`] when the four
    /// bytes are not valid UTF-8, which only a code made from raw bytes can
    /// be.
    pub fn to_string(&self) -> (r: Result<String, Error>)
        ensures
            text_view(r) == text_of(self@),
            all_ascii(self@) ==> text_view(r) == Ok::<Seq<char>, Error>(ascii_chars(self@)),
    {
        let mut v: Vec<u8> = Vec::new();
        v.push(self.bytes[0]);
        v.push(self.bytes[1]);
        v.push(self.bytes[2]);
        v.push(self.bytes[3]);
        assert(v@ =~= self@);
        proof {
            if all_ascii(self@) {
                lemma_ascii_is_text(self@);
            }
        }
        decode_text(v)
    }
}

/// A code read from text shows as that same text: reading cannot fail later
/// for want of valid UTF-8.
pub proof fn lemma_text_round_trip(text: Seq<u8>)
    requires
        code_of_text(text) is Ok,
    ensures
        code_of_text(text) == Ok::<Seq<u8>, Error>(text),
        all_ascii(text),
        text_of(text) == Ok::<Seq<char>, Error>(ascii_chars(text)),
{
    assert forall|i: int| 0 <= i < text.len() implies #[trigger] text[i] < 0x80 by {
        assert(is_letter(text[i]));
    }
    lemma_ascii_is_text(text);
}

} // verus!
