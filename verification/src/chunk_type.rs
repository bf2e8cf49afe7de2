//! The four-byte type tag of a chunk and the flags encoded in its letter case.

use crate::error::Error;
use crate::text::{all_ascii, ascii_text, lemma_ascii_is_utf8};
use std::convert::TryFrom;
use std::str::FromStr;
use vstd::prelude::*;
use vstd::std_specs::cmp::PartialEqSpecImpl;
use vstd::std_specs::convert::{FromSpecImpl, TryFromSpecImpl};
use vstd::string::StringSliceAdditionalSpecFns;
use vstd::utf8::encode_utf8;

verus! {

/// Whether `byte` is an ASCII letter, `A`–`Z` or `a`–`z`.
pub open spec fn is_letter(byte: u8) -> bool {
    (65 <= byte <= 90) || (97 <= byte <= 122)
}

/// Whether bit 5 of `byte` is clear, which for a letter means upper case.
pub open spec fn is_upper(byte: u8) -> bool {
    byte & 0x20 == 0
}

/// Whether every byte of `bytes` is an ASCII letter.
pub open spec fn all_letters(bytes: Seq<u8>) -> bool {
    forall|i: int| 0 <= i < bytes.len() ==> is_letter(#[trigger] bytes[i])
}

/// The type bytes that a text with the UTF-8 bytes `text` spells: the text
/// itself where it is exactly four ASCII letters, and otherwise the reason why
/// it spells none. The length is looked at first.
pub open spec fn type_of_text(text: Seq<u8>) -> Result<Seq<u8>, ChunkTypeError> {
    if text.len() != 4 {
        Err(ChunkTypeError::InvalidLength)
    } else if !all_letters(text) {
        Err(ChunkTypeError::InvalidByte)
    } else {
        Ok(text)
    }
}

/// Whether the type with the bytes `kind` has the text `name`. A type has a
/// text where all its bytes are ASCII: one character for each byte.
pub open spec fn names(kind: Seq<u8>, name: Seq<char>) -> bool {
    all_ascii(kind) && ascii_text(kind) == name
}

/// A type has the text `name` exactly when its bytes are ASCII and are the
/// UTF-8 bytes of `name`.
pub proof fn lemma_names_by_bytes(kind: Seq<u8>, name: Seq<char>)
    ensures
        names(kind, name) <==> all_ascii(kind) && kind == encode_utf8(name),
{
    if all_ascii(kind) {
        lemma_ascii_is_utf8(kind);
        vstd::utf8::decode_utf8_encode_utf8(kind);
        vstd::utf8::encode_utf8_decode_utf8(name);
    }
}

/// A text that spells a type is that type's text: reading a type from a text
/// and writing it as text gives the text back.
pub proof fn lemma_spelled_type_is_named(name: Seq<char>)
    requires
        type_of_text(encode_utf8(name)) is Ok,
    ensures
        names(encode_utf8(name), name),
{
    let kind = encode_utf8(name);
    assert forall|i: int| 0 <= i < kind.len() implies #[trigger] kind[i] < 128 by {
        assert(is_letter(kind[i]));
    }
    lemma_names_by_bytes(kind, name);
}

/// Tells whether `ubyte` is one of the ASCII letters.
pub fn check_valid_ascii(ubyte: u8) -> (valid: bool)
    ensures
        valid == is_letter(ubyte),
{
    !(ubyte < 65 || (90 < ubyte && ubyte < 97) || 122 < ubyte)
}

/// Tells whether bit 5 of `ubyte` is clear.
pub fn is_uppercase(ubyte: u8) -> (upper: bool)
    ensures
        upper == is_upper(ubyte),
{
    ubyte & 0x20 == 0
}

/// Why a text was refused as a chunk type.
#[derive(Debug, Clone, Copy, PartialEq, Eq, Structural)]
pub enum ChunkTypeError {
    /// The text is not exactly four bytes long.
    InvalidLength,
    /// The text is four bytes long and one of them is not an ASCII letter.
    InvalidByte,
}

/// A chunk's four-byte type tag.
///
/// Any four bytes make a `ChunkType`; whether they are all ASCII letters is a
/// separate question, answered by [`ChunkType::is_valid`].
#[derive(Debug, Clone, Copy)]
pub struct ChunkType {
    bytes: [u8; 4],
}

impl View for ChunkType {
    type V = Seq<u8>;

    closed spec fn view(&self) -> Seq<u8> {
        self.bytes@
    }
}

impl ChunkType {
    /// A type tag always has four bytes.
    pub proof fn lemma_len(self)
        ensures
            self@.len() == 4,
    {
    }

    /// Wraps four bytes without looking at them.
    pub fn from_bytes(bytes: [u8; 4]) -> (t: ChunkType)
        ensures
            t@ == bytes@,
    {
        ChunkType { bytes }
    }

    /// The four bytes.
    pub fn bytes(&self) -> (b: [u8; 4])
        ensures
            b@ == self@,
    {
        self.bytes
    }

    /// Whether all four bytes are ASCII letters.
    pub fn is_valid(&self) -> (valid: bool)
        ensures
            valid == all_letters(self@),
    {
        let mut i: usize = 0;
        while i < 4
            invariant
                i <= 4,
                forall|j: int| 0 <= j < i ==> is_letter(#[trigger] self@[j]),
            decreases 4 - i,
        {
            if !ChunkType::is_valid_byte(self.bytes[i]) {
                return false;
            }
            i += 1;
        }
        true
    }

    /// Whether some byte is not an ASCII letter.
    pub fn is_err(&self) -> (invalid: bool)
        ensures
            invalid == !all_letters(self@),
    {
        !self.is_valid()
    }

    /// Critical chunks have an upper-case first byte.
    pub fn is_critical(&self) -> (critical: bool)
        ensures
            critical == is_upper(self@[0]),
    {
        is_uppercase(self.bytes[0])
    }

    /// Public chunks have an upper-case second byte.
    pub fn is_public(&self) -> (public: bool)
        ensures
            public == is_upper(self@[1]),
    {
        is_uppercase(self.bytes[1])
    }

    /// The reserved bit is valid when the third byte is upper case.
    pub fn is_reserved_bit_valid(&self) -> (conformant: bool)
        ensures
            conformant == is_upper(self@[2]),
    {
        is_uppercase(self.bytes[2])
    }

    /// A chunk is safe to copy when its fourth byte is lower case.
    pub fn is_safe_to_copy(&self) -> (safe: bool)
        ensures
            safe == !is_upper(self@[3]),
    {
        !is_uppercase(self.bytes[3])
    }

    /// Whether `byte` may stand in a valid chunk type: `A`–`Z` or `a`–`z`.
    pub fn is_valid_byte(byte: u8) -> (valid: bool)
        ensures
            valid == is_letter(byte),
    {
        check_valid_ascii(byte)
    }

    /// Whether all four bytes are ASCII.
    pub fn is_ascii(&self) -> (ascii: bool)
        ensures
            ascii == all_ascii(self@),
    {
        let mut i: usize = 0;
        while i < 4
            invariant
                i <= 4,
                forall|j: int| 0 <= j < i ==> #[trigger] self@[j] < 128,
            decreases 4 - i,
        {
            if self.bytes[i] >= 128 {
                return false;
            }
            i += 1;
        }
        true
    }

    /// The type as text: four ASCII characters, one for each byte.
    ///
    /// Every valid type has a text. So has a type with ASCII bytes that are
    /// not letters. A type with a byte outside ASCII has none, and gives
    /// `InvalidUtf8`.
    pub fn to_string(&self) -> (text: Result<String, Error>)
        ensures
            match text {
                Ok(s) => names(self@, s@),
                Err(e) => !all_ascii(self@) && e == Error::InvalidUtf8,
            },
    {
        if !self.is_ascii() {
            return Err(Error::InvalidUtf8);
        }
        let mut raw: Vec<u8> = Vec::new();
        raw.push(self.bytes[0]);
        raw.push(self.bytes[1]);
        raw.push(self.bytes[2]);
        raw.push(self.bytes[3]);
        proof {
            assert(raw@ =~= self@);
            lemma_ascii_is_utf8(self@);
        }
        match String::from_utf8(raw) {
            Ok(s) => Ok(s),
            Err(_) => vstd::pervasive::unreached(),
        }
    }
}

impl PartialEq for ChunkType {
    /// Two types are equal when their four bytes are.
    fn eq(&self, other: &ChunkType) -> (equal: bool) {
        let mut i: usize = 0;
        while i < 4
            invariant
                i <= 4,
                forall|j: int| 0 <= j < i ==> self@[j] == other@[j],
            decreases 4 - i,
        {
            if self.bytes[i] != other.bytes[i] {
                return false;
            }
            i += 1;
        }
        assert(self@ =~= other@);
        true
    }
}

impl PartialEqSpecImpl for ChunkType {
    open spec fn obeys_eq_spec() -> bool {
        true
    }

    open spec fn eq_spec(&self, other: &ChunkType) -> bool {
        self@ == other@
    }
}

impl TryFrom<[u8; 4]> for ChunkType {
    type Error = ChunkTypeError;

    /// Wraps four bytes without looking at them; this never fails.
    fn try_from(value: [u8; 4]) -> (made: Result<ChunkType, ChunkTypeError>)
        ensures
            made is Ok,
            made->Ok_0@ == value@,
    {
        Ok(ChunkType { bytes: value })
    }
}

impl TryFromSpecImpl<[u8; 4]> for ChunkType {
    open spec fn obeys_try_from_spec() -> bool {
        true
    }

    closed spec fn try_from_spec(value: [u8; 4]) -> Result<ChunkType, ChunkTypeError> {
        Ok(ChunkType { bytes: value })
    }
}

impl FromStr for ChunkType {
    type Err = ChunkTypeError;

    /// Reads a type from text, which must be exactly four ASCII letters.
    fn from_str(value: &str) -> (parsed: Result<ChunkType, ChunkTypeError>)
        ensures
            match parsed {
                Ok(t) => type_of_text(value.spec_bytes()) == Ok::<Seq<u8>, ChunkTypeError>(t@),
                Err(e) => type_of_text(value.spec_bytes()) == Err::<Seq<u8>, ChunkTypeError>(e),
            },
            parsed is Ok ==> names(parsed->Ok_0@, value@),
    {
        proof {
            if type_of_text(value.spec_bytes()) is Ok {
                lemma_spelled_type_is_named(value@);
            }
        }
        let bytes = value.as_bytes();
        if bytes.len() != 4 {
            return Err(ChunkTypeError::InvalidLength);
        }
        let mut i: usize = 0;
        while i < 4
            invariant
                i <= 4,
                bytes@.len() == 4,
                bytes@ == value.spec_bytes(),
                forall|j: int| 0 <= j < i ==> is_letter(#[trigger] bytes@[j]),
            decreases 4 - i,
        {
            if !check_valid_ascii(bytes[i]) {
                return Err(ChunkTypeError::InvalidByte);
            }
            i += 1;
        }
        let made = ChunkType { bytes: [bytes[0], bytes[1], bytes[2], bytes[3]] };
        assert(made@ =~= bytes@);
        Ok(made)
    }
}

impl FromSpecImpl<ChunkTypeError> for Error {
    open spec fn obeys_from_spec() -> bool {
        true
    }

    open spec fn from_spec(e: ChunkTypeError) -> Error {
        Error::InvalidChunkTypeString
    }
}

impl From<ChunkTypeError> for Error {
    /// Both ways in which a text fails to be a chunk type are the one kind
    /// `InvalidChunkTypeString`.
    fn from(e: ChunkTypeError) -> (kind: Error) {
        Error::InvalidChunkTypeString
    }
}

} // verus!
