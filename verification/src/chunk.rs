//! One framed record of a PNG stream: length, type, payload and CRC.

use crate::checksum::{checksum_ieee, crc32_ieee};
use crate::chunk_type::ChunkType;
use crate::endian::{
    be_bytes, be_value, from_be_bytes, lemma_be_bytes_of_value, lemma_be_value_bound,
    lemma_be_value_of_bytes, to_be_bytes,
};
use crate::error::Error;
use crate::text::{all_ascii, ascii_text, decimal, decimal_string};
use std::convert::TryFrom;
use vstd::prelude::*;
use vstd::slice::{slice_subrange, slice_to_vec};
use vstd::std_specs::convert::{FromSpecImpl, TryFromSpecImpl};
use vstd::string::StringExecFns;
use vstd::utf8::{decode_utf8, valid_utf8};

verus! {

/// What a chunk is, apart from how it is stored: its type bytes and its
/// payload.
pub struct ChunkView {
    pub kind: Seq<u8>,
    pub data: Seq<u8>,
}

impl ChunkView {
    /// The type has four bytes. This holds of the view of every [`Chunk`].
    pub open spec fn well_formed(self) -> bool {
        self.kind.len() == 4
    }

    /// The payload's byte count can be written in the four-byte length field.
    pub open spec fn has_valid_length(self) -> bool {
        self.data.len() <= u32::MAX
    }

    /// The CRC-32 over the type bytes followed by the payload.
    pub open spec fn crc(self) -> u32 {
        crc32_ieee(self.kind + self.data)
    }

    /// The record on the wire with `crc` in its last field: big-endian length,
    /// type, payload, big-endian CRC. A payload too long for the length field
    /// has the low 32 bits of its byte count written there.
    pub open spec fn record_with(self, crc: u32) -> Seq<u8> {
        be_bytes(self.data.len() as u32) + self.kind + self.data + be_bytes(crc)
    }

    /// The record on the wire, which carries the chunk's own CRC.
    pub open spec fn record(self) -> Seq<u8> {
        self.record_with(self.crc())
    }

    /// The chunk as a block of lines for people to read: the length, the type
    /// as text, the payload's byte count and the CRC, the numbers in base ten.
    /// It is meant for a type that has a text.
    pub open spec fn rendering(self) -> Seq<char> {
        block(self.data.len(), ascii_text(self.kind), self.crc())
    }
}

/// The block of lines that shows a chunk with a payload of `length` bytes,
/// the type `kind` and the CRC `crc`.
pub open spec fn block(length: nat, kind: Seq<char>, crc: u32) -> Seq<char> {
    "Chunk {\n"@ + "  Length: "@ + decimal(length) + "\n"@ + "  Type: "@ + kind + "\n"@
        + "  Data: "@ + decimal(length) + " bytes\n"@ + "  Crc: "@ + decimal(crc as nat) + "\n"@
        + "}\n"@
}

/// Whether `bytes` begins with a whole record: four length bytes, and then
/// as many bytes as type, declared payload and CRC take.
pub open spec fn holds_record(bytes: Seq<u8>) -> bool {
    bytes.len() >= 4 && bytes.len() >= 12 + be_value(bytes)
}

/// The chunk framed by the record that `bytes` begins with.
pub open spec fn first_chunk(bytes: Seq<u8>) -> ChunkView {
    ChunkView { kind: bytes.subrange(4, 8), data: bytes.subrange(8, 8 + be_value(bytes)) }
}

/// The CRC stored at the end of the record that `bytes` begins with.
pub open spec fn stored_crc(bytes: Seq<u8>) -> int {
    be_value(bytes.subrange(8 + be_value(bytes), 12 + be_value(bytes)))
}

/// The number of bytes that the record at the start of `bytes` takes.
pub open spec fn record_len(bytes: Seq<u8>) -> int {
    12 + be_value(bytes)
}

/// The result of reading one record from the start of `bytes`. Bytes after the
/// record are not looked at.
pub open spec fn parse_record(bytes: Seq<u8>) -> Result<ChunkView, CreateChunkError> {
    if !holds_record(bytes) {
        Err(CreateChunkError::Truncated)
    } else if stored_crc(bytes) != first_chunk(bytes).crc() {
        Err(CreateChunkError::CrcMismatch)
    } else {
        Ok(first_chunk(bytes))
    }
}

/// Reading a chunk's record gives the chunk back, whatever follows the
/// record: same type, same payload, and so the same CRC.
pub proof fn lemma_parse_of_record(chunk: ChunkView, behind: Seq<u8>)
    requires
        chunk.well_formed(),
        chunk.has_valid_length(),
    ensures
        parse_record(chunk.record() + behind) == Ok::<ChunkView, CreateChunkError>(chunk),
        record_len(chunk.record() + behind) == chunk.record().len(),
        first_chunk(chunk.record() + behind).crc() == chunk.crc(),
{
    let bytes = chunk.record() + behind;
    let n = chunk.data.len() as u32;
    lemma_be_value_of_bytes(n);
    lemma_be_value_of_bytes(chunk.crc());
    assert(bytes.subrange(4, 8) =~= chunk.kind);
    assert(bytes.subrange(8, 8 + n) =~= chunk.data);
}

/// A record whose type or payload was altered in place, its length and its
/// stored CRC left as they were, is refused with `CrcMismatch` unless the
/// altered content happens to have the CRC that is stored; only then is it
/// read, as the altered chunk. Whether a given alteration changes the CRC is a
/// property of CRC-32 itself, on which this crate states nothing.
pub proof fn lemma_altered_record(chunk: ChunkView, altered: ChunkView)
    requires
        chunk.well_formed(),
        chunk.has_valid_length(),
        altered.well_formed(),
        altered.data.len() == chunk.data.len(),
    ensures
        ({
            let bytes = be_bytes(chunk.data.len() as u32) + altered.kind + altered.data + be_bytes(
                chunk.crc(),
            );
            parse_record(bytes) == if altered.crc() == chunk.crc() {
                Ok::<ChunkView, CreateChunkError>(altered)
            } else {
                Err::<ChunkView, CreateChunkError>(CreateChunkError::CrcMismatch)
            }
        }),
{
    let n = chunk.data.len() as u32;
    let bytes = be_bytes(n) + altered.kind + altered.data + be_bytes(chunk.crc());
    lemma_be_value_of_bytes(n);
    lemma_be_value_of_bytes(chunk.crc());
    assert(bytes.subrange(4, 8) =~= altered.kind);
    assert(bytes.subrange(8, 8 + n) =~= altered.data);
}

/// What was read from a record spells that record again: the bytes consumed
/// are exactly the record of the chunk read.
pub proof fn lemma_record_of_parse(bytes: Seq<u8>)
    requires
        parse_record(bytes) is Ok,
    ensures
        first_chunk(bytes).well_formed(),
        first_chunk(bytes).has_valid_length(),
        first_chunk(bytes).record() == bytes.take(record_len(bytes)),
{
    let n = be_value(bytes);
    let crc_field = bytes.subrange(8 + n, 12 + n);
    lemma_be_value_bound(bytes);
    lemma_be_bytes_of_value(bytes.subrange(0, 4));
    lemma_be_value_bound(crc_field);
    lemma_be_bytes_of_value(crc_field);
}

/// The failure of a stream that the failure `e` of one of its records causes:
/// the same kind.
pub open spec fn record_failure(e: CreateChunkError) -> Error {
    match e {
        CreateChunkError::Truncated => Error::Truncated,
        CreateChunkError::CrcMismatch => Error::CrcMismatch,
    }
}

/// What each of `chunks` is, in the same order.
pub open spec fn views(chunks: Seq<Chunk>) -> Seq<ChunkView> {
    Seq::new(chunks.len(), |i: int| chunks[i]@)
}

/// Why bytes were refused as a chunk record.
#[derive(Debug, Clone, Copy, PartialEq, Eq, Structural)]
pub enum CreateChunkError {
    /// Fewer bytes are present than the record's fields need.
    Truncated,
    /// The stored CRC is not the CRC of the record's type and payload.
    CrcMismatch,
}

impl CreateChunkError {
    /// The message that describes the failure.
    pub open spec fn message(self) -> Seq<char> {
        match self {
            CreateChunkError::Truncated => "Failed to parse chunk!"@,
            CreateChunkError::CrcMismatch => "CRC does not match calculated value!"@,
        }
    }

    /// The failure in words.
    pub fn to_string(&self) -> (text: String)
        ensures
            text@ == self.message(),
    {
        match self {
            CreateChunkError::Truncated => String::from_str("Failed to parse chunk!"),
            CreateChunkError::CrcMismatch => String::from_str(
                "CRC does not match calculated value!",
            ),
        }
    }
}

/// A chunk: a type and a payload of any length.
#[derive(Debug)]
pub struct Chunk {
    data: Vec<u8>,
    chunk_type: ChunkType,
}

impl View for Chunk {
    type V = ChunkView;

    closed spec fn view(&self) -> ChunkView {
        ChunkView { kind: self.chunk_type@, data: self.data@ }
    }
}

/// Appends `more` to `out`.
pub(crate) fn extend(out: &mut Vec<u8>, more: &[u8])
    ensures
        final(out)@ == old(out)@ + more@,
{
    let mut i: usize = 0;
    while i < more.len()
        invariant
            i <= more@.len(),
            out@ == old(out)@ + more@.take(i as int),
        decreases more@.len() - i,
    {
        out.push(more[i]);
        i += 1;
    }
}

/// Reads the fields of the record that begins at offset `at` of `bytes`, the
/// CRC unchecked, and says where the next record would begin.
fn read_fields_at(bytes: &[u8], at: usize) -> (read: Result<(Chunk, u32, usize), CreateChunkError>)
    requires
        at <= bytes@.len(),
    ensures
        match read {
            Ok((chunk, stored, next)) => {
                &&& holds_record(bytes@.skip(at as int))
                &&& chunk@ == first_chunk(bytes@.skip(at as int))
                &&& stored == stored_crc(bytes@.skip(at as int))
                &&& next == at + record_len(bytes@.skip(at as int))
                &&& next <= bytes@.len()
            },
            Err(e) => !holds_record(bytes@.skip(at as int)) && e == CreateChunkError::Truncated,
        },
{
    let ghost rest = bytes@.skip(at as int);
    let room = bytes.len() - at;
    if room < 12 {
        proof {
            lemma_be_value_bound(rest);
        }
        return Err(CreateChunkError::Truncated);
    }
    let declared = from_be_bytes([bytes[at], bytes[at + 1], bytes[at + 2], bytes[at + 3]]);
    if declared as usize > room - 12 {
        return Err(CreateChunkError::Truncated);
    }
    let len = declared as usize;
    let kind = ChunkType::from_bytes([bytes[at + 4], bytes[at + 5], bytes[at + 6], bytes[at + 7]]);
    let data = slice_to_vec(slice_subrange(bytes, at + 8, at + 8 + len));
    let tail = at + 8 + len;
    let stored = from_be_bytes([bytes[tail], bytes[tail + 1], bytes[tail + 2], bytes[tail + 3]]);
    let chunk = Chunk { chunk_type: kind, data: data };
    proof {
        assert(chunk@.kind =~= rest.subrange(4, 8));
        assert(chunk@.data =~= rest.subrange(8, 8 + len));
    }
    Ok((chunk, stored, tail + 4))
}

/// Reads the record that begins at offset `at` of `bytes`, and says where the
/// next one would begin.
pub(crate) fn read_record(bytes: &[u8], at: usize) -> (read: Result<
    (Chunk, usize),
    CreateChunkError,
>)
    requires
        at <= bytes@.len(),
    ensures
        match read {
            Ok((chunk, next)) => {
                &&& parse_record(bytes@.skip(at as int)) == Ok::<ChunkView, CreateChunkError>(
                    chunk@,
                )
                &&& next == at + record_len(bytes@.skip(at as int))
                &&& next <= bytes@.len()
            },
            Err(e) => parse_record(bytes@.skip(at as int)) == Err::<ChunkView, CreateChunkError>(e),
        },
{
    let (chunk, stored, next) = match read_fields_at(bytes, at) {
        Ok(fields) => fields,
        Err(e) => {
            return Err(e);
        },
    };
    let computed = chunk.crc();
    match chunk.accept(stored, computed) {
        Ok(chunk) => Ok((chunk, next)),
        Err(e) => Err(e),
    }
}

impl Chunk {
    /// The view of a chunk is well formed.
    pub proof fn lemma_well_formed(self)
        ensures
            self@.well_formed(),
    {
        self.chunk_type.lemma_len();
    }

    /// Writing a chunk as a record and reading the record gives the same chunk:
    /// same type, same payload, same CRC. The payload's length must fit the
    /// length field.
    pub proof fn lemma_round_trip(self)
        requires
            self@.has_valid_length(),
        ensures
            parse_record(self@.record()) == Ok::<ChunkView, CreateChunkError>(self@),
            first_chunk(self@.record()).crc() == self@.crc(),
    {
        self.lemma_well_formed();
        lemma_parse_of_record(self@, Seq::empty());
    }

    /// Reads the fields of the record at the start of `bytes` and leaves the
    /// CRC unchecked: the result is the chunk that the record frames and the
    /// CRC that it stores. Bytes after the record are not looked at.
    pub fn read_fields(bytes: &[u8]) -> (read: Result<(Chunk, u32), CreateChunkError>)
        ensures
            match read {
                Ok((chunk, stored)) => {
                    &&& holds_record(bytes@)
                    &&& chunk@ == first_chunk(bytes@)
                    &&& stored == stored_crc(bytes@)
                },
                Err(e) => !holds_record(bytes@) && e == CreateChunkError::Truncated,
            },
    {
        assert(bytes@.skip(0) =~= bytes@);
        match read_fields_at(bytes, 0) {
            Ok((chunk, stored, _)) => Ok((chunk, stored)),
            Err(e) => Err(e),
        }
    }

    /// Lets a chunk that was read pass if the CRC stored with it is the CRC
    /// computed from it.
    pub fn accept(self, stored: u32, computed: u32) -> (checked: Result<Chunk, CreateChunkError>)
        ensures
            checked == if stored == computed {
                Ok::<Chunk, CreateChunkError>(self)
            } else {
                Err::<Chunk, CreateChunkError>(CreateChunkError::CrcMismatch)
            },
    {
        if stored != computed {
            return Err(CreateChunkError::CrcMismatch);
        }
        Ok(self)
    }

    /// A chunk of the given type and payload. The type is not validated.
    pub fn new(chunk_type: ChunkType, data: Vec<u8>) -> (chunk: Chunk)
        ensures
            chunk@ == (ChunkView { kind: chunk_type@, data: data@ }),
    {
        Chunk { chunk_type: chunk_type, data: data }
    }

    /// The payload's byte count.
    pub fn length(&self) -> (n: usize)
        ensures
            n == self@.data.len(),
    {
        self.data.len()
    }

    /// The chunk's type.
    pub fn chunk_type(&self) -> (kind: &ChunkType)
        ensures
            kind@ == self@.kind,
    {
        &self.chunk_type
    }

    /// The payload.
    pub fn data(&self) -> (payload: &[u8])
        ensures
            payload@ == self@.data,
    {
        self.data.as_slice()
    }

    /// The CRC-32 over the type bytes followed by the payload.
    pub fn crc(&self) -> (sum: u32)
        ensures
            sum == self@.crc(),
    {
        let kind = self.chunk_type.bytes();
        let mut bytes: Vec<u8> = Vec::new();
        extend(&mut bytes, kind.as_slice());
        extend(&mut bytes, self.data.as_slice());
        checksum_ieee(bytes.as_slice())
    }

    /// The payload as text, if it is well-formed UTF-8.
    pub fn data_as_string(&self) -> (text: Result<String, Error>)
        ensures
            match text {
                Ok(s) => valid_utf8(self@.data) && s@ == decode_utf8(self@.data),
                Err(e) => !valid_utf8(self@.data) && e == Error::InvalidUtf8,
            },
    {
        let data = slice_to_vec(self.data.as_slice());
        match String::from_utf8(data) {
            Ok(s) => Ok(s),
            Err(_) => Err(Error::InvalidUtf8),
        }
    }

    /// The chunk as a block of lines for people to read. A type with a byte
    /// outside ASCII has no text, and then there is no block either.
    pub fn to_string(&self) -> (text: Result<String, Error>)
        ensures
            match text {
                Ok(s) => all_ascii(self@.kind) && s@ == self@.rendering(),
                Err(e) => !all_ascii(self@.kind) && e == Error::InvalidUtf8,
            },
    {
        match self.chunk_type.to_string() {
            Ok(kind) => Ok(render(self.length(), kind.as_str(), self.crc())),
            Err(e) => Err(e),
        }
    }

    /// The chunk's record with `crc` in its last field.
    pub fn as_bytes_with(&self, crc: u32) -> (bytes: Vec<u8>)
        ensures
            bytes@ == self@.record_with(crc),
    {
        let len_bytes = to_be_bytes(#[verifier::truncate] (self.length() as u32));
        let kind = self.chunk_type.bytes();
        let crc_bytes = to_be_bytes(crc);
        let mut bytes: Vec<u8> = Vec::new();
        extend(&mut bytes, len_bytes.as_slice());
        extend(&mut bytes, kind.as_slice());
        extend(&mut bytes, self.data.as_slice());
        extend(&mut bytes, crc_bytes.as_slice());
        bytes
    }

    /// The chunk's record: length, type, payload and CRC.
    pub fn as_bytes(&self) -> (bytes: Vec<u8>)
        ensures
            bytes@ == self@.record(),
    {
        self.as_bytes_with(self.crc())
    }
}

/// Writes the block of lines that shows a chunk with a payload of `length`
/// bytes, the type `kind` and the CRC `crc`.
pub fn render(length: usize, kind: &str, crc: u32) -> (text: String)
    ensures
        text@ == block(length as nat, kind@, crc),
{
    let length_text = decimal_string(length as u64);
    let crc_text = decimal_string(crc as u64);
    let mut text = String::new();
    text.append("Chunk {\n");
    text.append("  Length: ");
    text.append(length_text.as_str());
    text.append("\n");
    text.append("  Type: ");
    text.append(kind);
    text.append("\n");
    text.append("  Data: ");
    text.append(length_text.as_str());
    text.append(" bytes\n");
    text.append("  Crc: ");
    text.append(crc_text.as_str());
    text.append("\n");
    text.append("}\n");
    assert(text@ =~= block(length as nat, kind@, crc));
    text
}

impl TryFrom<&[u8]> for Chunk {
    type Error = CreateChunkError;

    /// Reads one record from the start of `value`: a big-endian length, four
    /// type bytes, as many payload bytes as the length says, and a big-endian
    /// CRC that must be the CRC of type and payload. Bytes after the record
    /// are not looked at.
    fn try_from(value: &[u8]) -> (parsed: Result<Chunk, CreateChunkError>)
        ensures
            match parsed {
                Ok(chunk) => parse_record(value@) == Ok::<ChunkView, CreateChunkError>(chunk@),
                Err(e) => parse_record(value@) == Err::<ChunkView, CreateChunkError>(e),
            },
    {
        let (chunk, stored) = match Chunk::read_fields(value) {
            Ok(fields) => fields,
            Err(e) => {
                return Err(e);
            },
        };
        let computed = chunk.crc();
        chunk.accept(stored, computed)
    }
}

impl TryFromSpecImpl<&[u8]> for Chunk {
    open spec fn obeys_try_from_spec() -> bool {
        false
    }

    open spec fn try_from_spec(value: &[u8]) -> Result<Chunk, CreateChunkError> {
        arbitrary()
    }
}

impl FromSpecImpl<CreateChunkError> for Error {
    open spec fn obeys_from_spec() -> bool {
        true
    }

    open spec fn from_spec(e: CreateChunkError) -> Error {
        record_failure(e)
    }
}

impl From<CreateChunkError> for Error {
    /// A record's failure keeps its kind.
    fn from(e: CreateChunkError) -> (kind: Error) {
        match e {
            CreateChunkError::Truncated => Error::Truncated,
            CreateChunkError::CrcMismatch => Error::CrcMismatch,
        }
    }
}

} // verus!
