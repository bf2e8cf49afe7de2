//! A whole PNG stream: the signature and the chunks behind it, in file order.

use crate::chunk::{
    extend, first_chunk, lemma_parse_of_record, lemma_record_of_parse, parse_record, read_record,
    record_failure, record_len, views, Chunk, ChunkView, CreateChunkError,
};
use crate::chunk_type::{lemma_names_by_bytes, names};
use crate::error::Error;
use crate::text::all_ascii;
use std::convert::TryFrom;
use vstd::prelude::*;
use vstd::std_specs::convert::TryFromSpecImpl;
use vstd::string::{StringExecFns, StringSliceAdditionalSpecFns};

verus! {

/// The eight bytes with which every PNG stream begins.
pub const STANDARD_HEADER: [u8; 8] = [137, 80, 78, 71, 13, 10, 26, 10];

/// The signature as a sequence.
pub open spec fn signature() -> Seq<u8> {
    seq![137u8, 80u8, 78u8, 71u8, 13u8, 10u8, 26u8, 10u8]
}

/// The records of `chunks`, one after the other with nothing between them.
pub open spec fn records(chunks: Seq<ChunkView>) -> Seq<u8>
    decreases chunks.len(),
{
    if chunks.len() == 0 {
        Seq::empty()
    } else {
        records(chunks.drop_last()) + chunks.last().record()
    }
}

/// The stream that holds `chunks`: the signature, then their records.
pub open spec fn stream(chunks: Seq<ChunkView>) -> Seq<u8> {
    signature() + records(chunks)
}

/// The chunks' blocks of text, one after the other in file order.
pub open spec fn renderings(chunks: Seq<ChunkView>) -> Seq<char>
    decreases chunks.len(),
{
    if chunks.len() == 0 {
        Seq::empty()
    } else {
        renderings(chunks.drop_last()) + chunks.last().rendering()
    }
}

/// Whether each chunk's type has a text, so that the chunk can be shown.
pub open spec fn all_types_have_text(chunks: Seq<ChunkView>) -> bool {
    forall|i: int| 0 <= i < chunks.len() ==> all_ascii((#[trigger] chunks[i]).kind)
}

/// `first` put in front of what was read behind it, unless that failed.
pub open spec fn after(
    first: Seq<ChunkView>,
    behind: Result<Seq<ChunkView>, CreateChunkError>,
) -> Result<Seq<ChunkView>, CreateChunkError> {
    match behind {
        Ok(rest) => Ok(first + rest),
        Err(e) => Err(e),
    }
}

/// The chunks that `bytes` holds when it is read as records until it is
/// used up, or the failure of the first record that cannot be read.
pub open spec fn parse_records(bytes: Seq<u8>) -> Result<Seq<ChunkView>, CreateChunkError>
    decreases bytes.len(),
{
    if bytes.len() == 0 {
        Ok(Seq::empty())
    } else {
        match parse_record(bytes) {
            Ok(first) => after(seq![first], parse_records(bytes.skip(record_len(bytes)))),
            Err(e) => Err(e),
        }
    }
}

/// The chunks of the stream `bytes`, which must begin with the signature and
/// go on with whole records up to its last byte.
pub open spec fn parse_stream(bytes: Seq<u8>) -> Result<Seq<ChunkView>, Error> {
    if bytes.len() < 8 || bytes.subrange(0, 8) != signature() {
        Err(Error::BadSignature)
    } else {
        match parse_records(bytes.skip(8)) {
            Ok(chunks) => Ok(chunks),
            Err(e) => Err(record_failure(e)),
        }
    }
}

/// Whether `chunks[i]` has the type named `name` and no chunk before it has.
pub open spec fn is_first_match(chunks: Seq<ChunkView>, name: Seq<char>, i: int) -> bool {
    &&& 0 <= i < chunks.len()
    &&& names(chunks[i].kind, name)
    &&& forall|j: int| 0 <= j < i ==> !names((#[trigger] chunks[j]).kind, name)
}

/// Whether some chunk has the type named `name`.
pub open spec fn has_match(chunks: Seq<ChunkView>, name: Seq<char>) -> bool {
    exists|i: int| 0 <= i < chunks.len() && names((#[trigger] chunks[i]).kind, name)
}

/// The place of the first chunk of the type named `name`, where there is one.
pub open spec fn first_match(chunks: Seq<ChunkView>, name: Seq<char>) -> int {
    choose|i: int| is_first_match(chunks, name, i)
}

/// The first chunk of a type is the only one that is the first.
pub proof fn lemma_first_match_unique(chunks: Seq<ChunkView>, name: Seq<char>, i: int)
    requires
        is_first_match(chunks, name, i),
    ensures
        has_match(chunks, name),
        first_match(chunks, name) == i,
{
}

/// If a chunk has the type named `name`, the first chunk of that type stands
/// at or before it, and none of that type stands before the first: a lookup
/// never answers with a later chunk where an earlier one has the same type.
pub proof fn lemma_first_match_is_earliest(chunks: Seq<ChunkView>, name: Seq<char>, at: int)
    requires
        0 <= at < chunks.len(),
        names(chunks[at].kind, name),
    ensures
        has_match(chunks, name),
        is_first_match(chunks, name, first_match(chunks, name)),
        first_match(chunks, name) <= at,
    decreases at,
{
    if exists|j: int| 0 <= j < at && names((#[trigger] chunks[j]).kind, name) {
        let j = choose|j: int| 0 <= j < at && names((#[trigger] chunks[j]).kind, name);
        lemma_first_match_is_earliest(chunks, name, j);
    } else {
        lemma_first_match_unique(chunks, name, at);
    }
}

/// Where no chunk has the type of `chunk`, appending `chunk` and then taking
/// out the first chunk of its type gives `chunk` back and leaves the chunks
/// as they were, so again without one of that type.
pub proof fn lemma_append_then_remove(chunks: Seq<ChunkView>, chunk: ChunkView, name: Seq<char>)
    requires
        names(chunk.kind, name),
        !has_match(chunks, name),
    ensures
        has_match(chunks.push(chunk), name),
        first_match(chunks.push(chunk), name) == chunks.len(),
        chunks.push(chunk)[first_match(chunks.push(chunk), name)] == chunk,
        chunks.push(chunk).remove(first_match(chunks.push(chunk), name)) == chunks,
        !has_match(chunks.push(chunk).remove(first_match(chunks.push(chunk), name)), name),
{
    let longer = chunks.push(chunk);
    assert forall|j: int| 0 <= j < chunks.len() implies !names(
        (#[trigger] longer[j]).kind,
        name,
    ) by {
        assert(longer[j] == chunks[j]);
    }
    lemma_first_match_unique(longer, name, chunks.len() as int);
    assert(longer.remove(chunks.len() as int) =~= chunks);
}

/// The records of a chunk followed by others are its record followed by
/// theirs.
pub proof fn lemma_records_of_first(first: ChunkView, rest: Seq<ChunkView>)
    ensures
        records(seq![first] + rest) == first.record() + records(rest),
    decreases rest.len(),
{
    let all = seq![first] + rest;
    if rest.len() == 0 {
        assert(records(all.drop_last()) =~= Seq::<u8>::empty());
    } else {
        assert(all.drop_last() =~= seq![first] + rest.drop_last());
        lemma_records_of_first(first, rest.drop_last());
    }
}

/// Reading the records of chunks gives the same chunks in the same order.
pub proof fn lemma_parse_of_records(chunks: Seq<ChunkView>)
    requires
        forall|i: int|
            0 <= i < chunks.len() ==> (#[trigger] chunks[i]).well_formed()
                && chunks[i].has_valid_length(),
    ensures
        parse_records(records(chunks)) == Ok::<Seq<ChunkView>, CreateChunkError>(chunks),
    decreases chunks.len(),
{
    if chunks.len() == 0 {
        assert(chunks =~= Seq::<ChunkView>::empty());
    } else {
        let first = chunks[0];
        let rest = chunks.drop_first();
        assert(chunks =~= seq![first] + rest);
        lemma_records_of_first(first, rest);
        let bytes = records(chunks);
        lemma_parse_of_record(first, records(rest));
        assert(bytes.skip(record_len(bytes)) =~= records(rest));
        lemma_parse_of_records(rest);
    }
}

/// Bytes that read as records are the records of the chunks read.
pub proof fn lemma_records_of_parse(bytes: Seq<u8>)
    requires
        parse_records(bytes) is Ok,
    ensures
        records(parse_records(bytes)->Ok_0) == bytes,
    decreases bytes.len(),
{
    if bytes.len() > 0 {
        let behind = bytes.skip(record_len(bytes));
        lemma_record_of_parse(bytes);
        lemma_records_of_parse(behind);
        lemma_records_of_first(first_chunk(bytes), parse_records(behind)->Ok_0);
    }
}

/// Writing chunks as a stream and reading the stream gives the same chunks in
/// the same order, where each payload's length fits the length field.
pub proof fn lemma_parse_of_stream(chunks: Seq<ChunkView>)
    requires
        forall|i: int|
            0 <= i < chunks.len() ==> (#[trigger] chunks[i]).well_formed()
                && chunks[i].has_valid_length(),
    ensures
        parse_stream(stream(chunks)) == Ok::<Seq<ChunkView>, Error>(chunks),
{
    let bytes = stream(chunks);
    assert(bytes.subrange(0, 8) =~= signature());
    assert(bytes.skip(8) =~= records(chunks));
    lemma_parse_of_records(chunks);
}

/// Reading a stream and writing what was read gives the same bytes.
pub proof fn lemma_stream_of_parse(bytes: Seq<u8>)
    requires
        parse_stream(bytes) is Ok,
    ensures
        stream(parse_stream(bytes)->Ok_0) == bytes,
{
    lemma_records_of_parse(bytes.skip(8));
}

/// A PNG stream in memory: its chunks in file order.
#[derive(Debug)]
pub struct Png {
    chunks: Vec<Chunk>,
}

impl View for Png {
    type V = Seq<ChunkView>;

    closed spec fn view(&self) -> Seq<ChunkView> {
        views(self.chunks@)
    }
}

/// Whether `chunk` has the type named `name`.
fn has_type(chunk: &Chunk, name: &str) -> (same: bool)
    ensures
        same == names(chunk@.kind, name@),
{
    let kind = chunk.chunk_type();
    let bytes = kind.bytes();
    let text = name.as_bytes();
    proof {
        lemma_names_by_bytes(chunk@.kind, name@);
    }
    if !kind.is_ascii() || text.len() != 4 {
        return false;
    }
    let same = bytes[0] == text[0] && bytes[1] == text[1] && bytes[2] == text[2] && bytes[3]
        == text[3];
    if same {
        assert(chunk@.kind =~= text@);
    }
    same
}

impl Png {
    /// Each chunk of a stream has a type of four bytes.
    pub proof fn lemma_well_formed(self)
        ensures
            forall|i: int| 0 <= i < self@.len() ==> (#[trigger] self@[i]).well_formed(),
    {
        assert forall|i: int| 0 <= i < self@.len() implies (#[trigger] self@[i]).well_formed() by {
            self.chunks@[i].lemma_well_formed();
        }
    }

    /// Writing a stream and reading what was written gives the same chunks in
    /// the same order. Each payload's length must fit the length field.
    pub proof fn lemma_round_trip(self)
        requires
            forall|i: int| 0 <= i < self@.len() ==> (#[trigger] self@[i]).has_valid_length(),
        ensures
            parse_stream(stream(self@)) == Ok::<Seq<ChunkView>, Error>(self@),
    {
        self.lemma_well_formed();
        lemma_parse_of_stream(self@);
    }

    /// A stream that holds `chunks` in the order given.
    pub fn from_chunks(chunks: Vec<Chunk>) -> (png: Png)
        ensures
            png@ == views(chunks@),
    {
        Png { chunks }
    }

    /// Puts `chunk` behind all the others. Chunks of one type may repeat.
    pub fn append_chunk(&mut self, chunk: Chunk)
        ensures
            final(self)@ == old(self)@.push(chunk@),
    {
        self.chunks.push(chunk);
    }

    /// The place of the first chunk of the type named `name`.
    fn position(&self, name: &str) -> (place: Option<usize>)
        ensures
            match place {
                Some(i) => is_first_match(self@, name@, i as int),
                None => !has_match(self@, name@),
            },
    {
        let mut i: usize = 0;
        while i < self.chunks.len()
            invariant
                i <= self.chunks@.len(),
                self@.len() == self.chunks@.len(),
                forall|j: int| 0 <= j < i ==> !names((#[trigger] self@[j]).kind, name@),
            decreases self.chunks@.len() - i,
        {
            if has_type(&self.chunks[i], name) {
                return Some(i);
            }
            i += 1;
        }
        None
    }

    /// The first chunk, in file order, whose type has the text `chunk_type`.
    pub fn chunk_by_type(&self, chunk_type: &str) -> (found: Option<&Chunk>)
        ensures
            match found {
                Some(chunk) => has_match(self@, chunk_type@) && chunk@ == self@[first_match(
                    self@,
                    chunk_type@,
                )],
                None => !has_match(self@, chunk_type@),
            },
    {
        match self.position(chunk_type) {
            Some(i) => {
                proof {
                    lemma_first_match_unique(self@, chunk_type@, i as int);
                }
                Some(&self.chunks[i])
            },
            None => None,
        }
    }

    /// Takes out the first chunk, in file order, whose type has the text
    /// `chunk_type`, and returns it. Later chunks of that type stay.
    pub fn remove_chunk(&mut self, chunk_type: &str) -> (removed: Result<Chunk, Error>)
        ensures
            match removed {
                Ok(chunk) => {
                    &&& has_match(old(self)@, chunk_type@)
                    &&& chunk@ == old(self)@[first_match(old(self)@, chunk_type@)]
                    &&& final(self)@ == old(self)@.remove(first_match(old(self)@, chunk_type@))
                },
                Err(e) => {
                    &&& e == Error::NotFound
                    &&& !has_match(old(self)@, chunk_type@)
                    &&& final(self)@ == old(self)@
                },
            },
    {
        match self.position(chunk_type) {
            Some(i) => {
                proof {
                    lemma_first_match_unique(self@, chunk_type@, i as int);
                }
                let chunk = self.chunks.remove(i);
                Ok(chunk)
            },
            None => Err(Error::NotFound),
        }
    }

    /// The signature.
    pub fn header(&self) -> (signature_bytes: &[u8; 8])
        ensures
            signature_bytes@ == signature(),
    {
        &STANDARD_HEADER
    }

    /// The chunks in file order.
    pub fn chunks(&self) -> (list: &[Chunk])
        ensures
            views(list@) == self@,
    {
        self.chunks.as_slice()
    }

    /// The stream for people to read: each chunk's block of text, in file
    /// order. There is none where a chunk's type is not well-formed UTF-8.
    pub fn to_string(&self) -> (text: Result<String, Error>)
        ensures
            match text {
                Ok(s) => all_types_have_text(self@) && s@ == renderings(self@),
                Err(e) => !all_types_have_text(self@) && e == Error::InvalidUtf8,
            },
    {
        let mut text = String::new();
        let mut i: usize = 0;
        while i < self.chunks.len()
            invariant
                i <= self.chunks@.len(),
                self@.len() == self.chunks@.len(),
                all_types_have_text(self@.take(i as int)),
                text@ == renderings(self@.take(i as int)),
            decreases self.chunks@.len() - i,
        {
            match self.chunks[i].to_string() {
                Ok(block) => {
                    text.append(block.as_str());
                },
                Err(e) => {
                    assert(!all_ascii(self@[i as int].kind));
                    return Err(e);
                },
            }
            proof {
                let upto = self@.take(i + 1);
                assert(upto.drop_last() =~= self@.take(i as int));
                assert forall|j: int| 0 <= j < upto.len() implies all_ascii(
                    (#[trigger] upto[j]).kind,
                ) by {}
            }
            i += 1;
        }
        assert(self@.take(i as int) =~= self@);
        Ok(text)
    }

    /// The whole stream: the signature, then each chunk's record in file
    /// order.
    pub fn as_bytes(&self) -> (bytes: Vec<u8>)
        ensures
            bytes@ == stream(self@),
    {
        let mut bytes: Vec<u8> = Vec::new();
        extend(&mut bytes, STANDARD_HEADER.as_slice());
        let mut i: usize = 0;
        while i < self.chunks.len()
            invariant
                i <= self.chunks@.len(),
                self@.len() == self.chunks@.len(),
                bytes@ == signature() + records(self@.take(i as int)),
            decreases self.chunks@.len() - i,
        {
            let record = self.chunks[i].as_bytes();
            extend(&mut bytes, record.as_slice());
            proof {
                let upto = self@.take(i + 1);
                assert(upto.drop_last() =~= self@.take(i as int));
            }
            i += 1;
        }
        assert(self@.take(i as int) =~= self@);
        bytes
    }
}

impl TryFrom<&[u8]> for Png {
    type Error = Error;

    /// Reads a whole stream: the signature, then records until the last byte.
    /// The first record that cannot be read makes the whole stream fail.
    fn try_from(value: &[u8]) -> (parsed: Result<Png, Error>)
        ensures
            match parsed {
                Ok(png) => parse_stream(value@) == Ok::<Seq<ChunkView>, Error>(png@),
                Err(e) => parse_stream(value@) == Err::<Seq<ChunkView>, Error>(e),
            },
    {
        if value.len() < 8 {
            return Err(Error::BadSignature);
        }
        let mut k: usize = 0;
        while k < 8
            invariant
                k <= 8,
                value@.len() >= 8,
                forall|j: int| 0 <= j < k ==> value@[j] == signature()[j],
            decreases 8 - k,
        {
            if value[k] != STANDARD_HEADER[k] {
                return Err(Error::BadSignature);
            }
            k += 1;
        }
        let mut chunks: Vec<Chunk> = Vec::new();
        let mut at: usize = 8;
        while at < value.len()
            invariant
                8 <= at <= value@.len(),
                value@.subrange(0, 8) == signature(),
                parse_records(value@.skip(8)) == after(
                    views(chunks@),
                    parse_records(value@.skip(at as int)),
                ),
            decreases value@.len() - at,
        {
            let ghost rest = value@.skip(at as int);
            let ghost seen = views(chunks@);
            match read_record(value, at) {
                Ok((chunk, next)) => {
                    chunks.push(chunk);
                    proof {
                        assert(rest.skip(record_len(rest)) =~= value@.skip(next as int));
                        assert(views(chunks@) =~= seen.push(chunk@));
                        if let Ok(others) = parse_records(value@.skip(next as int)) {
                            assert(seen + (seq![chunk@] + others) =~= seen.push(chunk@) + others);
                        }
                    }
                    at = next;
                },
                Err(e) => {
                    return Err(Error::from(e));
                },
            }
        }
        assert(views(chunks@) + Seq::<ChunkView>::empty() =~= views(chunks@));
        Ok(Png { chunks })
    }
}

impl TryFromSpecImpl<&[u8]> for Png {
    open spec fn obeys_try_from_spec() -> bool {
        false
    }

    open spec fn try_from_spec(value: &[u8]) -> Result<Png, Error> {
        arbitrary()
    }
}

} // verus!
