//! The three commands, from the bytes of a file to the result to store or show.

use crate::args::{key_text, DecodingArgs, EncodingArgs, RemovingArgs};
use crate::chunk::{Chunk, ChunkView};
use crate::chunk_type::{type_of_text, ChunkType};
use crate::cipher::{decrypt, decrypted_text, encrypt, encrypted_text};
use crate::error::Error;
use crate::png::{first_match, has_match, parse_stream, stream, Png};
use magic_crypt::MagicCryptError;
use std::convert::TryFrom;
use std::str::FromStr;
use vstd::prelude::*;
use vstd::string::{StrSliceExecFns, StringSliceAdditionalSpecFns};
use vstd::utf8::{decode_utf8, encode_utf8, valid_utf8};

verus! {

/// Why a command did not do its work.
#[derive(Debug, Clone, Copy, PartialEq, Eq, Structural)]
pub enum CommandError {
    /// Reading the stream, the chunk type or the chunk failed in this way.
    Core(Error),
    /// The stored text could not be decrypted with the key given.
    DecryptFailed,
    /// The command has a result to write and was given no file to write to.
    NoOutputPath,
}

/// The payload that stores `message`: its UTF-8 bytes, or those of its
/// encryption where there is a key.
pub open spec fn payload(key: Option<Seq<char>>, message: Seq<char>) -> Seq<u8> {
    match key {
        Some(k) => encode_utf8(encrypted_text(k, message)),
        None => encode_utf8(message),
    }
}

/// The chunks of the stream `file` with one more behind them, of the type
/// that `type_text` spells and with the payload `data`. A stream that cannot
/// be read is reported before a type that cannot.
pub open spec fn inserted(file: Seq<u8>, type_text: Seq<char>, data: Seq<u8>) -> Result<
    Seq<ChunkView>,
    CommandError,
> {
    match parse_stream(file) {
        Err(e) => Err(CommandError::Core(e)),
        Ok(chunks) => match type_of_text(encode_utf8(type_text)) {
            Err(_) => Err(CommandError::Core(Error::InvalidChunkTypeString)),
            Ok(kind) => Ok(chunks.push(ChunkView { kind: kind, data: data })),
        },
    }
}

/// The text stored in the first chunk of the type named `type_text` of the
/// stream `file`.
pub open spec fn extracted(file: Seq<u8>, type_text: Seq<char>) -> Result<Seq<char>, CommandError> {
    match parse_stream(file) {
        Err(e) => Err(CommandError::Core(e)),
        Ok(chunks) => if !has_match(chunks, type_text) {
            Err(CommandError::Core(Error::NotFound))
        } else if !valid_utf8(chunks[first_match(chunks, type_text)].data) {
            Err(CommandError::Core(Error::InvalidUtf8))
        } else {
            Ok(decode_utf8(chunks[first_match(chunks, type_text)].data))
        },
    }
}

/// The message that the stored text `text` stands for: itself, or what it
/// decrypts to where there is a key.
pub open spec fn opened(key: Option<Seq<char>>, text: Seq<char>) -> Result<
    Seq<char>,
    CommandError,
> {
    match key {
        None => Ok(text),
        Some(k) => match decrypted_text(k, text) {
            Some(message) => Ok(message),
            None => Err(CommandError::DecryptFailed),
        },
    }
}

/// The stream `file` without its first chunk of the type named `type_text`.
/// That there is no file to write to is reported last.
pub open spec fn removed(file: Seq<u8>, type_text: Seq<char>, has_output: bool) -> Result<
    Seq<u8>,
    CommandError,
> {
    match parse_stream(file) {
        Err(e) => Err(CommandError::Core(e)),
        Ok(chunks) => if !has_match(chunks, type_text) {
            Err(CommandError::Core(Error::NotFound))
        } else if !has_output {
            Err(CommandError::NoOutputPath)
        } else {
            Ok(stream(chunks.remove(first_match(chunks, type_text))))
        },
    }
}

/// Reads the bytes of a file as a PNG stream.
pub fn load_png(file: &[u8]) -> (loaded: Result<Png, CommandError>)
    ensures
        match loaded {
            Ok(png) => parse_stream(file@) == Ok::<Seq<ChunkView>, Error>(png@),
            Err(CommandError::Core(kind)) => parse_stream(file@) == Err::<Seq<ChunkView>, Error>(
                kind,
            ),
            Err(_) => false,
        },
{
    match Png::try_from(file) {
        Ok(png) => Ok(png),
        Err(e) => Err(CommandError::Core(e)),
    }
}

/// Reads `file` as a PNG stream and puts a chunk of the type `chunk_type` and
/// the payload `data` behind its chunks.
pub fn insert(file: &[u8], chunk_type: &str, data: Vec<u8>) -> (made: Result<Png, CommandError>)
    ensures
        match made {
            Ok(png) => inserted(file@, chunk_type@, data@) == Ok::<Seq<ChunkView>, CommandError>(
                png@,
            ),
            Err(e) => inserted(file@, chunk_type@, data@) == Err::<Seq<ChunkView>, CommandError>(
                e,
            ),
        },
{
    let mut png = match load_png(file) {
        Ok(png) => png,
        Err(e) => {
            return Err(e);
        },
    };
    let kind = match ChunkType::from_str(chunk_type) {
        Ok(kind) => kind,
        Err(e) => {
            return Err(CommandError::Core(Error::from(e)));
        },
    };
    png.append_chunk(Chunk::new(kind, data));
    Ok(png)
}

/// Stores the message in a new chunk behind the chunks of `file`, encrypted
/// where a key is given. The result is the stream to write or to show.
pub fn encode(args: &EncodingArgs, file: &[u8]) -> (made: Result<Png, CommandError>)
    ensures
        match made {
            Ok(png) => inserted(
                file@,
                args.chunk_type@,
                payload(key_text(args.key), args.message@),
            ) == Ok::<Seq<ChunkView>, CommandError>(png@),
            Err(e) => inserted(
                file@,
                args.chunk_type@,
                payload(key_text(args.key), args.message@),
            ) == Err::<Seq<ChunkView>, CommandError>(e),
        },
{
    let data = match &args.key {
        Some(key) => encrypt(key.as_str(), args.message.as_str()).as_str().as_bytes_vec(),
        None => args.message.as_str().as_bytes_vec(),
    };
    insert(file, args.chunk_type.as_str(), data)
}

/// Reads `file` as a PNG stream and returns the payload of its first chunk
/// of the type `chunk_type` as text.
pub fn extract(file: &[u8], chunk_type: &str) -> (text: Result<String, CommandError>)
    ensures
        match text {
            Ok(s) => extracted(file@, chunk_type@) == Ok::<Seq<char>, CommandError>(s@),
            Err(e) => extracted(file@, chunk_type@) == Err::<Seq<char>, CommandError>(e),
        },
{
    let png = match load_png(file) {
        Ok(png) => png,
        Err(e) => {
            return Err(e);
        },
    };
    match png.chunk_by_type(chunk_type) {
        Some(chunk) => match chunk.data_as_string() {
            Ok(s) => Ok(s),
            Err(e) => Err(CommandError::Core(e)),
        },
        None => Err(CommandError::Core(Error::NotFound)),
    }
}

/// What a command reports of an attempt to decrypt: the message, or that
/// decrypting failed, whatever the cipher's reason.
pub fn decrypted_message(outcome: Result<String, MagicCryptError>) -> (message: Result<
    String,
    CommandError,
>)
    ensures
        match outcome {
            Ok(m) => message == Ok::<String, CommandError>(m),
            Err(_) => message == Err::<String, CommandError>(CommandError::DecryptFailed),
        },
{
    match outcome {
        Ok(m) => Ok(m),
        Err(_) => Err(CommandError::DecryptFailed),
    }
}

/// Finds the message stored in the first chunk of the type given, and
/// decrypts it where a key is given.
pub fn decode(args: &DecodingArgs, file: &[u8]) -> (message: Result<String, CommandError>)
    ensures
        match extracted(file@, args.chunk_type@) {
            Err(e) => message == Err::<String, CommandError>(e),
            Ok(text) => match message {
                Ok(m) => opened(key_text(args.key), text) == Ok::<Seq<char>, CommandError>(m@),
                Err(e) => opened(key_text(args.key), text) == Err::<Seq<char>, CommandError>(e),
            },
        },
{
    let data = match extract(file, args.chunk_type.as_str()) {
        Ok(data) => data,
        Err(e) => {
            return Err(e);
        },
    };
    match &args.key {
        Some(key) => decrypted_message(decrypt(key.as_str(), data.as_str())),
        None => Ok(data),
    }
}

/// Takes the first chunk of the type given out of the stream `file`. The
/// result is the stream to write.
pub fn remove(args: &RemovingArgs, file: &[u8]) -> (written: Result<Vec<u8>, CommandError>)
    ensures
        match written {
            Ok(bytes) => removed(file@, args.chunk_type@, args.output is Some) == Ok::<
                Seq<u8>,
                CommandError,
            >(bytes@),
            Err(e) => removed(file@, args.chunk_type@, args.output is Some) == Err::<
                Seq<u8>,
                CommandError,
            >(e),
        },
{
    let mut png = match load_png(file) {
        Ok(png) => png,
        Err(e) => {
            return Err(e);
        },
    };
    match png.remove_chunk(args.chunk_type.as_str()) {
        Ok(_) => match &args.output {
            Some(_) => Ok(png.as_bytes()),
            None => Err(CommandError::NoOutputPath),
        },
        Err(e) => Err(CommandError::Core(e)),
    }
}

} // verus!
