//! What the three commands are told.

use std::path::PathBuf;
use vstd::prelude::*;

verus! {

/// A path of the file system; nothing in it is read here.
#[verifier::external_type_specification]
#[verifier::external_body]
pub struct ExPathBuf(PathBuf);

/// What `encode` is told.
#[derive(Debug)]
pub struct EncodingArgs {
    /// The PNG file to read.
    pub path: PathBuf,
    /// The type of the chunk to add, as text.
    pub chunk_type: String,
    /// The message to store.
    pub message: String,
    /// The key to encrypt the message with, if it is to be encrypted.
    pub key: Option<String>,
    /// The file to write; without one the result is shown.
    pub output: Option<PathBuf>,
}

/// What `decode` is told.
#[derive(Debug)]
pub struct DecodingArgs {
    /// The PNG file to read.
    pub path: PathBuf,
    /// The type of the chunk that holds the message, as text.
    pub chunk_type: String,
    /// The key that the message was encrypted with, if it was.
    pub key: Option<String>,
}

/// What `remove` is told.
#[derive(Debug)]
pub struct RemovingArgs {
    /// The PNG file to read.
    pub path: PathBuf,
    /// The type of the chunk to take out, as text.
    pub chunk_type: String,
    /// Not used.
    pub key: Option<String>,
    /// The file to write.
    pub output: Option<PathBuf>,
}

/// The key as a sequence of characters, if there is one.
pub open spec fn key_text(key: Option<String>) -> Option<Seq<char>> {
    match key {
        Some(k) => Some(k@),
        None => None,
    }
}

} // verus!
