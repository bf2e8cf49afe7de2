//! Chunk-level reading and writing of PNG byte streams.
//!
//! A PNG stream is the fixed eight-byte signature followed by framed records
//! ("chunks"). Each record carries a big-endian payload length, a four-byte
//! type, the payload, and a CRC-32 of type and payload. This crate parses such
//! streams, lets callers add, find and remove chunks by type, and writes the
//! structure back byte for byte.
//!
//! [`chunk_type`], [`chunk`] and [`png`] are the three layers of the format.
//! [`commands`] builds on them what a command-line tool needs to hide a
//! message in a file, to read it back and to take it out again.

pub mod args;
pub mod checksum;
pub mod chunk;
pub mod chunk_type;
pub mod cipher;
pub mod commands;
pub mod endian;
pub mod error;
pub mod png;
pub mod text;
