use pngme::chunk::{render, Chunk, CreateChunkError};
use pngme::chunk_type::ChunkType;
use pngme::endian::{from_be_bytes, to_be_bytes};
use pngme::error::Error;
use pngme::text::decimal_string;
use std::convert::TryFrom;
use std::str::FromStr;

fn record(data_length: u32, chunk_type: &str, message: &[u8], crc: u32) -> Vec<u8> {
    data_length
        .to_be_bytes()
        .iter()
        .chain(chunk_type.as_bytes().iter())
        .chain(message.iter())
        .chain(crc.to_be_bytes().iter())
        .copied()
        .collect()
}

fn testing_chunk() -> Chunk {
    let data_length: u32 = 42;
    let chunk_type = "RuSt".as_bytes();
    let message_bytes = "This is where your secret message will be!".as_bytes();
    let crc: u32 = 2882656334;

    let chunk_data: Vec<u8> = data_length
        .to_be_bytes()
        .iter()
        .chain(chunk_type.iter())
        .chain(message_bytes.iter())
        .chain(crc.to_be_bytes().iter())
        .copied()
        .collect();

    let chunk = Chunk::try_from(chunk_data.as_ref()).unwrap();
    println!("{}", chunk.to_string().unwrap());
    chunk
}

#[test]
fn test_chunk_length() {
    let chunk = testing_chunk();
    assert_eq!(chunk.length(), 42);
}

#[test]
fn test_chunk_type() {
    let chunk = testing_chunk();
    assert_eq!(chunk.chunk_type().to_string().unwrap(), String::from("RuSt"));
}

#[test]
fn test_chunk_string() {
    let chunk = testing_chunk();
    let chunk_string = chunk.data_as_string().unwrap();
    let expected_chunk_string = String::from("This is where your secret message will be!");
    println!("{} vs {}", chunk_string, expected_chunk_string);
    assert_eq!(chunk_string, expected_chunk_string);
}

#[test]
fn test_chunk_crc() {
    let chunk = testing_chunk();
    assert_eq!(chunk.crc(), 2882656334);
}

#[test]
fn test_valid_chunk_from_bytes() {
    let data_length: u32 = 42;
    let chunk_type = "RuSt".as_bytes();
    let message_bytes = "This is where your secret message will be!".as_bytes();
    let crc: u32 = 2882656334;

    let chunk_data: Vec<u8> = data_length
        .to_be_bytes()
        .iter()
        .chain(chunk_type.iter())
        .chain(message_bytes.iter())
        .chain(crc.to_be_bytes().iter())
        .copied()
        .collect();

    let chunk = Chunk::try_from(chunk_data.as_ref()).unwrap();

    let chunk_string = chunk.data_as_string().unwrap();
    let expected_chunk_string = String::from("This is where your secret message will be!");

    assert_eq!(chunk.length(), 42);
    assert_eq!(chunk.chunk_type().to_string().unwrap(), String::from("RuSt"));
    assert_eq!(chunk_string, expected_chunk_string);
    assert_eq!(chunk.crc(), 2882656334);
}

#[test]
fn test_invalid_chunk_from_bytes() {
    let data_length: u32 = 42;
    let chunk_type = "RuSt".as_bytes();
    let message_bytes = "This is where your secret message will be!".as_bytes();
    let crc: u32 = 2882656333;

    let chunk_data: Vec<u8> = data_length
        .to_be_bytes()
        .iter()
        .chain(chunk_type.iter())
        .chain(message_bytes.iter())
        .chain(crc.to_be_bytes().iter())
        .copied()
        .collect();

    let chunk = Chunk::try_from(chunk_data.as_ref());

    assert!(chunk.is_err());
}

#[test]
pub fn test_chunk_trait_impls() {
    let data_length: u32 = 42;
    let chunk_type = "RuSt".as_bytes();
    let message_bytes = "This is where your secret message will be!".as_bytes();
    let crc: u32 = 2882656334;

    let chunk_data: Vec<u8> = data_length
        .to_be_bytes()
        .iter()
        .chain(chunk_type.iter())
        .chain(message_bytes.iter())
        .chain(crc.to_be_bytes().iter())
        .copied()
        .collect();

    let chunk: Chunk = TryFrom::try_from(chunk_data.as_ref()).unwrap();

    let _chunk_string = format!("{}", chunk.to_string().unwrap());
}

#[test]
fn wrong_crc_is_a_crc_mismatch() {
    let bytes = record(42, "RuSt", b"This is where your secret message will be!", 2882656333);
    assert_eq!(Chunk::try_from(bytes.as_ref()).unwrap_err(), CreateChunkError::CrcMismatch);
}

#[test]
fn chunk_round_trip() {
    let kind = ChunkType::from_str("teXt").unwrap();
    let chunk = Chunk::new(kind, vec![0, 1, 2, 253, 254, 255]);
    let bytes = chunk.as_bytes();
    let back = Chunk::try_from(bytes.as_ref()).unwrap();
    assert_eq!(back.chunk_type(), chunk.chunk_type());
    assert_eq!(back.data(), chunk.data());
    assert_eq!(back.crc(), chunk.crc());
    assert_eq!(back.as_bytes(), bytes);
}

#[test]
fn record_layout_is_length_type_payload_crc() {
    let chunk = Chunk::new(
        ChunkType::from_str("RuSt").unwrap(),
        b"This is where your secret message will be!".to_vec(),
    );
    let bytes = chunk.as_bytes();
    assert_eq!(bytes.len(), 4 + 4 + 42 + 4);
    assert_eq!(&bytes[0..4], &[0, 0, 0, 42]);
    assert_eq!(&bytes[4..8], b"RuSt");
    assert_eq!(&bytes[8..50], b"This is where your secret message will be!");
    assert_eq!(&bytes[50..54], &[0xAB, 0xD1, 0xD8, 0x4E]);
    assert_eq!(
        bytes,
        record(42, "RuSt", b"This is where your secret message will be!", 2882656334)
    );
}

#[test]
fn empty_payload() {
    let chunk = Chunk::new(ChunkType::from_str("IEND").unwrap(), Vec::new());
    assert_eq!(chunk.length(), 0);
    assert_eq!(chunk.crc(), 0xAE42_6082);
    let bytes = chunk.as_bytes();
    assert_eq!(bytes, vec![0, 0, 0, 0, 73, 69, 78, 68, 0xAE, 0x42, 0x60, 0x82]);
    let back = Chunk::try_from(bytes.as_ref()).unwrap();
    assert_eq!(back.length(), 0);
    assert_eq!(back.chunk_type().bytes(), *b"IEND");
    assert_eq!(back.data_as_string().unwrap(), "");
}

#[test]
fn crc_covers_type_and_payload() {
    let a = Chunk::new(ChunkType::from_str("RuSt").unwrap(), b"abc".to_vec());
    let b = Chunk::new(ChunkType::from_str("RuSu").unwrap(), b"abc".to_vec());
    let c = Chunk::new(ChunkType::from_str("RuSt").unwrap(), b"abd".to_vec());
    assert_ne!(a.crc(), b.crc());
    assert_ne!(a.crc(), c.crc());
    assert_ne!(a.crc(), 0);
}

#[test]
fn every_flipped_bit_of_type_or_payload_is_a_crc_mismatch() {
    let good = testing_chunk().as_bytes();
    for byte in 4..good.len() - 4 {
        for bit in 0..8 {
            let mut bad = good.clone();
            bad[byte] ^= 1 << bit;
            assert_eq!(
                Chunk::try_from(bad.as_ref()).unwrap_err(),
                CreateChunkError::CrcMismatch
            );
        }
    }
}

#[test]
fn short_input_is_truncated() {
    let good = testing_chunk().as_bytes();
    for keep in 0..good.len() {
        assert_eq!(
            Chunk::try_from(&good[..keep]).unwrap_err(),
            CreateChunkError::Truncated
        );
    }
    assert!(Chunk::try_from(&good[..]).is_ok());
}

#[test]
fn declared_length_beyond_the_input_is_truncated() {
    let bytes = record(0xFFFF_FFFF, "RuSt", b"abc", 0);
    assert_eq!(Chunk::try_from(bytes.as_ref()).unwrap_err(), CreateChunkError::Truncated);
    let bytes = record(4, "RuSt", b"abc", 0);
    assert_eq!(Chunk::try_from(bytes.as_ref()).unwrap_err(), CreateChunkError::Truncated);
}

#[test]
fn bytes_behind_the_record_are_not_read() {
    let mut bytes = testing_chunk().as_bytes();
    bytes.extend_from_slice(&[1, 2, 3, 4, 5]);
    let chunk = Chunk::try_from(bytes.as_ref()).unwrap();
    assert_eq!(chunk.length(), 42);
    assert_eq!(chunk.data_as_string().unwrap(), "This is where your secret message will be!");
}

#[test]
fn type_bytes_are_not_validated_when_a_record_is_read() {
    let chunk = Chunk::new(ChunkType::try_from([1, 2, 3, 4]).unwrap(), vec![9]);
    let back = Chunk::try_from(chunk.as_bytes().as_ref()).unwrap();
    assert_eq!(back.chunk_type().bytes(), [1, 2, 3, 4]);
    assert!(!back.chunk_type().is_valid());
}

#[test]
fn payload_that_is_not_text() {
    let chunk = Chunk::new(ChunkType::from_str("RuSt").unwrap(), vec![0xFF, 0xFE]);
    assert_eq!(chunk.data_as_string().unwrap_err(), Error::InvalidUtf8);
    let chunk = Chunk::new(ChunkType::from_str("RuSt").unwrap(), vec![0xC3]);
    assert_eq!(chunk.data_as_string().unwrap_err(), Error::InvalidUtf8);
    let chunk = Chunk::new(ChunkType::from_str("RuSt").unwrap(), vec![0xC3, 0xA9]);
    assert_eq!(chunk.data_as_string().unwrap(), "\u{e9}");
}

#[test]
fn chunk_as_text() {
    let chunk = testing_chunk();
    assert_eq!(
        chunk.to_string().unwrap(),
        "Chunk {\n  Length: 42\n  Type: RuSt\n  Data: 42 bytes\n  Crc: 2882656334\n}\n"
    );
    let odd = Chunk::new(ChunkType::try_from([0xFF, 65, 65, 65]).unwrap(), Vec::new());
    assert_eq!(odd.to_string().unwrap_err(), Error::InvalidUtf8);
}

#[test]
fn create_chunk_error_as_text() {
    assert_eq!(CreateChunkError::Truncated.to_string(), "Failed to parse chunk!");
    assert_eq!(
        CreateChunkError::CrcMismatch.to_string(),
        "CRC does not match calculated value!"
    );
}

#[test]
fn record_failures_keep_their_kind() {
    assert_eq!(Error::from(CreateChunkError::Truncated), Error::Truncated);
    assert_eq!(Error::from(CreateChunkError::CrcMismatch), Error::CrcMismatch);
}

#[test]
fn big_endian_numbers() {
    assert_eq!(to_be_bytes(0x0102_0304), [1, 2, 3, 4]);
    assert_eq!(to_be_bytes(0), [0, 0, 0, 0]);
    assert_eq!(to_be_bytes(42), [0, 0, 0, 42]);
    assert_eq!(to_be_bytes(u32::MAX), [255, 255, 255, 255]);
    assert_eq!(to_be_bytes(2882656334), [0xAB, 0xD1, 0xD8, 0x4E]);
    assert_eq!(from_be_bytes([1, 2, 3, 4]), 0x0102_0304);
    assert_eq!(from_be_bytes([0, 0, 1, 0]), 256);
    assert_eq!(from_be_bytes([255, 255, 255, 255]), u32::MAX);
    for n in [0u32, 1, 255, 256, 65535, 65536, 0x00FF_FFFF, 0x0100_0000, 0x8000_0000, u32::MAX] {
        assert_eq!(to_be_bytes(n), n.to_be_bytes());
        assert_eq!(from_be_bytes(to_be_bytes(n)), n);
    }
}

#[test]
fn numbers_in_base_ten() {
    assert_eq!(decimal_string(0), "0");
    assert_eq!(decimal_string(7), "7");
    assert_eq!(decimal_string(10), "10");
    assert_eq!(decimal_string(42), "42");
    assert_eq!(decimal_string(2882656334), "2882656334");
    assert_eq!(decimal_string(u64::MAX), "18446744073709551615");
}

#[test]
fn fields_are_read_without_a_crc_check() {
    let bytes = record(3, "RuSt", b"abc", 0x0102_0304);
    let (chunk, stored) = Chunk::read_fields(&bytes).unwrap();
    assert_eq!(chunk.chunk_type().bytes(), *b"RuSt");
    assert_eq!(chunk.data(), b"abc");
    assert_eq!(stored, 0x0102_0304);
    assert_eq!(Chunk::read_fields(&bytes[..14]).unwrap_err(), CreateChunkError::Truncated);
    assert_eq!(Chunk::read_fields(&[]).unwrap_err(), CreateChunkError::Truncated);
}

#[test]
fn a_chunk_passes_when_the_crcs_agree() {
    let chunk = Chunk::new(ChunkType::from_str("RuSt").unwrap(), b"abc".to_vec());
    let passed = chunk.accept(7, 7).unwrap();
    assert_eq!(passed.data(), b"abc");
    assert_eq!(passed.accept(7, 8).unwrap_err(), CreateChunkError::CrcMismatch);
}

#[test]
fn record_with_a_given_crc() {
    let chunk = Chunk::new(ChunkType::from_str("RuSt").unwrap(), b"abc".to_vec());
    assert_eq!(
        chunk.as_bytes_with(0x0102_0304),
        vec![0, 0, 0, 3, 82, 117, 83, 116, 97, 98, 99, 1, 2, 3, 4]
    );
    assert_eq!(chunk.as_bytes_with(chunk.crc()), chunk.as_bytes());
}

#[test]
fn block_of_lines() {
    assert_eq!(
        render(3, "RuSt", 7),
        "Chunk {\n  Length: 3\n  Type: RuSt\n  Data: 3 bytes\n  Crc: 7\n}\n"
    );
}
