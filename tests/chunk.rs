use edpg::chunk::{Chunk, ChunkError};
use edpg::chunk_type::ChunkType;
use std::convert::TryFrom;
use std::str::FromStr;

const MESSAGE: &str = "This is where your secret message will be!";

fn record(data_length: u32, chunk_type: &[u8], message: &[u8], crc: u32) -> Vec<u8> {
    data_length
        .to_be_bytes()
        .iter()
        .chain(chunk_type.iter())
        .chain(message.iter())
        .chain(crc.to_be_bytes().iter())
        .copied()
        .collect()
}

fn testing_chunk() -> Chunk {
    let chunk_data = record(42, "RuSt".as_bytes(), MESSAGE.as_bytes(), 2882656334);
    Chunk::try_from(chunk_data.as_ref()).unwrap()
}

#[test]
fn test_new_chunk() {
    let chunk_type = ChunkType::from_str("RuSt").unwrap();
    let data = MESSAGE.as_bytes().to_vec();
    let chunk = Chunk::new(chunk_type, data);
    assert_eq!(chunk.length(), 42);
    assert_eq!(chunk.crc(), 2882656334);
}

#[test]
fn test_chunk_length() {
    let chunk = testing_chunk();
    assert_eq!(chunk.length(), 42);
}

#[test]
fn test_chunk_type() {
    let chunk = testing_chunk();
    assert_eq!(chunk.chunk_type().to_string(), String::from("RuSt"));
}

#[test]
fn test_chunk_string() {
    let chunk = testing_chunk();
    let chunk_string = chunk.data_as_string().unwrap();
    let expected_chunk_string = String::from(MESSAGE);
    assert_eq!(chunk_string, expected_chunk_string);
}

#[test]
fn test_chunk_crc() {
    let chunk = testing_chunk();
    assert_eq!(chunk.crc(), 2882656334);
}

#[test]
fn test_valid_chunk_from_bytes() {
    let chunk_data = record(42, "RuSt".as_bytes(), MESSAGE.as_bytes(), 2882656334);
    let chunk = Chunk::try_from(chunk_data.as_ref()).unwrap();

    let chunk_string = chunk.data_as_string().unwrap();
    let expected_chunk_string = String::from(MESSAGE);

    assert_eq!(chunk.length(), 42);
    assert_eq!(chunk.chunk_type().to_string(), String::from("RuSt"));
    assert_eq!(chunk_string, expected_chunk_string);
    assert_eq!(chunk.crc(), 2882656334);
}

#[test]
fn test_invalid_chunk_from_bytes() {
    let chunk_data = record(42, "RuSt".as_bytes(), MESSAGE.as_bytes(), 2882656333);
    let chunk = Chunk::try_from(chunk_data.as_ref());
    assert!(chunk.is_err());
}

#[test]
fn test_chunk_trait_impls() {
    let chunk_data = record(42, "RuSt".as_bytes(), MESSAGE.as_bytes(), 2882656334);
    let chunk: Chunk = TryFrom::try_from(chunk_data.as_ref()).unwrap();
    println!("{}", chunk.to_string());
    let _chunk_string = chunk.to_string();
}

#[test]
fn concrete_vector_serializes_to_hand_built_record() {
    let chunk = Chunk::new(ChunkType::parse("RuSt").unwrap(), MESSAGE.as_bytes().to_vec());
    let expected = record(42, "RuSt".as_bytes(), MESSAGE.as_bytes(), 2882656334);
    assert_eq!(chunk.as_bytes(), expected);
}

#[test]
fn concrete_vector_wrong_checksum_is_reported() {
    let chunk_data = record(42, "RuSt".as_bytes(), MESSAGE.as_bytes(), 2882656333);
    assert_eq!(
        Chunk::parse(&chunk_data).unwrap_err(),
        ChunkError::IncorrectCrc { found_crc: 2882656333, expected_crc: 2882656334 }
    );
}

#[test]
fn round_trip_keeps_type_payload_and_checksum() {
    for payload in [Vec::new(), vec![0u8], vec![0xff; 300], b"IEND".to_vec()] {
        let chunk = Chunk::new(ChunkType::parse("teXt").unwrap(), payload.clone());
        let back = Chunk::parse(&chunk.as_bytes()).unwrap();
        assert_eq!(back.chunk_type().bytes(), *b"teXt");
        assert_eq!(back.data(), &payload[..]);
        assert_eq!(back.crc(), chunk.crc());
        assert_eq!(back.length() as usize, payload.len());
    }
}

#[test]
fn empty_payload_round_trips() {
    let chunk = Chunk::new(ChunkType::parse("IEND").unwrap(), Vec::new());
    let bytes = chunk.as_bytes();
    assert_eq!(bytes.len(), 12);
    assert_eq!(&bytes[0..8], &[0, 0, 0, 0, b'I', b'E', b'N', b'D']);
    // The well-known checksum of an IEND chunk.
    assert_eq!(chunk.crc(), 0xAE426082);
    let back = Chunk::parse(&bytes).unwrap();
    assert_eq!(back.length(), 0);
}

#[test]
fn flipping_any_checksum_bit_fails_with_incorrect_crc() {
    let good = Chunk::new(ChunkType::parse("RuSt").unwrap(), MESSAGE.as_bytes().to_vec()).as_bytes();
    let n = good.len();
    for k in n - 4..n {
        for bit in 0..8 {
            let mut bad = good.clone();
            bad[k] ^= 1u8 << bit;
            match Chunk::parse(&bad) {
                Err(ChunkError::IncorrectCrc { found_crc, expected_crc }) => {
                    assert_eq!(expected_crc, 2882656334);
                    assert_ne!(found_crc, expected_crc);
                }
                other => panic!("unexpected result: {:?}", other.map(|c| c.length())),
            }
        }
    }
}

#[test]
fn fewer_than_twelve_bytes_is_short_input() {
    for len in 0..12 {
        let bytes = vec![0u8; len];
        assert_eq!(Chunk::parse(&bytes).unwrap_err(), ChunkError::ShortInput);
    }
}

#[test]
fn declared_length_past_end_is_short_input() {
    let mut bytes = record(42, "RuSt".as_bytes(), MESSAGE.as_bytes(), 2882656334);
    bytes.pop();
    assert_eq!(Chunk::parse(&bytes).unwrap_err(), ChunkError::ShortInput);
    let huge = record(u32::MAX, "RuSt".as_bytes(), b"", 0);
    assert_eq!(Chunk::parse(&huge).unwrap_err(), ChunkError::ShortInput);
}

#[test]
fn invalid_type_code_is_rejected() {
    let bytes = record(0, b"Rust", b"", 0);
    assert_eq!(Chunk::parse(&bytes).unwrap_err(), ChunkError::InvalidChunkType);
    let bytes = record(0, b"Ru1t", b"", 0);
    assert_eq!(Chunk::parse(&bytes).unwrap_err(), ChunkError::InvalidChunkType);
}

#[test]
fn bytes_after_the_record_are_not_read() {
    let mut bytes = record(42, "RuSt".as_bytes(), MESSAGE.as_bytes(), 2882656334);
    bytes.extend_from_slice(&[1, 2, 3]);
    let chunk = Chunk::parse(&bytes).unwrap();
    assert_eq!(chunk.data(), MESSAGE.as_bytes());
}

#[test]
fn non_utf8_payload_is_invalid_utf8() {
    let chunk = Chunk::new(ChunkType::parse("RuSt").unwrap(), vec![0xc3, 0x28]);
    assert_eq!(chunk.data_as_string().unwrap_err(), ChunkError::InvalidUtf8);
}

#[test]
fn chunk_renders_type_and_payload_bytes() {
    let chunk = Chunk::new(ChunkType::parse("RuSt").unwrap(), vec![1, 2, 255]);
    assert_eq!(chunk.to_string(), "RuSt: [1, 2, 255]");
}

#[test]
fn record_bytes_writes_any_checksum_field() {
    let code = ChunkType::parse("RuSt").unwrap();
    let bytes = Chunk::record_bytes(&code, MESSAGE.as_bytes(), 2882656333);
    assert_eq!(bytes, record(42, "RuSt".as_bytes(), MESSAGE.as_bytes(), 2882656333));
    let empty = Chunk::record_bytes(&code, b"", 0x01020304);
    assert_eq!(empty, vec![0, 0, 0, 0, b'R', b'u', b'S', b't', 1, 2, 3, 4]);
}
