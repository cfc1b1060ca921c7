use edpg::chunk_type::{ChunkType, ChunkTypeError};
use std::convert::TryFrom;
use std::str::FromStr;

#[test]
fn chunk_type_test_non_ascii_char_found() {
    // "é" takes two bytes, so the text is four bytes long.
    let result = ChunkType::from_str("bcé");
    assert_eq!(result.unwrap_err(), ChunkTypeError::NonAsciiCharFound);
}

#[test]
fn chunk_type_test_invalid_length() {
    let result = ChunkType::from_str("abc");
    assert_eq!(result.unwrap_err(), ChunkTypeError::InvalidLength);
}

#[test]
fn chunk_type_test_some_other_thing_error() {
    let result = ChunkType::from_str("abcdxyz");
    assert_eq!(result.unwrap_err(), ChunkTypeError::InvalidLength);
}

#[test]
fn chunk_type_test_chunk_type_from_bytes() {
    let expected = [82, 117, 83, 116];
    let actual = ChunkType::try_from([82, 117, 83, 116]).unwrap();
    assert_eq!(expected, actual.bytes());
}

#[test]
fn chunk_type_test_chunk_type_from_str() {
    let expected = ChunkType::try_from([82, 117, 83, 116]).unwrap();
    let actual = ChunkType::from_str("RuSt").unwrap();
    assert_eq!(expected, actual);
}

#[test]
fn chunk_type_test_chunk_type_is_critical() {
    let chunk = ChunkType::from_str("RuSt").unwrap();
    assert!(chunk.is_critical());
}

#[test]
fn chunk_type_test_chunk_type_is_not_critical() {
    let chunk = ChunkType::from_str("ruSt").unwrap();
    assert!(!chunk.is_critical());
}

#[test]
fn chunk_type_test_chunk_type_is_public() {
    let chunk = ChunkType::from_str("RUSt").unwrap();
    assert!(chunk.is_public());
}

#[test]
fn chunk_type_test_chunk_type_is_not_public() {
    let chunk = ChunkType::from_str("RuSt").unwrap();
    assert!(!chunk.is_public());
}

#[test]
fn chunk_type_test_chunk_type_is_reserved_bit_valid() {
    let chunk = ChunkType::from_str("RuSt").unwrap();
    assert!(chunk.is_reserved_bit_valid());
}

#[test]
fn chunk_type_test_chunk_type_is_reserved_bit_invalid() {
    let chunk = ChunkType::from_str("Rust").unwrap();
    assert!(!chunk.is_reserved_bit_valid());
}

#[test]
fn chunk_type_test_chunk_type_is_safe_to_copy() {
    let chunk = ChunkType::from_str("RuSt").unwrap();
    assert!(chunk.is_safe_to_copy());
}

#[test]
fn chunk_type_test_chunk_type_is_unsafe_to_copy() {
    let chunk = ChunkType::from_str("RuST").unwrap();
    assert!(!chunk.is_safe_to_copy());
}

#[test]
fn chunk_type_test_valid_chunk_is_valid() {
    let chunk = ChunkType::from_str("RuSt").unwrap();
    assert!(chunk.is_valid());
}

#[test]
fn chunk_type_test_invalid_chunk_is_valid() {
    let chunk = ChunkType::from_str("Rust").unwrap();
    assert!(!chunk.is_valid());

    let chunk = ChunkType::from_str("Ru1t");
    assert!(chunk.is_err());
}

#[test]
fn chunk_type_test_chunk_type_string() {
    let chunk = ChunkType::from_str("RuSt").unwrap();
    assert_eq!(&chunk.to_string(), "RuSt");
}

#[test]
fn chunk_type_test_chunk_type_trait_impls() {
    let chunk_type_1: ChunkType = TryFrom::try_from([82, 117, 83, 116]).unwrap();
    let chunk_type_2: ChunkType = FromStr::from_str("RuSt").unwrap();
    let _chunk_string = chunk_type_1.to_string();
    let _are_chunks_equal = chunk_type_1 == chunk_type_2;
}

#[test]
fn rust_code_truth_table() {
    let code = ChunkType::parse("RuSt").unwrap();
    assert!(code.is_critical());
    assert!(!code.is_public());
    assert!(code.is_reserved_bit_valid());
    assert!(code.is_safe_to_copy());
    assert!(code.is_valid());
    assert!(code.is_valid_byte());

    let lower_third = ChunkType::parse("Rust").unwrap();
    assert!(!lower_third.is_reserved_bit_valid());
    assert!(!lower_third.is_valid());

    assert_eq!(ChunkType::parse("Ru1t").unwrap_err(), ChunkTypeError::NonAsciiCharFound);
    assert_eq!(ChunkType::parse("abc").unwrap_err(), ChunkTypeError::InvalidLength);
}

#[test]
fn empty_text_is_invalid_length() {
    assert_eq!(ChunkType::parse("").unwrap_err(), ChunkTypeError::InvalidLength);
}

#[test]
fn raw_bytes_are_kept_unchecked() {
    let code = ChunkType::from_raw_bytes([b'1', b'a', b'b', b'C']);
    assert_eq!(code.bytes(), [b'1', b'a', b'b', b'C']);
    assert!(!code.is_valid_byte());
    assert!(!code.is_valid());
    assert!(!code.is_critical());
    assert!(!code.is_public());
    assert!(!code.is_safe_to_copy());
}

#[test]
fn non_utf8_code_renders_without_failing() {
    let code = ChunkType::from_raw_bytes([0xff, b'a', b'B', b'c']);
    let text = code.to_string();
    assert!(text.ends_with("aBc"));
    assert!(text.contains('\u{fffd}'));
}
