use pngme::chunk_type::ChunkType;
use pngme::error::PngError;
use std::convert::TryFrom;
use std::str::FromStr;

#[test]
pub fn test_chunk_type_from_bytes() {
    let expected = [82, 117, 83, 116];
    let actual = ChunkType::try_from([82, 117, 83, 116]).unwrap();

    assert_eq!(expected, actual.bytes());
}

#[test]
pub fn test_chunk_type_from_str() {
    let expected = ChunkType::try_from([82, 117, 83, 116]).unwrap();
    let actual = ChunkType::from_str("RuSt").unwrap();
    assert_eq!(expected, actual);
}

#[test]
pub fn test_chunk_type_is_critical() {
    let chunk = ChunkType::from_str("RuSt").unwrap();
    assert!(chunk.is_critical());
}

#[test]
pub fn test_chunk_type_is_not_critical() {
    let chunk = ChunkType::from_str("ruSt").unwrap();
    assert!(!chunk.is_critical());
}

#[test]
pub fn test_chunk_type_is_public() {
    let chunk = ChunkType::from_str("RUSt").unwrap();
    assert!(chunk.is_public());
}

#[test]
pub fn test_chunk_type_is_not_public() {
    let chunk = ChunkType::from_str("RuSt").unwrap();
    assert!(!chunk.is_public());
}

#[test]
pub fn test_chunk_type_is_reserved_bit_valid() {
    let chunk = ChunkType::from_str("RuSt").unwrap();
    assert!(chunk.is_reserved_bit_valid());
}

#[test]
pub fn test_chunk_type_is_reserved_bit_invalid() {
    let chunk = ChunkType::from_str("Rust").unwrap();
    assert!(!chunk.is_reserved_bit_valid());
}

#[test]
pub fn test_chunk_type_is_safe_to_copy() {
    let chunk = ChunkType::from_str("RuSt").unwrap();
    assert!(chunk.is_safe_to_copy());
}

#[test]
pub fn test_chunk_type_is_unsafe_to_copy() {
    let chunk = ChunkType::from_str("RuST").unwrap();
    assert!(!chunk.is_safe_to_copy());
}

#[test]
pub fn test_valid_chunk_is_valid() {
    let chunk = ChunkType::from_str("RuSt").unwrap();
    assert!(chunk.is_valid());
}

#[test]
pub fn test_invalid_chunk_is_valid() {
    let chunk = ChunkType::from_str("Rust").unwrap();
    assert!(!chunk.is_valid());

    let chunk = ChunkType::from_str("Ru1t");
    assert!(chunk.is_err());
}

#[test]
pub fn test_chunk_type_string() {
    let chunk = ChunkType::from_str("RuSt").unwrap();
    assert_eq!(&chunk.to_string(), "RuSt");
}

#[test]
pub fn test_chunk_type_trait_impls() {
    let chunk_type_1: ChunkType = TryFrom::try_from([82, 117, 83, 116]).unwrap();
    let chunk_type_2: ChunkType = FromStr::from_str("RuSt").unwrap();
    let _chunk_string = chunk_type_1.to_string();
    let _are_chunks_equal = chunk_type_1 == chunk_type_2;
}

#[test]
fn flags_of_mixed_case_code() {
    let t = ChunkType::from_str("AbCd").unwrap();
    assert!(t.is_critical());
    assert!(!t.is_public());
    assert!(t.is_reserved_bit_valid());
    assert!(t.is_safe_to_copy());
    assert!(t.is_valid());
}

#[test]
fn lowercase_third_byte_is_not_valid() {
    let t = ChunkType::from_str("Abcd").unwrap();
    assert!(!t.is_reserved_bit_valid());
    assert!(!t.is_valid());
}

#[test]
fn bytes_accepted_exactly_when_letters() {
    assert_eq!(ChunkType::from_bytes([0x31, 0x32, 0x33, 0x34]), Err(PngError::InvalidTypeCode));
    assert_eq!(ChunkType::from_bytes([b'A', b'b', b'[', b'd']), Err(PngError::InvalidTypeCode));
    assert_eq!(ChunkType::from_bytes([b'A', b'b', b'`', b'd']), Err(PngError::InvalidTypeCode));
    assert_eq!(ChunkType::from_bytes([b'@', b'Z', b'a', b'z']), Err(PngError::InvalidTypeCode));
    let t = ChunkType::from_bytes([b'A', b'Z', b'a', b'z']).unwrap();
    assert_eq!(t.bytes(), [b'A', b'Z', b'a', b'z']);
}

#[test]
fn text_of_wrong_length_is_rejected() {
    assert_eq!(ChunkType::from_str("Rus"), Err(PngError::InvalidLength));
    assert_eq!(ChunkType::from_str("RuStx"), Err(PngError::InvalidLength));
    assert_eq!(ChunkType::from_str(""), Err(PngError::InvalidLength));
}

#[test]
fn text_with_non_letter_is_rejected() {
    assert_eq!(ChunkType::from_str("Ru t"), Err(PngError::InvalidTypeCode));
    assert_eq!(ChunkType::from_str("RuS\u{e9}"), Err(PngError::InvalidTypeCode));
}

#[test]
fn equality_is_byte_for_byte() {
    let a = ChunkType::from_str("RuSt").unwrap();
    let b = ChunkType::from_str("RuST").unwrap();
    assert!(a != b);
    assert!(a == a.clone());
}
