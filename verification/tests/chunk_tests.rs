use pngme::chunk::Chunk;
use pngme::chunk_type::ChunkType;
use pngme::error::ChunkError;

fn fixture_bytes(crc: u32) -> Vec<u8> {
    let data_length: u32 = 42;
    let chunk_type = "RuSt".as_bytes();
    let message_bytes = "This is where your secret message will be!".as_bytes();

    data_length
        .to_be_bytes()
        .iter()
        .chain(chunk_type.iter())
        .chain(message_bytes.iter())
        .chain(crc.to_be_bytes().iter())
        .copied()
        .collect()
}

fn testing_chunk() -> Chunk {
    let chunk_data = fixture_bytes(2882656334);
    Chunk::parse(chunk_data.as_ref()).unwrap()
}

#[test]
fn test_new_chunk() {
    let chunk_type = ChunkType::from_string("RuSt").unwrap();
    let data = "This is where your secret message will be!"
        .as_bytes()
        .to_vec();
    let chunk = Chunk::new(chunk_type, data);
    assert_eq!(chunk.length(), 42);
    assert_eq!(chunk.crc(), 2882656334);
}

#[test]
fn test_chunk_length() {
    let chunk = testing_chunk();
    assert_eq!(chunk.length(), 42);
}

#[test]
fn test_chunk_type() {
    let chunk = testing_chunk();
    assert_eq!(chunk.chunk_type().display(), String::from("RuSt"));
}

#[test]
fn test_chunk_string() {
    let chunk = testing_chunk();
    let chunk_string = chunk.data_as_string().unwrap();
    let expected_chunk_string = String::from("This is where your secret message will be!");
    assert_eq!(chunk_string, expected_chunk_string);
}

#[test]
fn test_chunk_crc() {
    let chunk = testing_chunk();
    assert_eq!(chunk.crc(), 2882656334);
}

#[test]
fn test_valid_chunk_from_bytes() {
    let chunk_data = fixture_bytes(2882656334);

    let chunk = Chunk::parse(chunk_data.as_ref()).unwrap();

    let chunk_string = chunk.data_as_string().unwrap();
    let expected_chunk_string = String::from("This is where your secret message will be!");

    assert_eq!(chunk.length(), 42);
    assert_eq!(chunk.chunk_type().display(), String::from("RuSt"));
    assert_eq!(chunk_string, expected_chunk_string);
    assert_eq!(chunk.crc(), 2882656334);
}

#[test]
fn test_invalid_chunk_from_bytes() {
    let chunk_data = fixture_bytes(2882656333);

    let chunk = Chunk::parse(chunk_data.as_ref());

    assert!(chunk.is_err());
}

#[test]
pub fn test_chunk_trait_impls() {
    let chunk_data = fixture_bytes(2882656334);

    let chunk: Chunk = Chunk::parse(chunk_data.as_ref()).unwrap();

    let _chunk_string = chunk.display();
}

#[test]
fn test_chunk_display_summary() {
    let chunk = testing_chunk();
    assert_eq!(chunk.display(), "42 - RuSt - 2882656334");
}

#[test]
fn test_checksum_mismatch_reports_both_values() {
    let chunk_data = fixture_bytes(2882656333);
    let err = Chunk::parse(chunk_data.as_ref()).unwrap_err();
    assert_eq!(
        err,
        ChunkError::ChecksumMismatch {
            expected: 2882656334,
            found: 2882656333,
        }
    );
}

#[test]
fn test_canonical_fixture_serialization() {
    let chunk_type = ChunkType::from_string("RuSt").unwrap();
    let data = "This is where your secret message will be!"
        .as_bytes()
        .to_vec();
    let chunk = Chunk::new(chunk_type, data);
    assert_eq!(chunk.length(), 42);
    assert_eq!(chunk.crc(), 2882656334);
    assert_eq!(chunk.size(), 54);
    let bytes = chunk.as_bytes();
    assert_eq!(bytes.len(), 54);
    assert_eq!(bytes.len(), chunk.size());
    assert_eq!(
        &bytes[0..8],
        &[0x00, 0x00, 0x00, 0x2A, 0x52, 0x75, 0x53, 0x74]
    );
    assert_eq!(&bytes[50..54], &2882656334u32.to_be_bytes());
    assert_eq!(bytes, fixture_bytes(2882656334));
}

#[test]
fn test_round_trip() {
    let chunk_type = ChunkType::from_string("RuSt").unwrap();
    let data = "This is where your secret message will be!"
        .as_bytes()
        .to_vec();
    let chunk = Chunk::new(chunk_type, data.clone());
    let parsed = Chunk::parse(&chunk.as_bytes()).unwrap();
    assert_eq!(parsed.length(), chunk.length());
    assert_eq!(parsed.chunk_type(), chunk.chunk_type());
    assert_eq!(parsed.data(), chunk.data());
    assert_eq!(parsed.data(), &data[..]);
    assert_eq!(parsed.crc(), chunk.crc());
}

#[test]
fn test_empty_payload_round_trips() {
    let chunk_type = ChunkType::from_string("RuSt").unwrap();
    let chunk = Chunk::new(chunk_type, Vec::new());
    assert_eq!(chunk.length(), 0);
    assert_eq!(chunk.size(), 12);
    let bytes = chunk.as_bytes();
    assert_eq!(bytes.len(), 12);
    let parsed = Chunk::parse(&bytes).unwrap();
    assert_eq!(parsed.length(), 0);
    assert_eq!(parsed.data(), &[] as &[u8]);
    assert_eq!(parsed.crc(), chunk.crc());
}

#[test]
fn test_exact_buffer_parses_one_short_fails() {
    let chunk_data = fixture_bytes(2882656334);
    assert_eq!(chunk_data.len(), 54);
    assert!(Chunk::parse(&chunk_data).is_ok());
    assert_eq!(
        Chunk::parse(&chunk_data[0..53]).unwrap_err(),
        ChunkError::Truncated
    );
    assert_eq!(Chunk::parse(&[]).unwrap_err(), ChunkError::Truncated);
    assert_eq!(
        Chunk::parse(&chunk_data[0..11]).unwrap_err(),
        ChunkError::Truncated
    );
}

#[test]
fn test_length_cap() {
    let mut chunk_data = fixture_bytes(2882656334);
    chunk_data[0] = 0x80;
    chunk_data[1] = 0x00;
    chunk_data[2] = 0x00;
    chunk_data[3] = 0x00;
    assert_eq!(
        Chunk::parse(&chunk_data).unwrap_err(),
        ChunkError::LengthTooLarge
    );
}

#[test]
fn test_single_bit_flips_are_detected() {
    let good = fixture_bytes(2882656334);
    assert!(Chunk::parse(&good).is_ok());

    // A bit in the length prefix: the declared size no longer fits the buffer.
    let mut tampered = good.clone();
    tampered[3] ^= 0x01;
    assert_eq!(Chunk::parse(&tampered).unwrap_err(), ChunkError::Truncated);

    // The top bit of the length prefix: over the format cap.
    let mut tampered = good.clone();
    tampered[0] ^= 0x80;
    assert_eq!(
        Chunk::parse(&tampered).unwrap_err(),
        ChunkError::LengthTooLarge
    );

    // A high bit in a type byte: no longer ASCII alphabetic.
    let mut tampered = good.clone();
    tampered[4] ^= 0x80;
    assert_eq!(
        Chunk::parse(&tampered).unwrap_err(),
        ChunkError::InvalidTypeByte
    );

    // The case bit of a type byte: still alphabetic, but the checksum breaks.
    let mut tampered = good.clone();
    tampered[4] ^= 0x20;
    assert!(matches!(
        Chunk::parse(&tampered).unwrap_err(),
        ChunkError::ChecksumMismatch { .. }
    ));

    // A payload bit.
    let mut tampered = good.clone();
    tampered[20] ^= 0x04;
    assert!(matches!(
        Chunk::parse(&tampered).unwrap_err(),
        ChunkError::ChecksumMismatch { .. }
    ));

    // A checksum bit.
    let mut tampered = good.clone();
    tampered[53] ^= 0x10;
    assert!(matches!(
        Chunk::parse(&tampered).unwrap_err(),
        ChunkError::ChecksumMismatch { .. }
    ));
}

#[test]
fn test_crc_of_iend() {
    let chunk_type = ChunkType::from_string("IEND").unwrap();
    let chunk = Chunk::new(chunk_type, Vec::new());
    assert_eq!(chunk.crc(), 0xAE426082);
}

#[test]
fn test_data_as_string_invalid_utf8() {
    let chunk_type = ChunkType::from_string("RuSt").unwrap();
    let chunk = Chunk::new(chunk_type, vec![0xFF, 0xFE, 0x00]);
    assert_eq!(chunk.data_as_string().unwrap_err(), ChunkError::InvalidUtf8);
}
