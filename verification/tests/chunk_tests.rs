use png_chunk::chunk::{verify_checksum, Chunk};
use png_chunk::chunk_type::ChunkType;
use png_chunk::error::Error;

fn testing_chunk() -> Chunk {
    let chunk_type = ChunkType::from_str("RuSt").unwrap();
    let data: Vec<u8> = "This is where your secret message will be!"
        .bytes()
        .collect();
    Chunk::new(chunk_type, data)
}

fn testing_frame(crc: u32) -> Vec<u8> {
    let data_length: u32 = 42;
    let chunk_type = "RuSt".as_bytes();
    let message_bytes = "This is where your secret message will be!".as_bytes();
    data_length
        .to_be_bytes()
        .iter()
        .chain(chunk_type.iter())
        .chain(message_bytes.iter())
        .chain(crc.to_be_bytes().iter())
        .copied()
        .collect()
}

#[test]
fn test_chunk_length() {
    let chunk = testing_chunk();
    assert_eq!(chunk.length(), 42);
}

#[test]
fn test_chunk_type() {
    let chunk = testing_chunk();
    assert_eq!(chunk.chunk_type().to_string().unwrap(), String::from("RuSt"));
}

#[test]
fn test_chunk_string() {
    let chunk = testing_chunk();
    let chunk_string = chunk.data_as_string().unwrap();
    let expected_chunk_string = String::from("This is where your secret message will be!");
    assert_eq!(chunk_string, expected_chunk_string);
}

#[test]
fn test_chunk_crc() {
    let chunk = testing_chunk();
    assert_eq!(chunk.crc(), 2882656334);
}

#[test]
fn test_valid_chunk_from_bytes() {
    let data_length: u32 = 42;
    let chunk_type = "RuSt".as_bytes();
    let message_bytes = "This is where your secret message will be!".as_bytes();
    let crc: u32 = 2882656334;

    let chunk_data: Vec<u8> = data_length
        .to_be_bytes()
        .iter()
        .chain(chunk_type.iter())
        .chain(message_bytes.iter())
        .chain(crc.to_be_bytes().iter())
        .copied()
        .collect();

    let chunk = Chunk::try_from(chunk_data.as_ref()).unwrap();

    let chunk_string = chunk.data_as_string().unwrap();
    let expected_chunk_string = String::from("This is where your secret message will be!");

    assert_eq!(chunk.length(), 42);
    assert_eq!(chunk.chunk_type().to_string().unwrap(), String::from("RuSt"));
    assert_eq!(chunk_string, expected_chunk_string);
    assert_eq!(chunk.crc(), 2882656334);
}

#[test]
fn test_invalid_chunk_from_bytes() {
    let data_length: u32 = 42;
    let chunk_type = "RuSt".as_bytes();
    let message_bytes = "This is where your secret message will be!".as_bytes();
    let crc: u32 = 2882656333;

    let chunk_data: Vec<u8> = data_length
        .to_be_bytes()
        .iter()
        .chain(chunk_type.iter())
        .chain(message_bytes.iter())
        .chain(crc.to_be_bytes().iter())
        .copied()
        .collect();

    let chunk = Chunk::try_from(chunk_data.as_ref());

    assert!(chunk.is_err());
}

#[test]
fn end_to_end_example() {
    let chunk = testing_chunk();
    assert_eq!(chunk.length(), 42);
    assert_eq!(chunk.crc(), 2882656334);

    let frame = testing_frame(2882656334);
    assert_eq!(frame.len(), 12 + 42);
    assert_eq!(chunk.as_bytes(), frame);

    let parsed = Chunk::try_from(&frame[..]).unwrap();
    assert_eq!(parsed.length(), chunk.length());
    assert_eq!(parsed.chunk_type(), chunk.chunk_type());
    assert_eq!(parsed.data(), chunk.data());
    assert_eq!(parsed.crc(), chunk.crc());

    let corrupt = testing_frame(2882656333);
    assert_eq!(Chunk::try_from(&corrupt[..]).err(), Some(Error::ChecksumMismatch));
}

#[test]
fn new_keeps_its_parts() {
    let code = ChunkType::try_from([1, 2, 3, 4]).unwrap();
    let chunk = Chunk::new(code, vec![9, 8, 7, 0, 255]);
    assert_eq!(chunk.chunk_type().bytes(), &[1, 2, 3, 4]);
    assert_eq!(chunk.data(), &[9, 8, 7, 0, 255]);
    assert_eq!(chunk.length(), 5);
}

#[test]
fn crc_is_the_checksum_of_type_then_payload() {
    let payloads: [&[u8]; 5] = [b"", b"a", b"56789", &[0, 1, 2, 255, 254], &[0u8; 300]];
    for code in ["RuSt", "IEND", "tEXt"] {
        for payload in payloads {
            let chunk = Chunk::new(ChunkType::from_str(code).unwrap(), payload.to_vec());
            let mut covered = code.as_bytes().to_vec();
            covered.extend_from_slice(payload);
            assert_eq!(chunk.crc(), crc::crc32::checksum_ieee(&covered));
        }
    }
}

#[test]
fn crc_of_known_vectors() {
    // The check value of CRC-32: the digits one to nine.
    let chunk = Chunk::new(ChunkType::try_from(*b"1234").unwrap(), b"56789".to_vec());
    assert_eq!(chunk.crc(), 0xcbf4_3926);
    // The closing chunk of every PNG file.
    let chunk = Chunk::new(ChunkType::from_str("IEND").unwrap(), Vec::new());
    assert_eq!(chunk.crc(), 0xae42_6082);
}

#[test]
fn length_is_the_payload_length() {
    for n in [0usize, 1, 2, 255, 256, 257, 65_535, 65_536, 100_000] {
        let chunk = Chunk::new(ChunkType::from_str("RuSt").unwrap(), vec![7u8; n]);
        assert_eq!(chunk.length() as usize, n);
        assert_eq!(chunk.data().len(), n);
    }
}

#[test]
fn as_bytes_lays_out_the_frame() {
    let chunk = Chunk::new(ChunkType::try_from(*b"1234").unwrap(), b"56789".to_vec());
    assert_eq!(
        chunk.as_bytes(),
        vec![0, 0, 0, 5, 0x31, 0x32, 0x33, 0x34, 0x35, 0x36, 0x37, 0x38, 0x39, 0xcb, 0xf4, 0x39, 0x26]
    );
    let chunk = Chunk::new(ChunkType::from_str("IEND").unwrap(), Vec::new());
    assert_eq!(
        chunk.as_bytes(),
        vec![0, 0, 0, 0, 0x49, 0x45, 0x4e, 0x44, 0xae, 0x42, 0x60, 0x82]
    );
}

#[test]
fn as_bytes_writes_the_length_big_endian() {
    let chunk = Chunk::new(ChunkType::from_str("RuSt").unwrap(), vec![0u8; 0x0001_0203]);
    let bytes = chunk.as_bytes();
    assert_eq!(bytes.len(), 12 + 0x0001_0203);
    assert_eq!(&bytes[0..4], &[0, 1, 2, 3]);
    assert_eq!(&bytes[4..8], b"RuSt");
    assert_eq!(&bytes[bytes.len() - 4..], &chunk.crc().to_be_bytes());
}

#[test]
fn round_trip() {
    let payloads: [&[u8]; 6] =
        [b"", b"a", b"hello", &[0, 0, 0, 0], &[255; 17], &[0x80, 0xff, 0x00, 0x7f]];
    for code in [[82, 117, 83, 116], [0, 0, 0, 0], [255, 254, 253, 252], [73, 69, 78, 68]] {
        for payload in payloads {
            let chunk = Chunk::new(ChunkType::try_from(code).unwrap(), payload.to_vec());
            let bytes = chunk.as_bytes();
            assert_eq!(bytes.len(), 12 + payload.len());
            let parsed = Chunk::try_from(&bytes[..]).unwrap();
            assert_eq!(parsed.length(), chunk.length());
            assert_eq!(parsed.chunk_type(), chunk.chunk_type());
            assert_eq!(parsed.data(), chunk.data());
            assert_eq!(parsed.crc(), chunk.crc());
            assert_eq!(parsed.as_bytes(), bytes);
        }
    }
}

#[test]
fn every_flipped_bit_of_payload_or_checksum_is_detected() {
    let bytes = testing_chunk().as_bytes();
    for index in 8..bytes.len() {
        for bit in 0..8 {
            let mut changed = bytes.clone();
            changed[index] ^= 1 << bit;
            assert_eq!(
                Chunk::try_from(&changed[..]).err(),
                Some(Error::ChecksumMismatch),
                "byte {} bit {}",
                index,
                bit
            );
        }
    }
}

#[test]
fn every_flipped_bit_of_the_type_code_is_detected() {
    let bytes = testing_chunk().as_bytes();
    for index in 4..8 {
        for bit in 0..8 {
            let mut changed = bytes.clone();
            changed[index] ^= 1 << bit;
            assert_eq!(Chunk::try_from(&changed[..]).err(), Some(Error::ChecksumMismatch));
        }
    }
}

#[test]
fn every_flipped_bit_of_the_length_is_a_mismatch() {
    let bytes = testing_chunk().as_bytes();
    for index in 0..4 {
        for bit in 0..8 {
            let mut changed = bytes.clone();
            changed[index] ^= 1 << bit;
            assert_eq!(Chunk::try_from(&changed[..]).err(), Some(Error::LengthMismatch));
        }
    }
}

#[test]
fn short_input_is_too_short() {
    let bytes = Chunk::new(ChunkType::from_str("IEND").unwrap(), Vec::new()).as_bytes();
    assert_eq!(bytes.len(), 12);
    for n in 0..12 {
        assert_eq!(Chunk::try_from(&bytes[..n]).err(), Some(Error::TooShort), "length {}", n);
    }
    assert!(Chunk::try_from(&bytes[..]).is_ok());
    assert_eq!(Chunk::try_from(&[0xffu8; 11][..]).err(), Some(Error::TooShort));
}

#[test]
fn length_field_must_account_for_the_buffer() {
    let bytes = testing_chunk().as_bytes();
    // One byte missing at the end.
    assert_eq!(Chunk::try_from(&bytes[..bytes.len() - 1]).err(), Some(Error::LengthMismatch));
    // One byte left over.
    let mut longer = bytes.clone();
    longer.push(0);
    assert_eq!(Chunk::try_from(&longer[..]).err(), Some(Error::LengthMismatch));
    // A declared length far beyond the buffer.
    let mut huge = bytes.clone();
    huge[0] = 0xff;
    assert_eq!(Chunk::try_from(&huge[..]).err(), Some(Error::LengthMismatch));
    let all_ones = [0xffu8; 12];
    assert_eq!(Chunk::try_from(&all_ones[..]).err(), Some(Error::LengthMismatch));
    // The length is judged before the checksum is.
    let mut both = longer.clone();
    let last = both.len() - 2;
    both[last] ^= 1;
    assert_eq!(Chunk::try_from(&both[..]).err(), Some(Error::LengthMismatch));
}

#[test]
fn empty_payload_parses() {
    let bytes = [0, 0, 0, 0, 0x49, 0x45, 0x4e, 0x44, 0xae, 0x42, 0x60, 0x82];
    let chunk = Chunk::try_from(&bytes[..]).unwrap();
    assert_eq!(chunk.length(), 0);
    assert_eq!(chunk.data(), &[] as &[u8]);
    assert_eq!(chunk.chunk_type().to_string().unwrap(), "IEND");
    assert_eq!(chunk.crc(), 0xae42_6082);
    assert_eq!(chunk.data_as_string().unwrap(), "");
}

#[test]
fn parse_accepts_any_type_code() {
    let chunk = Chunk::new(ChunkType::try_from([0, 1, 0xff, 0x20]).unwrap(), vec![1, 2, 3]);
    let parsed = Chunk::try_from(&chunk.as_bytes()[..]).unwrap();
    assert_eq!(parsed.chunk_type().bytes(), &[0, 1, 0xff, 0x20]);
    assert!(!parsed.chunk_type().is_valid());
}

#[test]
fn data_as_string_fails_on_bytes_that_are_no_text() {
    let chunk = Chunk::new(ChunkType::from_str("RuSt").unwrap(), vec![0x66, 0x6f, 0xff]);
    assert_eq!(chunk.data_as_string(), Err(Error::EncodingError));
    let chunk = Chunk::new(ChunkType::from_str("RuSt").unwrap(), vec![0xe2, 0x82]);
    assert_eq!(chunk.data_as_string(), Err(Error::EncodingError));
}

#[test]
fn data_as_string_decodes_utf8() {
    let chunk = Chunk::new(ChunkType::from_str("RuSt").unwrap(), vec![0xe2, 0x82, 0xac, 0x21]);
    assert_eq!(chunk.data_as_string().unwrap(), "\u{20ac}!");
    assert_eq!(chunk.data(), &[0xe2, 0x82, 0xac, 0x21]);
}

#[test]
fn verify_checksum_compares() {
    assert_eq!(verify_checksum(7, 7), Ok(()));
    assert_eq!(verify_checksum(0, 0), Ok(()));
    assert_eq!(verify_checksum(u32::MAX, u32::MAX), Ok(()));
    assert_eq!(verify_checksum(7, 8), Err(Error::ChecksumMismatch));
    assert_eq!(verify_checksum(2882656333, 2882656334), Err(Error::ChecksumMismatch));
}
