//! The metadata codec and the read-path validation on raw bytes.

use eeprom_transfer::layout::MAX_CONTENT_SIZE;
use eeprom_transfer::layout::METADATA_SIZE;
use eeprom_transfer::metadata::DecodeError;
use eeprom_transfer::metadata::Metadata;
use eeprom_transfer::read_path::inspect_metadata;
use eeprom_transfer::read_path::ReadError;

#[test]
fn encoded_record_is_always_exactly_one_region() {
    let empty = Metadata { content_crc: 0, content_size: 0 };
    assert_eq!(empty.encode().len(), METADATA_SIZE as usize);
    let maximal = Metadata { content_crc: 0xffff, content_size: MAX_CONTENT_SIZE };
    assert_eq!(maximal.encode().len(), METADATA_SIZE as usize);
}

#[test]
fn encoding_is_reserved_zeros_then_big_endian_fields() {
    let meta = Metadata { content_crc: 0x1234, content_size: 0x0506 };
    let bytes = meta.encode();
    assert_eq!(&bytes[..28], &[0u8; 28]);
    assert_eq!(&bytes[28..], &[0x12, 0x34, 0x05, 0x06]);
}

#[test]
fn decode_recovers_encoded_record() {
    let meta = Metadata { content_crc: 0xbeef, content_size: 8160 };
    let decoded = Metadata::decode(&meta.encode()).expect("own encoding must decode");
    assert_eq!(decoded, meta);
}

#[test]
fn decode_ignores_reserved_bytes() {
    let meta = Metadata { content_crc: 0xbeef, content_size: 77 };
    let mut bytes = meta.encode();
    bytes[0] = 0xff;
    bytes[27] = 0x42;
    let decoded = Metadata::decode(&bytes).expect("reserved bytes are never interpreted");
    assert_eq!(decoded, meta);
}

#[test]
fn decode_refuses_wrong_length() {
    assert!(matches!(Metadata::decode(&[0u8; 31]), Err(DecodeError::WrongLength)));
    assert!(matches!(Metadata::decode(&[0u8; 33]), Err(DecodeError::WrongLength)));
    assert!(matches!(Metadata::decode(&[]), Err(DecodeError::WrongLength)));
}

#[test]
fn inspect_refuses_malformed_region() {
    assert!(matches!(
        inspect_metadata(&[0u8; 31], false),
        Err(ReadError::InvalidMetadata)
    ));
}

#[test]
fn inspect_refuses_oversize_length() {
    let meta = Metadata { content_crc: 0, content_size: MAX_CONTENT_SIZE + 1 };
    let bytes = meta.encode();
    assert!(matches!(
        inspect_metadata(&bytes, false),
        Err(ReadError::OversizeContent)
    ));
    // Even the empty override does not excuse a corrupt length.
    assert!(matches!(
        inspect_metadata(&bytes, true),
        Err(ReadError::OversizeContent)
    ));
}

#[test]
fn inspect_accepts_plausible_record() {
    let meta = Metadata { content_crc: 0xabcd, content_size: 5 };
    let got = inspect_metadata(&meta.encode(), false).expect("plausible record must pass");
    assert_eq!(got, meta);
}
