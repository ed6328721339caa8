//! End-to-end exercises of the transfer protocol against an in-memory device
//! image driven through the library's own message applier.

use eeprom_transfer::image::apply_write_message;
use eeprom_transfer::image::read_image;
use eeprom_transfer::image::store_image;
use eeprom_transfer::layout::CHUNK_SIZE;
use eeprom_transfer::layout::CONTENT_OFFSET;
use eeprom_transfer::layout::EEPROM_SIZE;
use eeprom_transfer::layout::MAX_CONTENT_SIZE;
use eeprom_transfer::layout::METADATA_SIZE;
use eeprom_transfer::metadata::Metadata;
use eeprom_transfer::read_path::inspect_metadata;
use eeprom_transfer::read_path::verify_content;
use eeprom_transfer::read_path::ReadError;
use eeprom_transfer::write_path::build_write_plan;
use eeprom_transfer::write_path::WriteError;

fn fresh_device() -> Vec<u8> {
    vec![0u8; EEPROM_SIZE as usize]
}

fn store(device: &mut Vec<u8>, content: &[u8]) {
    store_image(device, content).expect("content must fit");
}

#[test]
fn round_trip_returns_original_bytes() {
    let lengths: [usize; 10] = [1, 2, 5, 31, 32, 33, 64, 65, 8159, 8160];
    for &len in &lengths {
        let content: Vec<u8> = (0..len).map(|i| (i % 251) as u8).collect();
        let mut device = fresh_device();
        store(&mut device, &content);
        let back = read_image(&device, false, false).expect("stored file must read back");
        assert_eq!(back, content);
    }
}

#[test]
fn round_trip_empty_needs_override() {
    let mut device = fresh_device();
    store(&mut device, &[]);
    assert!(matches!(read_image(&device, false, false), Err(ReadError::EmptyFile)));
    let back = read_image(&device, true, false).expect("empty read must pass with the override");
    assert_eq!(back, Vec::<u8>::new());
}

#[test]
fn bit_flip_in_content_fails_integrity() {
    let content = b"hello world";
    let mut device = fresh_device();
    store(&mut device, content);
    for byte in 0..content.len() {
        for bit in 0..8 {
            let mut corrupted = device.clone();
            corrupted[CONTENT_OFFSET as usize + byte] ^= 1u8 << bit;
            assert!(matches!(
                read_image(&corrupted, false, false),
                Err(ReadError::IntegrityMismatch)
            ));
            let mut expected = content.to_vec();
            expected[byte] ^= 1u8 << bit;
            let forced = read_image(&corrupted, false, true)
                .expect("the integrity override must hand the bytes out");
            assert_eq!(forced, expected);
        }
    }
}

#[test]
fn oversize_content_fails_before_any_write() {
    let content = vec![0xabu8; MAX_CONTENT_SIZE as usize + 1];
    // The planner itself refuses the content, so no message can exist.
    assert!(matches!(build_write_plan(&content), Err(WriteError::ContentTooLarge)));
    // And the full write path against a recording device leaves it untouched.
    let mut device = fresh_device();
    let before = device.clone();
    assert!(matches!(store_image(&mut device, &content), Err(WriteError::ContentTooLarge)));
    assert_eq!(device, before);
}

#[test]
fn torn_write_leaves_previous_file_visible() {
    let old_content = b"the old file";
    let mut device = fresh_device();
    store(&mut device, old_content);
    let metadata_before = device[..METADATA_SIZE as usize].to_vec();

    // The transport fails on the metadata write: every content chunk of the
    // new file lands, the final message never does.
    let new_content = vec![0x5au8; 100];
    let plan = build_write_plan(&new_content).expect("content must fit");
    for msg in &plan[..plan.len() - 1] {
        apply_write_message(&mut device, msg.as_slice());
    }

    assert_eq!(&device[..METADATA_SIZE as usize], metadata_before.as_slice());
    let meta = inspect_metadata(&device[..METADATA_SIZE as usize], false)
        .expect("the previous record must still decode");
    assert_eq!(meta.content_size as usize, old_content.len());

    // Once the metadata message commits, the new file becomes visible.
    apply_write_message(&mut device, plan[plan.len() - 1].as_slice());
    let back = read_image(&device, false, false).expect("committed file must read back");
    assert_eq!(back, new_content);
}

#[test]
fn chunked_write_covers_content_in_order() {
    let content: Vec<u8> = (0..70u8).collect();
    let plan = build_write_plan(&content).expect("content must fit");
    // ceil(70 / 32) = 3 content chunks, then the metadata message.
    assert_eq!(plan.len(), 4);
    let chunk = CHUNK_SIZE as usize;
    for (k, msg) in plan[..3].iter().enumerate() {
        let offset = (msg[0] as usize) * 256 + msg[1] as usize;
        assert_eq!(offset, CONTENT_OFFSET as usize + k * chunk);
        let end = usize::min((k + 1) * chunk, content.len());
        assert_eq!(&msg[2..], &content[k * chunk..end]);
    }
    let last = &plan[3];
    let offset = (last[0] as usize) * 256 + last[1] as usize;
    assert_eq!(offset, 0);
    assert_eq!(last.len(), 2 + METADATA_SIZE as usize);
}

#[test]
fn hello_scenario_stores_expected_record() {
    assert_eq!(MAX_CONTENT_SIZE, 8160);
    let content = b"hello";
    let mut device = fresh_device();
    store(&mut device, content);

    let meta = Metadata::decode(&device[..METADATA_SIZE as usize]).expect("record must decode");
    assert_eq!(meta.content_size, 5);
    let expected_crc = crc::Crc::<u16>::new(&crc::CRC_16_USB).checksum(content);
    assert_eq!(meta.content_crc, expected_crc);

    let back = read_image(&device, false, false).expect("stored file must read back");
    assert_eq!(back, content.to_vec());
}

#[test]
fn stored_checksum_matches_crc16_usb_check_value() {
    // 0xb4c8 is the published CRC-16/USB check value for "123456789".
    let content = b"123456789";
    let mut device = fresh_device();
    store(&mut device, content);
    let meta = Metadata::decode(&device[..METADATA_SIZE as usize]).expect("record must decode");
    assert_eq!(meta.content_crc, 0xb4c8);
}

#[test]
fn mismatched_record_is_rejected_and_override_accepts() {
    let content = b"some bytes";
    let crc = crc::Crc::<u16>::new(&crc::CRC_16_USB).checksum(content);
    let meta = Metadata { content_crc: crc, content_size: content.len() as u16 };
    assert!(verify_content(&meta, content, false).is_ok());
    let wrong = Metadata { content_crc: crc ^ 1, content_size: content.len() as u16 };
    assert!(matches!(
        verify_content(&wrong, content, false),
        Err(ReadError::IntegrityMismatch)
    ));
    assert!(verify_content(&wrong, content, true).is_ok());
}
