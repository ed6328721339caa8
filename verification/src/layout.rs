//! Device geometry: the fixed memory map shared by the read and write paths.

use vstd::prelude::*;

verus! {

/// Total size of the EEPROM in bytes.
pub const EEPROM_SIZE: u16 = 8192;

/// Address of the first byte of the metadata region.
pub const METADATA_OFFSET: u16 = 0;

/// Size of the fixed metadata region in bytes.
pub const METADATA_SIZE: u16 = 32;

/// Address of the first byte of the content region.
pub const CONTENT_OFFSET: u16 = 32;

/// Maximum number of content bytes the device can store.
pub const MAX_CONTENT_SIZE: u16 = 8160;

/// Payload bytes carried by one bus write when content spans several transfers.
pub const CHUNK_SIZE: u16 = 32;

/// Settling time in milliseconds the device needs after each write before the
/// next bus transaction may be issued.
pub const WRITE_SETTLE_MS: u64 = 10;

/// Bus address of the EEPROM.
pub const BUS_ADDRESS: u16 = 0x50;

/// The metadata record must fit in front of the content region, and the
/// content region must fill the rest of the device exactly.
pub proof fn lemma_geometry_consistent()
    ensures
        METADATA_SIZE <= CONTENT_OFFSET,
        CONTENT_OFFSET + MAX_CONTENT_SIZE == EEPROM_SIZE,
{
}

} // verus!
