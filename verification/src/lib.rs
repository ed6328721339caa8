//! A file-to-EEPROM transfer protocol for a small byte-addressable device
//! behind a register-addressed serial bus.
//!
//! The device holds one file: a fixed 32-byte metadata region at address 0
//! (reserved padding, a CRC-16 of the content, and the content length),
//! followed by the content region. This crate owns the on-device layout,
//! the byte-exact metadata codec, the chunked write plan, and the read-path
//! validation; the bus transport and the filesystem stay outside.

pub mod checksum;
pub mod device;
pub mod image;
pub mod layout;
pub mod metadata;
pub mod protocol;
pub mod read_path;
pub mod write_path;
