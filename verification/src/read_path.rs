//! The read path: validate what came back from the device before any byte
//! reaches the caller.
//!
//! The transport hands over the raw metadata region first; [`inspect_metadata`]
//! decides whether the device holds a plausible file and how many content
//! bytes to fetch. Once the content is in, [`verify_content`] decides whether
//! it passes the integrity check.

use vstd::prelude::*;
use crate::checksum::compute_checksum;
use crate::checksum::crc16_usb;
use crate::layout::CONTENT_OFFSET;
use crate::layout::MAX_CONTENT_SIZE;
use crate::layout::METADATA_OFFSET;
use crate::layout::METADATA_SIZE;
use crate::metadata::Metadata;
use crate::metadata::spec_decode;

verus! {

/// Why the read path refused to hand out the device's content. Every one of
/// these is fatal for the whole operation: nothing is retried.
#[derive(Clone, Copy, Debug, PartialEq, Eq, Structural)]
pub enum ReadError {
    /// The metadata region could not be parsed as a record.
    InvalidMetadata,
    /// The recorded content length exceeds what the device can hold:
    /// corruption, never a short file.
    OversizeContent,
    /// The recorded content length is zero and empty results were not
    /// explicitly allowed: no file is present.
    EmptyFile,
    /// The checksum of the retrieved content disagrees with the recorded one.
    /// Deliberately ambiguous between "never written" and "corrupted".
    IntegrityMismatch,
}

/// What [`inspect_metadata`] decides for given metadata bytes.
pub open spec fn spec_inspect(bytes: Seq<u8>, allow_empty: bool) -> Result<Metadata, ReadError> {
    if bytes.len() != METADATA_SIZE as int {
        Err(ReadError::InvalidMetadata)
    } else {
        let m = spec_decode(bytes);
        if m.content_size > MAX_CONTENT_SIZE {
            Err(ReadError::OversizeContent)
        } else if m.content_size == 0 && !allow_empty {
            Err(ReadError::EmptyFile)
        } else {
            Ok(m)
        }
    }
}

/// What [`verify_content`] decides for a record and the content fetched for it.
pub open spec fn spec_verify(m: Metadata, content: Seq<u8>, ignore_crc: bool) -> Result<
    (),
    ReadError,
> {
    if !ignore_crc && crc16_usb(content) != m.content_crc {
        Err(ReadError::IntegrityMismatch)
    } else {
        Ok(())
    }
}

/// What the read path as a whole returns for a full device image: inspect
/// the metadata region, fetch the recorded number of content bytes, and
/// check their integrity.
pub open spec fn spec_read_image(dev: Seq<u8>, allow_empty: bool, ignore_crc: bool) -> Result<
    Seq<u8>,
    ReadError,
> {
    match spec_inspect(
        dev.subrange(METADATA_OFFSET as int, METADATA_OFFSET + METADATA_SIZE),
        allow_empty,
    ) {
        Err(e) => Err(e),
        Ok(m) => {
            let content = dev.subrange(CONTENT_OFFSET as int, CONTENT_OFFSET + m.content_size);
            match spec_verify(m, content, ignore_crc) {
                Err(e) => Err(e),
                Ok(_) => Ok(content),
            }
        },
    }
}

/// Decode and validate the metadata region fetched from the device. On
/// success the returned record says how many content bytes to fetch next.
pub fn inspect_metadata(bytes: &[u8], allow_empty: bool) -> (r: Result<Metadata, ReadError>)
    ensures
        r == spec_inspect(bytes@, allow_empty),
{
    let meta = match Metadata::decode(bytes) {
        Ok(meta) => meta,
        Err(_) => {
            return Err(ReadError::InvalidMetadata);
        },
    };
    if meta.content_size > MAX_CONTENT_SIZE {
        return Err(ReadError::OversizeContent);
    }
    if meta.content_size == 0 && !allow_empty {
        return Err(ReadError::EmptyFile);
    }
    Ok(meta)
}

/// Decide whether the content fetched for a record may be handed out:
/// its checksum must match the recorded one, unless the caller explicitly
/// skips the integrity check.
pub fn verify_content(meta: &Metadata, content: &[u8], ignore_crc: bool) -> (r: Result<
    (),
    ReadError,
>)
    ensures
        r == spec_verify(*meta, content@, ignore_crc),
{
    if !ignore_crc {
        let crc = compute_checksum(content);
        if crc != meta.content_crc {
            return Err(ReadError::IntegrityMismatch);
        }
    }
    Ok(())
}

} // verus!
