//! The fixed-size metadata record and its byte-exact codec.
//!
//! On the device the record occupies exactly [`crate::layout::METADATA_SIZE`]
//! bytes: 28 reserved bytes (written as zero, never interpreted), then the
//! content checksum and the content length, each a big-endian 16-bit field.

use vstd::prelude::*;
use crate::layout::METADATA_SIZE;

verus! {

/// Number of reserved padding bytes at the front of the encoded record.
pub const RESERVED_SIZE: u16 = 28;

/// In-memory form of the metadata record. The reserved bytes carry no
/// information, so they have no field here; the codec writes them as zero.
#[derive(Clone, Copy, Debug, PartialEq, Eq, Structural)]
pub struct Metadata {
    /// CRC-16 of the bytes currently stored in the content region.
    pub content_crc: u16,
    /// Number of valid bytes in the content region.
    pub content_size: u16,
}

/// The byte at position `i` of the encoded record.
pub open spec fn spec_encode_byte(m: Metadata, i: int) -> u8 {
    if i < RESERVED_SIZE {
        0u8
    } else if i == RESERVED_SIZE {
        (m.content_crc / 256) as u8
    } else if i == RESERVED_SIZE + 1 {
        (m.content_crc % 256) as u8
    } else if i == RESERVED_SIZE + 2 {
        (m.content_size / 256) as u8
    } else {
        (m.content_size % 256) as u8
    }
}

/// The encoded record: reserved zeros, then checksum and length, big-endian.
pub open spec fn spec_encode(m: Metadata) -> Seq<u8> {
    Seq::new(METADATA_SIZE as nat, |i: int| spec_encode_byte(m, i))
}

/// The record read back from a full metadata region. Only the two 16-bit
/// fields are interpreted; the reserved bytes are ignored.
pub open spec fn spec_decode(bytes: Seq<u8>) -> Metadata {
    Metadata {
        content_crc: (bytes[RESERVED_SIZE as int] * 256 + bytes[RESERVED_SIZE + 1]) as u16,
        content_size: (bytes[RESERVED_SIZE + 2] * 256 + bytes[RESERVED_SIZE + 3]) as u16,
    }
}

/// Metadata bytes that are not exactly one region long cannot be decoded.
#[derive(Clone, Copy, Debug, PartialEq, Eq, Structural)]
pub enum DecodeError {
    /// The input was not exactly `METADATA_SIZE` bytes.
    WrongLength,
}

impl Metadata {
    /// Serialize the record into its fixed on-device form.
    pub fn encode(&self) -> (r: Vec<u8>)
        ensures
            r@ == spec_encode(*self),
            r@.len() == METADATA_SIZE as int,
    {
        let mut out: Vec<u8> = Vec::new();
        let mut i: u16 = 0;
        while i < RESERVED_SIZE
            invariant
                i <= RESERVED_SIZE,
                out@.len() == i as int,
                forall|j: int| 0 <= j < i as int ==> out@[j] == 0u8,
            decreases RESERVED_SIZE - i,
        {
            out.push(0u8);
            i = i + 1;
        }
        out.push((self.content_crc / 256) as u8);
        out.push((self.content_crc % 256) as u8);
        out.push((self.content_size / 256) as u8);
        out.push((self.content_size % 256) as u8);
        proof {
            assert(out@ =~= spec_encode(*self));
        }
        out
    }

    /// Parse a metadata region fetched from the device.
    pub fn decode(bytes: &[u8]) -> (r: Result<Metadata, DecodeError>)
        ensures
            bytes@.len() == METADATA_SIZE as int ==> r == Ok::<Metadata, DecodeError>(
                spec_decode(bytes@),
            ),
            bytes@.len() != METADATA_SIZE as int ==> r == Err::<Metadata, DecodeError>(
                DecodeError::WrongLength,
            ),
    {
        if bytes.len() != METADATA_SIZE as usize {
            return Err(DecodeError::WrongLength);
        }
        let crc_hi = bytes[RESERVED_SIZE as usize];
        let crc_lo = bytes[RESERVED_SIZE as usize + 1];
        let size_hi = bytes[RESERVED_SIZE as usize + 2];
        let size_lo = bytes[RESERVED_SIZE as usize + 3];
        Ok(Metadata {
            content_crc: (crc_hi as u16) * 256 + (crc_lo as u16),
            content_size: (size_hi as u16) * 256 + (size_lo as u16),
        })
    }
}

/// Splitting a 16-bit value into two big-endian bytes and reassembling them
/// gives the value back.
pub proof fn lemma_be16_round_trip(v: u16)
    ensures
        ((v / 256) as u8) * 256 + ((v % 256) as u8) == v,
{
    assert(v / 256 < 256);
    assert(((v / 256) as u8) == v / 256);
    assert(((v % 256) as u8) == v % 256);
    assert((v / 256) * 256 + v % 256 == v) by {
        vstd::arithmetic::div_mod::lemma_fundamental_div_mod(v as int, 256);
    }
}

/// Decoding an encoded record recovers the record: the codec is lossless.
pub proof fn lemma_codec_round_trip(m: Metadata)
    ensures
        spec_encode(m).len() == METADATA_SIZE as int,
        spec_decode(spec_encode(m)) == m,
{
    lemma_be16_round_trip(m.content_crc);
    lemma_be16_round_trip(m.content_size);
}

} // verus!
