//! Content integrity: a 16-bit CRC over the content bytes.

use vstd::prelude::*;

verus! {

/// The 16-bit checksum of a byte sequence under the reflected CRC-16
/// algorithm used on the USB bus (polynomial 0x8005, init 0xffff,
/// reflected in and out, xorout 0xffff). The value is a function of the
/// input bytes alone.
pub uninterp spec fn crc16_usb(data: Seq<u8>) -> u16;

/// Relies on `crc::Crc::<u16>::checksum` with the `CRC_16_USB` algorithm
/// from the crc catalog: a deterministic, pure function of the input bytes.
#[verifier::external_body]
pub(crate) fn compute_checksum(data: &[u8]) -> (r: u16)
    ensures
        r == crc16_usb(data@),
{
    crc::Crc::<u16>::new(&crc::CRC_16_USB).checksum(data)
}

} // verus!
