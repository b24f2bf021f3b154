//! The CRC-32 check used by the GPT header, provided by the `crc` crate.

use vstd::prelude::*;

verus! {

/// The CRC-32 checksum (ISO-HDLC polynomial) of a byte sequence. The
/// algorithm itself is not restated here; contracts name its result through
/// this function, and [`crc32`] computes it.
pub uninterp spec fn crc32_of(data: Seq<u8>) -> u32;

/// Relies on `crc::Crc::<u32>::checksum` with the `CRC_32_ISO_HDLC`
/// algorithm: the checksum depends on the input bytes alone.
#[verifier::external_body]
pub(crate) fn crc32(data: &Vec<u8>) -> (r: u32)
    ensures
        r == crc32_of(data@),
{
    crc::Crc::<u32>::new(&crc::CRC_32_ISO_HDLC).checksum(data.as_slice())
}

} // verus!
