use vstd::prelude::*;

verus! {

/// The CRC-32C (Castagnoli polynomial) checksum of a byte sequence, as the
/// `crc` crate computes it: a fixed function of the bytes alone.
pub uninterp spec fn crc32c_of(data: Seq<u8>) -> u32;

/// Relies on crc::Crc::<u32>::checksum with the CRC_32_ISCSI (Castagnoli)
/// algorithm: the CRC-32C of the bytes, a function of the bytes alone.
#[verifier::external_body]
fn crc32c(buf: &[u8]) -> (r: u32)
    ensures
        r == crc32c_of(buf@),
{
    crc::Crc::<u32>::new(&crc::CRC_32_ISCSI).checksum(buf)
}

/// The masking transform applied to a raw CRC-32C value: rotate the 32-bit
/// value right by 15 bits and add a fixed constant, both wrapping silently.
pub open spec fn spec_mask(c: u32) -> u32 {
    ((((c >> 15) | (c << 17)) as u64 + 0xa282ead8) % 0x100000000) as u32
}

/// The masked CRC-32C of a byte sequence: the integrity value this format
/// stores for both the length field and the payload, in place of the raw
/// CRC-32C.
pub open spec fn spec_masked_crc(data: Seq<u8>) -> u32 {
    spec_mask(crc32c_of(data))
}

/// Computes the masked CRC-32C of `buf`.
pub fn masked_crc(buf: &[u8]) -> (r: u32)
    ensures
        r == spec_masked_crc(buf@),
{
    let c = crc32c(buf);
    let rot: u32 = (c >> 15) | (c << 17);
    let masked: u64 = ((rot as u64) + 0xa282ead8) % 0x100000000;
    masked as u32
}

} // verus!
