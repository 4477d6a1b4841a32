use vstd::prelude::*;

verus! {

/// The CRC-16/IBM-SDLC checksum (also known as CRC-16/X-25: reflected
/// polynomial 0x1021, initial value 0xFFFF, final XOR 0xFFFF) of a byte string.
pub uninterp spec fn crc16_ibm_sdlc(data: Seq<u8>) -> u16;

/// Computes `crc16_ibm_sdlc` of `data` with the `crc` crate
/// (`Crc::<u16>::new(&CRC_16_IBM_SDLC).checksum`).
///
/// Trusted: the contract only says that the result is the checksum of the
/// given bytes and nothing else, a function of `data` alone.
#[verifier::external_body]
pub(crate) fn crc16_checksum(data: &[u8]) -> (sum: u16)
    ensures
        sum == crc16_ibm_sdlc(data@),
{
    crc::Crc::<u16>::new(&crc::CRC_16_IBM_SDLC).checksum(data)
}

} // verus!
