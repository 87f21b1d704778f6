//! Reading little-endian integers out of byte buffers.

use vstd::prelude::*;
use vstd::bytes::{spec_u64_from_le_bytes, spec_u128_from_le_bytes};
use winter_utils::{ByteReader, DeserializationError, SliceReader};

verus! {

/// The error type of the readers in `winter_utils`; nothing is known of its
/// content here.
#[verifier::external_type_specification]
#[verifier::external_body]
pub struct ExDeserializationError(DeserializationError);

/// `ByteReader::read_u64` of `winter_utils`, on a fresh `SliceReader` over
/// `bytes`: with at least eight bytes it yields the first eight taken as a
/// little-endian integer, and with fewer it fails.
#[verifier::external_body]
pub(crate) fn read_u64(bytes: &[u8]) -> (r: Result<u64, DeserializationError>)
    ensures
        match r {
            Ok(v) => bytes@.len() >= 8 && v == spec_u64_from_le_bytes(bytes@.subrange(0, 8)),
            Err(_) => bytes@.len() < 8,
        },
{
    SliceReader::new(bytes).read_u64()
}

/// `ByteReader::read_u128` of `winter_utils`, on a fresh `SliceReader` over
/// `bytes`: with at least sixteen bytes it yields the first sixteen taken as a
/// little-endian integer, and with fewer it fails.
#[verifier::external_body]
pub(crate) fn read_u128(bytes: &[u8]) -> (r: Result<u128, DeserializationError>)
    ensures
        match r {
            Ok(v) => bytes@.len() >= 16 && v == spec_u128_from_le_bytes(bytes@.subrange(0, 16)),
            Err(_) => bytes@.len() < 16,
        },
{
    SliceReader::new(bytes).read_u128()
}

/// The address at which a buffer starts, from `<[u8]>::as_ptr`. It differs from
/// run to run, so nothing is promised of it.
#[verifier::external_body]
pub(crate) fn start_address(bytes: &[u8]) -> (address: usize) {
    bytes.as_ptr() as usize
}

/// The integer that exactly eight bytes encode, least significant byte first.
pub fn decode_u64(bytes: &[u8]) -> (r: Option<u64>)
    ensures
        r == if bytes@.len() == 8 {
            Some(spec_u64_from_le_bytes(bytes@))
        } else {
            None
        },
{
    if bytes.len() != 8 {
        return None;
    }
    assert(bytes@.subrange(0, 8) =~= bytes@);
    match read_u64(bytes) {
        Ok(v) => Some(v),
        Err(_) => None,
    }
}

/// The integer that exactly sixteen bytes encode, least significant byte first.
pub fn decode_u128(bytes: &[u8]) -> (r: Option<u128>)
    ensures
        r == if bytes@.len() == 16 {
            Some(spec_u128_from_le_bytes(bytes@))
        } else {
            None
        },
{
    if bytes.len() != 16 {
        return None;
    }
    assert(bytes@.subrange(0, 16) =~= bytes@);
    match read_u128(bytes) {
        Ok(v) => Some(v),
        Err(_) => None,
    }
}

} // verus!
