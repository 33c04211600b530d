//! Display identities.

use vstd::prelude::*;

verus! {

/// Byte `k` (0 = least significant) of `v`.
pub open spec fn le_byte(v: u64, k: u64) -> u8 {
    (v >> (8 * k)) as u8
}

/// A display's 16-byte UUID made from a 64-bit hash of its output object:
/// the hash's little-endian bytes, twice.
pub fn uuid_from_hash(hash: u64) -> (uuid: [u8; 16])
    ensures
        uuid@ == seq![
            le_byte(hash, 0), le_byte(hash, 1), le_byte(hash, 2), le_byte(hash, 3),
            le_byte(hash, 4), le_byte(hash, 5), le_byte(hash, 6), le_byte(hash, 7),
            le_byte(hash, 0), le_byte(hash, 1), le_byte(hash, 2), le_byte(hash, 3),
            le_byte(hash, 4), le_byte(hash, 5), le_byte(hash, 6), le_byte(hash, 7),
        ],
{
    let b0 = hash as u8;
    let b1 = (hash >> 8u64) as u8;
    let b2 = (hash >> 16u64) as u8;
    let b3 = (hash >> 24u64) as u8;
    let b4 = (hash >> 32u64) as u8;
    let b5 = (hash >> 40u64) as u8;
    let b6 = (hash >> 48u64) as u8;
    let b7 = (hash >> 56u64) as u8;
    assert(b0 == le_byte(hash, 0)) by (bit_vector)
        requires
            b0 == hash as u8,
    ;
    let uuid = [b0, b1, b2, b3, b4, b5, b6, b7, b0, b1, b2, b3, b4, b5, b6, b7];
    assert(uuid@ =~= seq![
        le_byte(hash, 0), le_byte(hash, 1), le_byte(hash, 2), le_byte(hash, 3),
        le_byte(hash, 4), le_byte(hash, 5), le_byte(hash, 6), le_byte(hash, 7),
        le_byte(hash, 0), le_byte(hash, 1), le_byte(hash, 2), le_byte(hash, 3),
        le_byte(hash, 4), le_byte(hash, 5), le_byte(hash, 6), le_byte(hash, 7),
    ]);
    uuid
}

} // verus!
