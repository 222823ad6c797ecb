//! Packing a (pointer, length) descriptor into one 64-bit value, for calling
//! environments that can carry only a single scalar return: the pointer sits
//! in the high 32 bits, the length in the low 32 bits.

use vstd::prelude::*;

verus! {

/// The packed form of a descriptor: pointer in the high half, length in the
/// low half.
pub open spec fn spec_pack(ptr: u32, len: u32) -> u64 {
    ((ptr as u64) << 32) | (len as u64)
}

/// The pointer half of a packed descriptor.
pub open spec fn spec_unpack_ptr(packed: u64) -> u32 {
    (packed >> 32) as u32
}

/// The length half of a packed descriptor.
pub open spec fn spec_unpack_len(packed: u64) -> u32 {
    (packed & 0xffff_ffff) as u32
}

/// Packing loses nothing: both halves come back out exactly.
pub proof fn lemma_pack_roundtrip(ptr: u32, len: u32)
    ensures
        spec_unpack_ptr(spec_pack(ptr, len)) == ptr,
        spec_unpack_len(spec_pack(ptr, len)) == len,
{
    assert((((ptr as u64) << 32) | (len as u64)) >> 32 == ptr as u64) by (bit_vector);
    assert(((((ptr as u64) << 32) | (len as u64)) & 0xffff_ffff) == len as u64) by (bit_vector);
}

/// Packs a descriptor into one 64-bit value.
pub fn pack_descriptor(ptr: u32, len: u32) -> (r: u64)
    ensures
        r == spec_pack(ptr, len),
        spec_unpack_ptr(r) == ptr,
        spec_unpack_len(r) == len,
{
    proof {
        lemma_pack_roundtrip(ptr, len);
    }
    ((ptr as u64) << 32) | (len as u64)
}

/// Extracts the pointer half of a packed descriptor.
pub fn unpack_ptr(packed: u64) -> (r: u32)
    ensures
        r == spec_unpack_ptr(packed),
{
    (packed >> 32) as u32
}

/// Extracts the length half of a packed descriptor.
pub fn unpack_len(packed: u64) -> (r: u32)
    ensures
        r == spec_unpack_len(packed),
{
    (packed & 0xffff_ffff) as u32
}

} // verus!
