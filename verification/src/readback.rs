//! The two-phase readback protocol for a variable-length kernel result.
//!
//! A parallel kernel cannot know ahead of time how many of its invocations
//! will produce output, so the join kernel claims output slots through an
//! atomic counter and the host discovers the true result length afterwards.
//! The host side of that protocol is: zero-initialize the counter before
//! dispatch, read the counter back first, then map exactly the used prefix
//! of the output buffer.  The fixed-length distance kernel needs none of
//! this; its single readback length is known before dispatch.

use vstd::prelude::*;

use crate::layout::u32_le;

verus! {

/// The counter image uploaded before every dispatch: a zeroed count and
/// zeroed alignment padding, 16 bytes in all.
pub fn counter_init_bytes() -> (bytes: Vec<u8>)
    ensures
        bytes@.len() == crate::layout::COUNTER_BYTES,
        forall|k: int| 0 <= k < bytes@.len() ==> bytes@[k] == 0u8,
{
    let mut bytes: Vec<u8> = Vec::new();
    let mut k: usize = 0;
    while k < 16
        invariant
            k <= 16,
            bytes@.len() == k,
            forall|j: int| 0 <= j < k ==> bytes@[j] == 0u8,
        decreases 16 - k,
    {
        bytes.push(0u8);
        k += 1;
    }
    bytes
}

/// First readback phase: recover the number of match records the kernel
/// wrote from the mapped counter bytes.  Only the leading 32-bit word
/// carries information; the rest of the counter layout is padding.
pub fn decode_counter(bytes: &Vec<u8>) -> (count: u32)
    requires
        bytes.len() >= 4,
    ensures
        count == u32_le(bytes@, 0),
{
    crate::layout::decode_u32_le(bytes, 0)
}

/// Second readback phase: the exact number of bytes to map, covering the
/// used prefix of the output buffer and nothing more.  The kernel's atomic
/// allocation keeps the count within the pre-allocated worst-case capacity,
/// so the prefix always lies inside the output buffer.
pub fn match_payload_bytes(count: u32, pair_capacity: u64) -> (n: u64)
    requires
        count as u64 <= pair_capacity,
    ensures
        n == count * crate::layout::MATCH_RECORD_BYTES,
        n <= pair_capacity * crate::layout::MATCH_RECORD_BYTES,
{
    proof {
        assert((count as u64) * 8 <= pair_capacity * 8) by (nonlinear_arith)
            requires
                count as u64 <= pair_capacity,
        ;
    }
    (count as u64) * 8
}

} // verus!
