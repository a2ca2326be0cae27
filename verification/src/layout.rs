//! Fixed data layouts shared between host and device.
//!
//! Every value that crosses the host/device boundary does so as plain bytes
//! in a fixed little-endian layout: rectangles as four 32-bit floats, points
//! as two, match records as two unsigned 32-bit indices, and the output
//! counter as one unsigned 32-bit count padded to 16 bytes.  This module
//! holds the integer-typed records and the byte decoding the readback
//! protocol relies on; the float-typed records never reach the verified
//! logic and are encoded where the device is driven.

use vstd::prelude::*;

verus! {

/// Bytes of one rectangle record: four 32-bit floats.
pub const RECT_RECORD_BYTES: u64 = 16;

/// Bytes of one point record: two 32-bit floats.
pub const POINT_RECORD_BYTES: u64 = 8;

/// Bytes of one match record: two unsigned 32-bit indices.
pub const MATCH_RECORD_BYTES: u64 = 8;

/// Bytes of one distance output element: one 32-bit float.
pub const DISTANCE_RECORD_BYTES: u64 = 4;

/// Bytes of the output counter: one unsigned 32-bit count plus three words
/// of alignment padding.
pub const COUNTER_BYTES: u64 = 16;

/// One entry of the join kernel's output stream: a pair of indices into the
/// original left and right arrays.  It owns nothing; it only references.
#[derive(Clone, Copy, PartialEq, Eq, Structural, Debug)]
pub struct MatchRecord {
    pub left_index: u32,
    pub right_index: u32,
}

/// The unsigned 32-bit value stored little-endian at `off` in `b`.
pub open spec fn u32_le(b: Seq<u8>, off: int) -> u32
    recommends
        0 <= off,
        off + 4 <= b.len(),
{
    (b[off] + b[off + 1] * 0x100 + b[off + 2] * 0x1_0000 + b[off + 3] * 0x100_0000) as u32
}

/// The match record stored at slot `k` of a little-endian record stream.
pub open spec fn match_record_at(b: Seq<u8>, k: int) -> MatchRecord
    recommends
        0 <= k,
        8 * k + 8 <= b.len(),
{
    MatchRecord {
        left_index: u32_le(b, 8 * k),
        right_index: u32_le(b, 8 * k + 4),
    }
}

/// Read the unsigned 32-bit value stored little-endian at `offset`.
pub fn decode_u32_le(bytes: &Vec<u8>, offset: usize) -> (r: u32)
    requires
        offset + 4 <= bytes.len(),
    ensures
        r == u32_le(bytes@, offset as int),
{
    let b0 = bytes[offset] as u32;
    let b1 = bytes[offset + 1] as u32;
    let b2 = bytes[offset + 2] as u32;
    let b3 = bytes[offset + 3] as u32;
    b0 + b1 * 0x100 + b2 * 0x1_0000 + b3 * 0x100_0000
}

/// Decode a whole readback payload into match records.  The payload is a
/// prefix of the kernel's output buffer, so its length is a multiple of the
/// record size.
pub fn decode_match_records(bytes: &Vec<u8>) -> (records: Vec<MatchRecord>)
    requires
        bytes@.len() % 8 == 0,
    ensures
        records@.len() == bytes@.len() / 8,
        forall|k: int| 0 <= k < records@.len() ==> records@[k] == match_record_at(bytes@, k),
{
    let count: usize = bytes.len() / 8;
    let mut records: Vec<MatchRecord> = Vec::new();
    let mut k: usize = 0;
    while k < count
        invariant
            count == bytes.len() / 8,
            bytes@.len() % 8 == 0,
            k <= count,
            records@.len() == k,
            forall|j: int| 0 <= j < k ==> records@[j] == match_record_at(bytes@, j),
        decreases count - k,
    {
        assert(8 * (k as int) + 8 <= bytes.len());
        let left_index = decode_u32_le(bytes, 8 * k);
        let right_index = decode_u32_le(bytes, 8 * k + 4);
        records.push(MatchRecord { left_index, right_index });
        k += 1;
    }
    records
}

} // verus!
