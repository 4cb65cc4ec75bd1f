//! The compute-budget program's identifier and its heap-frame request.

use vstd::prelude::*;
use crate::bytes::{le_u32, read_u32};

verus! {

/// Bytes in one heap frame, the unit in which extra heap is requested.
pub const HEAP_FRAME_BYTES: u64 = 1024;

/// Discriminant of the "request heap frame" compute-budget instruction.
pub const REQUEST_HEAP_FRAME_TAG: u8 = 1;

/// Identifier of the compute-budget program,
/// `ComputeBudget111111111111111111111111111111` in base 58.
pub open spec fn compute_budget_id() -> Seq<u8> {
    seq![
        3u8, 6, 70, 111, 229, 33, 23, 50, 255, 236, 173, 186, 114, 195, 155, 231,
        188, 140, 229, 187, 197, 247, 18, 107, 44, 67, 155, 58, 64, 0, 0, 0,
    ]
}

/// Identifier of the compute-budget program, byte for byte.
pub fn compute_budget_id_bytes() -> (r: [u8; 32])
    ensures
        r@ == compute_budget_id(),
{
    let r: [u8; 32] = [
        3u8, 6, 70, 111, 229, 33, 23, 50, 255, 236, 173, 186, 114, 195, 155, 231,
        188, 140, 229, 187, 197, 247, 18, 107, 44, 67, 155, 58, 64, 0, 0, 0,
    ];
    assert(r@ =~= compute_budget_id());
    r
}

/// Whether `key` is the compute-budget program's identifier.
pub fn is_compute_budget_program(key: &[u8]) -> (r: bool)
    ensures
        r == (key@ == compute_budget_id()),
{
    let id = compute_budget_id_bytes();
    if key.len() != 32 {
        return false;
    }
    let mut i: usize = 0;
    while i < 32
        invariant
            key@.len() == 32,
            id@ == compute_budget_id(),
            i <= 32,
            forall|j: int| 0 <= j < i ==> key@[j] == id@[j],
        decreases 32 - i,
    {
        if key[i] != id[i] {
            return false;
        }
        i = i + 1;
    }
    assert(key@ =~= compute_budget_id());
    true
}

/// The heap size in bytes that a compute-budget instruction payload requests:
/// tag `1` followed by exactly four bytes of little-endian frame count.
/// Any other payload requests nothing.
pub open spec fn heap_frame_request(payload: Seq<u8>) -> Option<u64> {
    if payload.len() == 5 && payload[0] == REQUEST_HEAP_FRAME_TAG {
        Some((le_u32(payload, 1) * HEAP_FRAME_BYTES) as u64)
    } else {
        None
    }
}

/// Decodes the "request heap frame" compute-budget instruction and returns the
/// requested heap size in bytes; `None` for every other payload.
pub fn parse_compute_budget_instruction(data: &[u8]) -> (r: Option<u64>)
    ensures
        r == heap_frame_request(data@),
        r matches Some(n) ==> n % HEAP_FRAME_BYTES == 0,
{
    if data.len() != 5 || data[0] != REQUEST_HEAP_FRAME_TAG {
        return None;
    }
    let frames = read_u32(data, 1) as u64;
    Some(frames * HEAP_FRAME_BYTES)
}

} // verus!
