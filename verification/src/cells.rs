//! Addresses as pairs of cells.

use vstd::prelude::*;

verus! {

/// The upper half of a double cell.
pub open spec fn high(value: u64) -> u32 {
    (value / 0x1_0000_0000) as u32
}

/// The lower half of a double cell.
pub open spec fn low(value: u64) -> u32 {
    (value % 0x1_0000_0000) as u32
}

/// The two halves give the value back.
pub proof fn lemma_halves(value: u64)
    ensures
        high(value) * 0x1_0000_0000 + low(value) == value,
{
}

/// Takes the upper half of a double cell.
pub fn high_cell(value: u64) -> (cell: u32)
    ensures
        cell == high(value),
{
    assert(value >> 32 == value / 0x1_0000_0000) by (bit_vector);
    (value >> 32) as u32
}

/// Takes the lower half of a double cell.
pub fn low_cell(value: u64) -> (cell: u32)
    ensures
        cell == low(value),
{
    assert(value as u32 == (value % 0x1_0000_0000) as u32) by (bit_vector);
    #[verifier::truncate]
    (value as u32)
}

} // verus!
