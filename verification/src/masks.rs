//! Bit masks over component types: one bit per registered type, in a `u32`.

use vstd::prelude::*;

verus! {

/// The most component types that can be told apart: one bit each.
pub const MAX_TYPES: usize = 32;

/// The mask of the type registered at position `index`: bit `index` alone.
pub open spec fn bit(index: int) -> u32 {
    1u32 << (index as u32)
}

/// Whether `mask` has every bit of `wanted`.
pub open spec fn covers(mask: u32, wanted: u32) -> bool {
    mask & wanted == wanted
}

/// The mask of position `index`, computed.
pub fn bit_at(index: usize) -> (mask: u32)
    requires
        index < MAX_TYPES,
    ensures
        mask == bit(index as int),
{
    1u32 << (index as u32)
}

/// The first registered type has mask 1, the second 2, and each further one
/// twice the mask of the one before it.
pub proof fn lemma_bit_values(index: int)
    requires
        0 <= index < MAX_TYPES - 1,
    ensures
        bit(0) == 1,
        bit(1) == 2,
        bit(index + 1) == 2 * bit(index),
        bit(index) != 0,
{
    assert(1u32 << 0u32 == 1) by (bit_vector);
    assert(1u32 << 1u32 == 2) by (bit_vector);
    let i = index as u32;
    assert(i < 31 ==> 1u32 << ((i + 1) as u32) == 2 * (1u32 << i) && (1u32 << i) != 0
        && (1u32 << i) < 0x8000_0000) by (bit_vector);
}

/// Bits of different positions share nothing, and none of them is empty.
pub proof fn lemma_bits_apart(first: int, second: int)
    requires
        0 <= first < MAX_TYPES,
        0 <= second < MAX_TYPES,
    ensures
        bit(first) != 0,
        first != second ==> bit(first) & bit(second) == 0,
{
    let c = first as u32;
    let d = second as u32;
    assert(c < 32 ==> (1u32 << c) != 0) by (bit_vector);
    assert(c < 32 && d < 32 && c != d ==> (1u32 << c) & (1u32 << d) == 0) by (bit_vector);
}

/// Adding the bits of `extra` to a mask: what was covered stays covered, the
/// bits of `extra` are covered, and a bit that shares nothing with `extra` is
/// covered after exactly when it was before.
pub proof fn lemma_covers_after_or(mask: u32, extra: u32, wanted: u32)
    ensures
        covers(mask | extra, extra),
        covers(mask, wanted) ==> covers(mask | extra, wanted),
        wanted & extra == 0 ==> (covers(mask | extra, wanted) <==> covers(mask, wanted)),
        mask | 0 == mask,
{
    assert((mask | extra) & extra == extra) by (bit_vector);
    assert(mask & wanted == wanted ==> (mask | extra) & wanted == wanted) by (bit_vector);
    assert(wanted & extra == 0 ==> (mask | extra) & wanted == mask & wanted) by (bit_vector);
    assert(mask | 0 == mask) by (bit_vector);
}

/// Covering is transitive, and a mask covers a union exactly when it covers
/// both parts.
pub proof fn lemma_covers_parts(mask: u32, first: u32, second: u32)
    ensures
        covers(mask, first) && covers(first, second) ==> covers(mask, second),
        covers(mask, first | second) <==> covers(mask, first) && covers(mask, second),
        covers(mask, 0),
{
    assert(mask & first == first && first & second == second ==> mask & second == second)
        by (bit_vector);
    assert((mask & (first | second) == (first | second)) <==> (mask & first == first && mask
        & second == second)) by (bit_vector);
    assert(mask & 0 == 0) by (bit_vector);
}

} // verus!
