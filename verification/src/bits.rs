//! Bit-level foundations for the 8x8 board: single-step directional shifts
//! and a verified population count.
//!
//! Cells are indexed 0..64 in row-major order: `row = i / 8`, `col = i % 8`,
//! cell `i` is bit `1 << i`. Column 0 is file A, column 7 is file H.

use vstd::prelude::*;

verus! {

/// Every cell outside file A (column 0); masking with this before a westward
/// shift prevents wrap-around across the board edge.
pub const FILE_A_CLEAR: u64 = 0xfefefefefefefefe;

/// Every cell outside file H (column 7); masking with this before an eastward
/// shift prevents wrap-around across the board edge.
pub const FILE_H_CLEAR: u64 = 0x7f7f7f7f7f7f7f7f;

/// The four board corners: cells 0, 7, 56 and 63.
pub const CORNER_MASK: u64 = 0x8100000000000081;

/// Move every cell one column east (col + 1); cells on file H fall off.
pub open spec fn shift_e(b: u64) -> u64 {
    (b & FILE_H_CLEAR) << 1
}

/// Move every cell one column west (col - 1); cells on file A fall off.
pub open spec fn shift_w(b: u64) -> u64 {
    (b & FILE_A_CLEAR) >> 1
}

/// Move every cell one row down (row + 1); cells on the last row fall off.
pub open spec fn shift_s(b: u64) -> u64 {
    b << 8
}

/// Move every cell one row up (row - 1); cells on the first row fall off.
pub open spec fn shift_n(b: u64) -> u64 {
    b >> 8
}

/// Move every cell one step south-east (row + 1, col + 1).
pub open spec fn shift_se(b: u64) -> u64 {
    (b & FILE_H_CLEAR) << 9
}

/// Move every cell one step south-west (row + 1, col - 1).
pub open spec fn shift_sw(b: u64) -> u64 {
    (b & FILE_A_CLEAR) << 7
}

/// Move every cell one step north-east (row - 1, col + 1).
pub open spec fn shift_ne(b: u64) -> u64 {
    (b & FILE_H_CLEAR) >> 7
}

/// Move every cell one step north-west (row - 1, col - 1).
pub open spec fn shift_nw(b: u64) -> u64 {
    (b & FILE_A_CLEAR) >> 9
}

/// Number of set bits among the lowest `n` bit positions of `x`.
pub open spec fn popcount_upto(x: u64, n: nat) -> nat
    decreases n,
{
    if n == 0 {
        0
    } else {
        popcount_upto(x, (n - 1) as nat) + (if (x >> ((n - 1) as u64)) & 1 == 1 {
            1nat
        } else {
            0nat
        })
    }
}

/// Number of set bits of `x`: the number of occupied cells of a bitboard.
pub open spec fn popcount(x: u64) -> nat {
    popcount_upto(x, 64)
}

/// A count over `n` bit positions can never exceed `n`.
pub proof fn lemma_popcount_upto_le(x: u64, n: nat)
    ensures
        popcount_upto(x, n) <= n,
    decreases n,
{
    if n > 0 {
        lemma_popcount_upto_le(x, (n - 1) as nat);
    }
}

/// The number of occupied cells of any bitboard is at most 64.
pub proof fn lemma_popcount_le_64(x: u64)
    ensures
        popcount(x) <= 64,
{
    lemma_popcount_upto_le(x, 64);
}

/// Setting one bit that was clear raises the count over any window that
/// contains it by exactly one, and leaves other windows unchanged.
proof fn lemma_popcount_upto_set_bit(x: u64, i: u64, n: nat)
    requires
        i < 64,
        x & (1u64 << i) == 0,
        n <= 64,
    ensures
        popcount_upto(x | (1u64 << i), n) == popcount_upto(x, n) + (if i < n {
            1nat
        } else {
            0nat
        }),
    decreases n,
{
    if n > 0 {
        let m = (n - 1) as u64;
        lemma_popcount_upto_set_bit(x, i, (n - 1) as nat);
        if m == i {
            assert(((x | (1u64 << i)) >> m) & 1 == 1 && (x >> m) & 1 == 0) by (bit_vector)
                requires
                    m == i,
                    i < 64,
                    x & (1u64 << i) == 0,
            ;
        } else {
            assert(((x | (1u64 << i)) >> m) & 1 == (x >> m) & 1) by (bit_vector)
                requires
                    m != i,
                    m < 64,
                    i < 64,
            ;
        }
    }
}

/// Placing a disc on an empty cell increases the occupancy count by one.
pub proof fn lemma_popcount_set_bit(x: u64, i: u64)
    requires
        i < 64,
        x & (1u64 << i) == 0,
    ensures
        popcount(x | (1u64 << i)) == popcount(x) + 1,
{
    lemma_popcount_upto_set_bit(x, i, 64);
}

/// Over any window, each bit position is set in exactly one of `x` and `!x`.
proof fn lemma_popcount_upto_complement(x: u64, n: nat)
    requires
        n <= 64,
    ensures
        popcount_upto(x, n) + popcount_upto(!x, n) == n,
    decreases n,
{
    if n > 0 {
        let m = (n - 1) as u64;
        lemma_popcount_upto_complement(x, (n - 1) as nat);
        assert(((x >> m) & 1 == 1) <==> !((!x >> m) & 1 == 1)) by (bit_vector)
            requires
                m < 64,
        ;
    }
}

/// A bitboard and its complement together cover all 64 cells exactly once.
pub proof fn lemma_popcount_complement(x: u64)
    ensures
        popcount(x) + popcount(!x) == 64,
{
    lemma_popcount_upto_complement(x, 64);
}

/// Counts the set bits of `x`, one bit position at a time.
pub fn count_bits(x: u64) -> (r: u32)
    ensures
        r == popcount(x),
{
    let mut r: u32 = 0;
    let mut i: u64 = 0;
    while i < 64
        invariant
            i <= 64,
            r == popcount_upto(x, i as nat),
            r <= i,
        decreases 64 - i,
    {
        let b = (x >> i) & 1;
        proof {
            assert((x >> i) & 1 <= 1) by (bit_vector);
        }
        r = r + b as u32;
        i = i + 1;
    }
    r
}

} // verus!
