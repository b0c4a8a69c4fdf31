//! Capture (flip) computation.
//!
//! Placing a mover disc on a cell captures, in each of the 8 compass
//! directions, the contiguous run of opponent discs that starts immediately
//! next to the cell and is terminated by a mover disc before reaching an
//! empty cell or the board edge.
//!
//! Every direction is a masked single-cell shift: the mask keeps the cells
//! that may move without wrapping across the board edge, the shift amount
//! moves a cell one step along the direction. [`run_hi`]/[`run_lo`] extend
//! the run one cell at a time, six times, since a run between the placed
//! disc and its terminator can hold at most 6 discs on an 8-wide board.

use vstd::prelude::*;

use crate::bits::{FILE_A_CLEAR, FILE_H_CLEAR};

verus! {

/// Mask for shifts that cannot wrap (the vertical axis).
pub const ALL_CELLS: u64 = 0xffffffffffffffff;

/// One masked step towards higher bit positions.
pub open spec fn step_hi(b: u64, m: u64, k: u64) -> u64 {
    (b & m) << k
}

/// One masked step towards lower bit positions.
pub open spec fn step_lo(b: u64, m: u64, k: u64) -> u64 {
    (b & m) >> k
}

/// The contiguous run of `o` discs starting one step from `b` towards higher
/// bit positions, grown one cell at a time.
pub open spec fn run_hi(o: u64, b: u64, m: u64, k: u64) -> u64 {
    let x1 = step_hi(b, m, k) & o;
    let x2 = x1 | (step_hi(x1, m, k) & o);
    let x3 = x2 | (step_hi(x2, m, k) & o);
    let x4 = x3 | (step_hi(x3, m, k) & o);
    let x5 = x4 | (step_hi(x4, m, k) & o);
    x5 | (step_hi(x5, m, k) & o)
}

/// The contiguous run of `o` discs starting one step from `b` towards lower
/// bit positions.
pub open spec fn run_lo(o: u64, b: u64, m: u64, k: u64) -> u64 {
    let x1 = step_lo(b, m, k) & o;
    let x2 = x1 | (step_lo(x1, m, k) & o);
    let x3 = x2 | (step_lo(x2, m, k) & o);
    let x4 = x3 | (step_lo(x3, m, k) & o);
    let x5 = x4 | (step_lo(x4, m, k) & o);
    x5 | (step_lo(x5, m, k) & o)
}

/// The discs captured in one direction towards higher bit positions: the
/// run is committed only if the cell one step beyond it holds a `p` disc;
/// a run that ends at an empty cell or at the board edge is discarded.
pub open spec fn flips_hi(p: u64, o: u64, b: u64, m: u64, k: u64) -> u64 {
    let run = run_hi(o, b, m, k);
    if step_hi(run, m, k) & p != 0 {
        run
    } else {
        0
    }
}

/// The discs captured in one direction towards lower bit positions.
pub open spec fn flips_lo(p: u64, o: u64, b: u64, m: u64, k: u64) -> u64 {
    let run = run_lo(o, b, m, k);
    if step_lo(run, m, k) & p != 0 {
        run
    } else {
        0
    }
}

/// The bitset of `o` discs captured if the side holding `p` places a disc
/// on cell `i`: the union of the committed runs of the 8 compass directions.
pub open spec fn flipped_discs(p: u64, o: u64, i: u64) -> u64 {
    let b = 1u64 << i;
    flips_hi(p, o, b, FILE_H_CLEAR, 1) | flips_lo(p, o, b, FILE_A_CLEAR, 1) | flips_hi(
        p,
        o,
        b,
        ALL_CELLS,
        8,
    ) | flips_lo(p, o, b, ALL_CELLS, 8) | flips_hi(p, o, b, FILE_H_CLEAR, 9) | flips_hi(
        p,
        o,
        b,
        FILE_A_CLEAR,
        7,
    ) | flips_lo(p, o, b, FILE_H_CLEAR, 7) | flips_lo(p, o, b, FILE_A_CLEAR, 9)
}

/// Captured discs always belong to the opponent: every committed run is an
/// intersection with `o` at each growth step.
pub proof fn lemma_flipped_subset_opponent(p: u64, o: u64, i: u64)
    requires
        i < 64,
    ensures
        flipped_discs(p, o, i) & !o == 0,
{
    let b = 1u64 << i;
    assert(flips_hi(p, o, b, FILE_H_CLEAR, 1) & !o == 0) by (bit_vector);
    assert(flips_lo(p, o, b, FILE_A_CLEAR, 1) & !o == 0) by (bit_vector);
    assert(flips_hi(p, o, b, ALL_CELLS, 8) & !o == 0) by (bit_vector);
    assert(flips_lo(p, o, b, ALL_CELLS, 8) & !o == 0) by (bit_vector);
    assert(flips_hi(p, o, b, FILE_H_CLEAR, 9) & !o == 0) by (bit_vector);
    assert(flips_hi(p, o, b, FILE_A_CLEAR, 7) & !o == 0) by (bit_vector);
    assert(flips_lo(p, o, b, FILE_H_CLEAR, 7) & !o == 0) by (bit_vector);
    assert(flips_lo(p, o, b, FILE_A_CLEAR, 9) & !o == 0) by (bit_vector);
    let f1 = flips_hi(p, o, b, FILE_H_CLEAR, 1);
    let f2 = flips_lo(p, o, b, FILE_A_CLEAR, 1);
    let f3 = flips_hi(p, o, b, ALL_CELLS, 8);
    let f4 = flips_lo(p, o, b, ALL_CELLS, 8);
    let f5 = flips_hi(p, o, b, FILE_H_CLEAR, 9);
    let f6 = flips_hi(p, o, b, FILE_A_CLEAR, 7);
    let f7 = flips_lo(p, o, b, FILE_H_CLEAR, 7);
    let f8 = flips_lo(p, o, b, FILE_A_CLEAR, 9);
    assert((f1 | f2 | f3 | f4 | f5 | f6 | f7 | f8) & !o == 0) by (bit_vector)
        requires
            f1 & !o == 0,
            f2 & !o == 0,
            f3 & !o == 0,
            f4 & !o == 0,
            f5 & !o == 0,
            f6 & !o == 0,
            f7 & !o == 0,
            f8 & !o == 0,
    ;
}

/// One direction of the executable capture computation, towards higher bit
/// positions.
fn flips_axis_hi(p: u64, o: u64, b: u64, m: u64, k: u64) -> (r: u64)
    requires
        1 <= k <= 9,
    ensures
        r == flips_hi(p, o, b, m, k),
{
    let mut run: u64 = ((b & m) << k) & o;
    run = run | (((run & m) << k) & o);
    run = run | (((run & m) << k) & o);
    run = run | (((run & m) << k) & o);
    run = run | (((run & m) << k) & o);
    run = run | (((run & m) << k) & o);
    if ((run & m) << k) & p != 0 {
        run
    } else {
        0
    }
}

/// One direction of the executable capture computation, towards lower bit
/// positions.
fn flips_axis_lo(p: u64, o: u64, b: u64, m: u64, k: u64) -> (r: u64)
    requires
        1 <= k <= 9,
    ensures
        r == flips_lo(p, o, b, m, k),
{
    let mut run: u64 = ((b & m) >> k) & o;
    run = run | (((run & m) >> k) & o);
    run = run | (((run & m) >> k) & o);
    run = run | (((run & m) >> k) & o);
    run = run | (((run & m) >> k) & o);
    run = run | (((run & m) >> k) & o);
    if ((run & m) >> k) & p != 0 {
        run
    } else {
        0
    }
}

/// Computes the bitset of discs captured by placing a disc of the side
/// holding `player` on cell `index`. Callers must have checked that `index`
/// is a legal move; on other inputs the result is the union of committed
/// runs as [`flipped_discs`] defines it, with nothing more promised.
pub fn get_flipped(player: u64, opponent: u64, index: usize) -> (r: u64)
    requires
        index < 64,
    ensures
        r == flipped_discs(player, opponent, index as u64),
{
    let b: u64 = 1u64 << index;
    let east = flips_axis_hi(player, opponent, b, FILE_H_CLEAR, 1);
    let west = flips_axis_lo(player, opponent, b, FILE_A_CLEAR, 1);
    let south = flips_axis_hi(player, opponent, b, ALL_CELLS, 8);
    let north = flips_axis_lo(player, opponent, b, ALL_CELLS, 8);
    let south_east = flips_axis_hi(player, opponent, b, FILE_H_CLEAR, 9);
    let south_west = flips_axis_hi(player, opponent, b, FILE_A_CLEAR, 7);
    let north_east = flips_axis_lo(player, opponent, b, FILE_H_CLEAR, 7);
    let north_west = flips_axis_lo(player, opponent, b, FILE_A_CLEAR, 9);
    east | west | south | north | south_east | south_west | north_east | north_west
}

} // verus!
