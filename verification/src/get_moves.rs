//! Legal-move computation.
//!
//! The specification [`moves_scan`] is the naive reference: for each of the
//! 8 compass directions, walk one step at a time through a contiguous run of
//! opponent discs starting next to a mover disc, and record the empty cell
//! one step beyond the run. The executable [`get_moves`] uses the bit-parallel
//! doubling-shift algorithm over the 4 board axes and is proved to return
//! exactly the reference result for every non-overlapping pair of bitboards.

use vstd::prelude::*;

use crate::bits::{shift_e, shift_n, shift_ne, shift_nw, shift_s, shift_se, shift_sw, shift_w};

verus! {

/// Every cell outside files A and H; the opponent mask is restricted to it on
/// the three non-vertical axes so that no run crosses the board edge.
pub const EDGE_CLEAR: u64 = 0x7e7e7e7e7e7e7e7e;

/// Naive scan towards the east: `ck` holds the opponent discs reached after
/// `k` single steps from a mover disc, and each landing one further step east
/// on an empty cell is a legal move. A run between a mover disc and an empty
/// cell holds at most 6 discs, and after 7 steps every cell has fallen off
/// the board, so 7 unrolled steps equal the unbounded walk.
pub open spec fn moves_scan_e(p: u64, o: u64) -> u64 {
    let emp = !(p | o);
    let c1 = shift_e(p) & o;
    let c2 = shift_e(c1) & o;
    let c3 = shift_e(c2) & o;
    let c4 = shift_e(c3) & o;
    let c5 = shift_e(c4) & o;
    let c6 = shift_e(c5) & o;
    let c7 = shift_e(c6) & o;
    (emp & shift_e(c1)) | (emp & shift_e(c2)) | (emp & shift_e(c3)) | (emp & shift_e(c4)) | (emp
        & shift_e(c5)) | (emp & shift_e(c6)) | (emp & shift_e(c7))
}

/// Naive scan towards the west; see [`moves_scan_e`].
pub open spec fn moves_scan_w(p: u64, o: u64) -> u64 {
    let emp = !(p | o);
    let c1 = shift_w(p) & o;
    let c2 = shift_w(c1) & o;
    let c3 = shift_w(c2) & o;
    let c4 = shift_w(c3) & o;
    let c5 = shift_w(c4) & o;
    let c6 = shift_w(c5) & o;
    let c7 = shift_w(c6) & o;
    (emp & shift_w(c1)) | (emp & shift_w(c2)) | (emp & shift_w(c3)) | (emp & shift_w(c4)) | (emp
        & shift_w(c5)) | (emp & shift_w(c6)) | (emp & shift_w(c7))
}

/// Naive scan towards the south; see [`moves_scan_e`].
pub open spec fn moves_scan_s(p: u64, o: u64) -> u64 {
    let emp = !(p | o);
    let c1 = shift_s(p) & o;
    let c2 = shift_s(c1) & o;
    let c3 = shift_s(c2) & o;
    let c4 = shift_s(c3) & o;
    let c5 = shift_s(c4) & o;
    let c6 = shift_s(c5) & o;
    let c7 = shift_s(c6) & o;
    (emp & shift_s(c1)) | (emp & shift_s(c2)) | (emp & shift_s(c3)) | (emp & shift_s(c4)) | (emp
        & shift_s(c5)) | (emp & shift_s(c6)) | (emp & shift_s(c7))
}

/// Naive scan towards the north; see [`moves_scan_e`].
pub open spec fn moves_scan_n(p: u64, o: u64) -> u64 {
    let emp = !(p | o);
    let c1 = shift_n(p) & o;
    let c2 = shift_n(c1) & o;
    let c3 = shift_n(c2) & o;
    let c4 = shift_n(c3) & o;
    let c5 = shift_n(c4) & o;
    let c6 = shift_n(c5) & o;
    let c7 = shift_n(c6) & o;
    (emp & shift_n(c1)) | (emp & shift_n(c2)) | (emp & shift_n(c3)) | (emp & shift_n(c4)) | (emp
        & shift_n(c5)) | (emp & shift_n(c6)) | (emp & shift_n(c7))
}

/// Naive scan towards the south-east; see [`moves_scan_e`].
pub open spec fn moves_scan_se(p: u64, o: u64) -> u64 {
    let emp = !(p | o);
    let c1 = shift_se(p) & o;
    let c2 = shift_se(c1) & o;
    let c3 = shift_se(c2) & o;
    let c4 = shift_se(c3) & o;
    let c5 = shift_se(c4) & o;
    let c6 = shift_se(c5) & o;
    let c7 = shift_se(c6) & o;
    (emp & shift_se(c1)) | (emp & shift_se(c2)) | (emp & shift_se(c3)) | (emp & shift_se(c4)) | (
    emp & shift_se(c5)) | (emp & shift_se(c6)) | (emp & shift_se(c7))
}

/// Naive scan towards the south-west; see [`moves_scan_e`].
pub open spec fn moves_scan_sw(p: u64, o: u64) -> u64 {
    let emp = !(p | o);
    let c1 = shift_sw(p) & o;
    let c2 = shift_sw(c1) & o;
    let c3 = shift_sw(c2) & o;
    let c4 = shift_sw(c3) & o;
    let c5 = shift_sw(c4) & o;
    let c6 = shift_sw(c5) & o;
    let c7 = shift_sw(c6) & o;
    (emp & shift_sw(c1)) | (emp & shift_sw(c2)) | (emp & shift_sw(c3)) | (emp & shift_sw(c4)) | (
    emp & shift_sw(c5)) | (emp & shift_sw(c6)) | (emp & shift_sw(c7))
}

/// Naive scan towards the north-east; see [`moves_scan_e`].
pub open spec fn moves_scan_ne(p: u64, o: u64) -> u64 {
    let emp = !(p | o);
    let c1 = shift_ne(p) & o;
    let c2 = shift_ne(c1) & o;
    let c3 = shift_ne(c2) & o;
    let c4 = shift_ne(c3) & o;
    let c5 = shift_ne(c4) & o;
    let c6 = shift_ne(c5) & o;
    let c7 = shift_ne(c6) & o;
    (emp & shift_ne(c1)) | (emp & shift_ne(c2)) | (emp & shift_ne(c3)) | (emp & shift_ne(c4)) | (
    emp & shift_ne(c5)) | (emp & shift_ne(c6)) | (emp & shift_ne(c7))
}

/// Naive scan towards the north-west; see [`moves_scan_e`].
pub open spec fn moves_scan_nw(p: u64, o: u64) -> u64 {
    let emp = !(p | o);
    let c1 = shift_nw(p) & o;
    let c2 = shift_nw(c1) & o;
    let c3 = shift_nw(c2) & o;
    let c4 = shift_nw(c3) & o;
    let c5 = shift_nw(c4) & o;
    let c6 = shift_nw(c5) & o;
    let c7 = shift_nw(c6) & o;
    (emp & shift_nw(c1)) | (emp & shift_nw(c2)) | (emp & shift_nw(c3)) | (emp & shift_nw(c4)) | (
    emp & shift_nw(c5)) | (emp & shift_nw(c6)) | (emp & shift_nw(c7))
}

/// The legal moves of the side holding `p` against the side holding `o`:
/// the union of the eight naive single-step directional scans. A cell is
/// legal iff it is empty and some direction from it holds a non-empty
/// contiguous run of `o` discs terminated by a `p` disc. This is the
/// reference definition every faster algorithm must reproduce exactly.
pub open spec fn moves_scan(p: u64, o: u64) -> u64 {
    moves_scan_e(p, o) | moves_scan_w(p, o) | moves_scan_s(p, o) | moves_scan_n(p, o)
        | moves_scan_se(p, o) | moves_scan_sw(p, o) | moves_scan_ne(p, o) | moves_scan_nw(p, o)
}

/// Doubling-shift run accumulation towards higher bit positions: one step,
/// one more step, then two jumps of double width, followed by the final
/// one-step landing shift.
pub open spec fn doubling_hi(p: u64, dir_mask: u64, dir: u64) -> u64 {
    let f1 = dir_mask & (p << dir);
    let f2 = f1 | (dir_mask & (f1 << dir));
    let m = dir_mask & (dir_mask << dir);
    let f3 = f2 | (m & (f2 << (2 * dir)));
    let f4 = f3 | (m & (f3 << (2 * dir)));
    f4 << dir
}

/// Doubling-shift run accumulation towards lower bit positions.
pub open spec fn doubling_lo(p: u64, dir_mask: u64, dir: u64) -> u64 {
    let f1 = dir_mask & (p >> dir);
    let f2 = f1 | (dir_mask & (f1 >> dir));
    let m = dir_mask & (dir_mask >> dir);
    let f3 = f2 | (m & (f2 >> (2 * dir)));
    let f4 = f3 | (m & (f3 >> (2 * dir)));
    f4 >> dir
}

/// The horizontal axis of the doubling algorithm, masked to exclude files A
/// and H, finds exactly the east and west naive-scan moves once restricted
/// to empty cells.
proof fn lemma_axis_horizontal(p: u64, o: u64)
    by (bit_vector)
    requires
        p & o == 0,
    ensures
        (doubling_hi(p, o & EDGE_CLEAR, 1) | doubling_lo(p, o & EDGE_CLEAR, 1)) & !(p | o)
            == moves_scan_e(p, o) | moves_scan_w(p, o),
{
}

/// The south-west/north-east diagonal axis (step 7), masked like the
/// horizontal one, finds exactly the corresponding naive-scan moves.
proof fn lemma_axis_diagonal_sw(p: u64, o: u64)
    by (bit_vector)
    requires
        p & o == 0,
    ensures
        (doubling_hi(p, o & EDGE_CLEAR, 7) | doubling_lo(p, o & EDGE_CLEAR, 7)) & !(p | o)
            == moves_scan_sw(p, o) | moves_scan_ne(p, o),
{
}

/// The south-east/north-west diagonal axis (step 9), masked like the
/// horizontal one, finds exactly the corresponding naive-scan moves.
proof fn lemma_axis_diagonal_se(p: u64, o: u64)
    by (bit_vector)
    requires
        p & o == 0,
    ensures
        (doubling_hi(p, o & EDGE_CLEAR, 9) | doubling_lo(p, o & EDGE_CLEAR, 9)) & !(p | o)
            == moves_scan_se(p, o) | moves_scan_nw(p, o),
{
}

/// The vertical axis (step 8), which needs no edge mask because rows cannot
/// wrap, finds exactly the south and north naive-scan moves.
proof fn lemma_axis_vertical(p: u64, o: u64)
    by (bit_vector)
    requires
        p & o == 0,
    ensures
        (doubling_hi(p, o, 8) | doubling_lo(p, o, 8)) & !(p | o) == moves_scan_s(p, o)
            | moves_scan_n(p, o),
{
}

/// The full bit-parallel move computation: the four doubling axes, united
/// and restricted to empty cells.
pub open spec fn moves_bitparallel(p: u64, o: u64) -> u64 {
    let mask = o & EDGE_CLEAR;
    ((doubling_hi(p, mask, 1) | doubling_lo(p, mask, 1)) | (doubling_hi(p, mask, 7) | doubling_lo(
        p,
        mask,
        7,
    )) | (doubling_hi(p, mask, 9) | doubling_lo(p, mask, 9)) | (doubling_hi(p, o, 8) | doubling_lo(
        p,
        o,
        8,
    ))) & !(p | o)
}

/// For every pair of non-overlapping bitboards, the bit-parallel algorithm
/// computes exactly the naive reference scan.
pub proof fn lemma_bitparallel_matches_scan(p: u64, o: u64)
    requires
        p & o == 0,
    ensures
        moves_bitparallel(p, o) == moves_scan(p, o),
{
    lemma_axis_horizontal(p, o);
    lemma_axis_diagonal_sw(p, o);
    lemma_axis_diagonal_se(p, o);
    lemma_axis_vertical(p, o);
    let mask = o & EDGE_CLEAR;
    let emp = !(p | o);
    let a = doubling_hi(p, mask, 1) | doubling_lo(p, mask, 1);
    let b = doubling_hi(p, mask, 7) | doubling_lo(p, mask, 7);
    let c = doubling_hi(p, mask, 9) | doubling_lo(p, mask, 9);
    let d = doubling_hi(p, o, 8) | doubling_lo(p, o, 8);
    assert((a | b | c | d) & emp == ((a & emp) | (b & emp) | (c & emp) | (d & emp)))
        by (bit_vector);
    let s_e = moves_scan_e(p, o);
    let s_w = moves_scan_w(p, o);
    let s_s = moves_scan_s(p, o);
    let s_n = moves_scan_n(p, o);
    let s_se = moves_scan_se(p, o);
    let s_sw = moves_scan_sw(p, o);
    let s_ne = moves_scan_ne(p, o);
    let s_nw = moves_scan_nw(p, o);
    assert(((s_e | s_w) | (s_sw | s_ne) | (s_se | s_nw) | (s_s | s_n)) == (s_e | s_w | s_s | s_n
        | s_se | s_sw | s_ne | s_nw)) by (bit_vector);
}

/// Every move found by the naive scan lands on an empty cell.
pub proof fn lemma_scan_only_empty(p: u64, o: u64)
    ensures
        moves_scan(p, o) & (p | o) == 0,
{
    assert(moves_scan(p, o) & (p | o) == 0) by (bit_vector);
}

/// One axis of the executable doubling algorithm: runs accumulated towards
/// higher and towards lower bit positions, each followed by its landing
/// shift.
fn moves_axis(player: u64, dir_mask: u64, dir: u64) -> (r: u64)
    requires
        1 <= dir <= 9,
    ensures
        r == (doubling_hi(player, dir_mask, dir) | doubling_lo(player, dir_mask, dir)),
{
    let mut flip_hi: u64 = dir_mask & (player << dir);
    flip_hi = flip_hi | (dir_mask & (flip_hi << dir));
    let mask_hi: u64 = dir_mask & (dir_mask << dir);
    flip_hi = flip_hi | (mask_hi & (flip_hi << (2 * dir)));
    flip_hi = flip_hi | (mask_hi & (flip_hi << (2 * dir)));

    let mut flip_lo: u64 = dir_mask & (player >> dir);
    flip_lo = flip_lo | (dir_mask & (flip_lo >> dir));
    let mask_lo: u64 = dir_mask & (dir_mask >> dir);
    flip_lo = flip_lo | (mask_lo & (flip_lo >> (2 * dir)));
    flip_lo = flip_lo | (mask_lo & (flip_lo >> (2 * dir)));

    (flip_hi << dir) | (flip_lo >> dir)
}

/// Computes the legal-move bitset for the side holding `player` against the
/// side holding `opponent`, by the bit-parallel doubling algorithm. On every
/// position whose sides do not overlap, the result is exactly the naive
/// 8-direction reference scan.
pub fn get_moves(player: u64, opponent: u64) -> (r: u64)
    ensures
        r == moves_bitparallel(player, opponent),
        player & opponent == 0 ==> r == moves_scan(player, opponent),
{
    let mask = opponent & EDGE_CLEAR;
    let horizontal = moves_axis(player, mask, 1);
    let diagonal_sw = moves_axis(player, mask, 7);
    let diagonal_se = moves_axis(player, mask, 9);
    let vertical = moves_axis(player, opponent, 8);
    let r = (horizontal | diagonal_sw | diagonal_se | vertical) & !(player | opponent);
    proof {
        if player & opponent == 0 {
            lemma_bitparallel_matches_scan(player, opponent);
        }
    }
    r
}

} // verus!
