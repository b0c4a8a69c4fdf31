//! The search engine: negamax with alpha-beta pruning.
//!
//! [`negamax_exact`] and [`negamax_depth`] are the full-width (unpruned)
//! negamax values of a position; they are the specification. The executable
//! searches prune with an `(alpha, beta)` window; each is proved to return
//! exactly its pruned search value ([`ab_exact`], [`ab_depth`]) -- a
//! function of the position and the window alone, so the result depends on
//! nothing else -- and to relate to the full-width value in the classic
//! way: a result inside the window is that value, a result at or below
//! `alpha` bounds it from above, and a result at or above `beta` bounds it
//! from below.

use vstd::prelude::*;

use crate::bits::{
    count_bits, lemma_popcount_complement, lemma_popcount_le_64, lemma_popcount_set_bit, popcount,
    CORNER_MASK,
};
use crate::get_flipped::flipped_discs;
use crate::get_moves::{lemma_scan_only_empty, moves_scan};
use crate::position::{final_score_spec, lemma_final_score_negates_on_swap, Position};

verus! {

/// Sits below every reachable score; the neutral element of the running
/// maximum over a position's children.
pub const NO_SCORE: i32 = -1000;

/// The number of empty cells: the quantity that shrinks on every move.
pub open spec fn empty_cells(p: u64, o: u64) -> nat {
    popcount(!(p | o))
}

/// 0 when the side to move has a legal move, 1 otherwise; a forced pass
/// hands the turn to a side that does have a move.
pub open spec fn pass_rank(p: u64, o: u64) -> nat {
    if moves_scan(p, o) != 0 {
        0nat
    } else {
        1nat
    }
}

/// The mover bitboard after playing cell `i`: the opponent keeps what is
/// not captured.
pub open spec fn child_player(p: u64, o: u64, i: u64) -> u64 {
    o ^ flipped_discs(p, o, i)
}

/// The opponent bitboard after playing cell `i`: the old mover discs, the
/// captured discs, and the new disc.
pub open spec fn child_opponent(p: u64, o: u64, i: u64) -> u64 {
    p | flipped_discs(p, o, i) | (1u64 << i)
}

/// The larger of two scores.
pub open spec fn max_score(a: int, b: int) -> int {
    if a > b {
        a
    } else {
        b
    }
}

/// Playing a legal move fills an empty cell, so the child position has one
/// empty cell fewer.
pub proof fn lemma_child_empty_cells(p: u64, o: u64, i: u64)
    requires
        i < 64,
        (moves_scan(p, o) >> i) & 1 == 1,
    ensures
        empty_cells(child_player(p, o, i), child_opponent(p, o, i)) + 1 == empty_cells(p, o),
{
    let f = flipped_discs(p, o, i);
    let b = 1u64 << i;
    crate::get_flipped::lemma_flipped_subset_opponent(p, o, i);
    lemma_scan_only_empty(p, o);
    let mv = moves_scan(p, o);
    assert(b & (p | o) == 0 && (p | o) & b == 0) by (bit_vector)
        requires
            (mv >> i) & 1 == 1,
            mv & (p | o) == 0,
            i < 64,
            b == 1u64 << i,
    ;
    assert((o ^ f) | (p | f | b) == (p | o) | b) by (bit_vector)
        requires
            f & !o == 0,
    ;
    lemma_popcount_set_bit(p | o, i);
    lemma_popcount_complement(p | o);
    lemma_popcount_complement((p | o) | b);
    lemma_popcount_le_64(p | o);
}

/// Swapping the sides leaves the set of occupied cells unchanged.
proof fn lemma_swap_empty_cells(p: u64, o: u64)
    ensures
        empty_cells(o, p) == empty_cells(p, o),
{
    assert(o | p == p | o) by (bit_vector);
}

/// The full-width negamax value of the exact (depth-unbounded) search:
/// the terminal score reached when both sides play perfectly, seen from the
/// side to move. With moves available it is the best negated child value;
/// with no move for either side the game is over; otherwise the turn passes.
pub open spec fn negamax_exact(p: u64, o: u64) -> int
    decreases empty_cells(p, o), pass_rank(p, o), 1nat, 0int,
    via negamax_exact_decreases
{
    if moves_scan(p, o) != 0 {
        best_exact(p, o, 0)
    } else if moves_scan(o, p) != 0 {
        -negamax_exact(o, p)
    } else {
        final_score_spec(p, o)
    }
}

/// The best negated exact child value over the legal moves at cell `i` and
/// above, or the sentinel when none remains.
pub open spec fn best_exact(p: u64, o: u64, i: int) -> int
    decreases empty_cells(p, o), 0nat, 0nat, 64 - i,
    via best_exact_decreases
{
    if i < 0 || i >= 64 {
        NO_SCORE as int
    } else {
        let rest = best_exact(p, o, i + 1);
        if (moves_scan(p, o) >> (i as u64)) & 1 == 1 {
            max_score(
                -negamax_exact(child_player(p, o, i as u64), child_opponent(p, o, i as u64)),
                rest,
            )
        } else {
            rest
        }
    }
}

#[via_fn]
proof fn negamax_exact_decreases(p: u64, o: u64) {
    lemma_swap_empty_cells(p, o);
}

#[via_fn]
proof fn best_exact_decreases(p: u64, o: u64, i: int) {
    if 0 <= i < 64 {
        let iu = i as u64;
        if (moves_scan(p, o) >> iu) & 1 == 1 {
            lemma_child_empty_cells(p, o, iu);
        }
    }
}

/// The static heuristic used at bounded-search cutoffs: corner occupancy
/// (weight 3) plus mobility (weight 1), except that a position where
/// neither side can move is already over and gets its terminal score.
pub open spec fn heuristic_spec(p: u64, o: u64) -> int {
    if moves_scan(p, o) == 0 && moves_scan(o, p) == 0 {
        final_score_spec(p, o)
    } else {
        3 * (popcount(p & CORNER_MASK) as int - popcount(o & CORNER_MASK) as int) + (popcount(
            moves_scan(p, o),
        ) as int - popcount(moves_scan(o, p)) as int)
    }
}

/// The full-width negamax value of the depth-bounded search: the heuristic
/// at depth 0, otherwise one ply deeper per move; a forced pass keeps the
/// remaining depth.
pub open spec fn negamax_depth(p: u64, o: u64, depth: int) -> int
    decreases empty_cells(p, o), pass_rank(p, o), 1nat, 0int,
    via negamax_depth_decreases
{
    if depth == 0 {
        heuristic_spec(p, o)
    } else if moves_scan(p, o) != 0 {
        best_depth(p, o, depth, 0)
    } else if moves_scan(o, p) != 0 {
        -negamax_depth(o, p, depth)
    } else {
        final_score_spec(p, o)
    }
}

/// The best negated depth-bounded child value over the legal moves at cell
/// `i` and above, or the sentinel when none remains.
pub open spec fn best_depth(p: u64, o: u64, depth: int, i: int) -> int
    decreases empty_cells(p, o), 0nat, 0nat, 64 - i,
    via best_depth_decreases
{
    if i < 0 || i >= 64 {
        NO_SCORE as int
    } else {
        let rest = best_depth(p, o, depth, i + 1);
        if (moves_scan(p, o) >> (i as u64)) & 1 == 1 {
            max_score(
                -negamax_depth(
                    child_player(p, o, i as u64),
                    child_opponent(p, o, i as u64),
                    depth - 1,
                ),
                rest,
            )
        } else {
            rest
        }
    }
}

#[via_fn]
proof fn negamax_depth_decreases(p: u64, o: u64, depth: int) {
    lemma_swap_empty_cells(p, o);
}

#[via_fn]
proof fn best_depth_decreases(p: u64, o: u64, depth: int, i: int) {
    if 0 <= i < 64 {
        let iu = i as u64;
        if (moves_scan(p, o) >> iu) & 1 == 1 {
            lemma_child_empty_cells(p, o, iu);
        }
    }
}

/// The value of the pruned depth-bounded search itself, stated as a
/// function of the position, the depth and the window: the search visits
/// the legal moves in ascending cell order, raises `alpha` to each negated
/// child value, and stops as soon as `alpha` reaches `beta`. This pins the
/// executable search deterministically; its relation to the full-width
/// value [`negamax_depth`] is the alpha-beta window property proved on
/// [`Bot::alpha_beta`].
pub open spec fn ab_depth(p: u64, o: u64, depth: int, alpha: int, beta: int) -> int
    decreases empty_cells(p, o), pass_rank(p, o), 1nat, 0int,
    via ab_depth_decreases
{
    if depth == 0 {
        heuristic_spec(p, o)
    } else if moves_scan(p, o) != 0 {
        ab_depth_moves(p, o, depth, alpha, beta, 0)
    } else if moves_scan(o, p) != 0 {
        -ab_depth(o, p, depth, -beta, -alpha)
    } else {
        final_score_spec(p, o)
    }
}

/// The move loop of the pruned depth-bounded search, from cell `i` on:
/// fail-high cutoff included.
pub open spec fn ab_depth_moves(p: u64, o: u64, depth: int, alpha: int, beta: int, i: int) -> int
    decreases empty_cells(p, o), 0nat, 0nat, 64 - i,
    via ab_depth_moves_decreases
{
    if i < 0 || i >= 64 {
        alpha
    } else if (moves_scan(p, o) >> (i as u64)) & 1 == 1 {
        let s = -ab_depth(
            child_player(p, o, i as u64),
            child_opponent(p, o, i as u64),
            depth - 1,
            -beta,
            -alpha,
        );
        let raised = max_score(alpha, s);
        if raised >= beta {
            raised
        } else {
            ab_depth_moves(p, o, depth, raised, beta, i + 1)
        }
    } else {
        ab_depth_moves(p, o, depth, alpha, beta, i + 1)
    }
}

#[via_fn]
proof fn ab_depth_decreases(p: u64, o: u64, depth: int, alpha: int, beta: int) {
    lemma_swap_empty_cells(p, o);
}

#[via_fn]
proof fn ab_depth_moves_decreases(p: u64, o: u64, depth: int, alpha: int, beta: int, i: int) {
    if 0 <= i < 64 {
        let iu = i as u64;
        if (moves_scan(p, o) >> iu) & 1 == 1 {
            lemma_child_empty_cells(p, o, iu);
        }
    }
}

/// The value of the pruned exact search itself; see [`ab_depth`].
pub open spec fn ab_exact(p: u64, o: u64, alpha: int, beta: int) -> int
    decreases empty_cells(p, o), pass_rank(p, o), 1nat, 0int,
    via ab_exact_decreases
{
    if moves_scan(p, o) != 0 {
        ab_exact_moves(p, o, alpha, beta, 0)
    } else if moves_scan(o, p) != 0 {
        -ab_exact(o, p, -beta, -alpha)
    } else {
        final_score_spec(p, o)
    }
}

/// The move loop of the pruned exact search, from cell `i` on.
pub open spec fn ab_exact_moves(p: u64, o: u64, alpha: int, beta: int, i: int) -> int
    decreases empty_cells(p, o), 0nat, 0nat, 64 - i,
    via ab_exact_moves_decreases
{
    if i < 0 || i >= 64 {
        alpha
    } else if (moves_scan(p, o) >> (i as u64)) & 1 == 1 {
        let s = -ab_exact(
            child_player(p, o, i as u64),
            child_opponent(p, o, i as u64),
            -beta,
            -alpha,
        );
        let raised = max_score(alpha, s);
        if raised >= beta {
            raised
        } else {
            ab_exact_moves(p, o, raised, beta, i + 1)
        }
    } else {
        ab_exact_moves(p, o, alpha, beta, i + 1)
    }
}

#[via_fn]
proof fn ab_exact_decreases(p: u64, o: u64, alpha: int, beta: int) {
    lemma_swap_empty_cells(p, o);
}

#[via_fn]
proof fn ab_exact_moves_decreases(p: u64, o: u64, alpha: int, beta: int, i: int) {
    if 0 <= i < 64 {
        let iu = i as u64;
        if (moves_scan(p, o) >> iu) & 1 == 1 {
            lemma_child_empty_cells(p, o, iu);
        }
    }
}

/// A forced pass in the pruned depth-bounded search returns exactly the
/// negation of the recursive call on the passed position, with the window
/// swapped and negated and the depth kept.
pub proof fn lemma_ab_depth_pass(p: u64, o: u64, depth: int, alpha: int, beta: int)
    requires
        depth != 0,
        moves_scan(p, o) == 0,
        moves_scan(o, p) != 0,
    ensures
        ab_depth(p, o, depth, alpha, beta) == -ab_depth(o, p, depth, -beta, -alpha),
{
}

/// A forced pass in the pruned exact search returns exactly the negation
/// of the recursive call on the passed position.
pub proof fn lemma_ab_exact_pass(p: u64, o: u64, alpha: int, beta: int)
    requires
        moves_scan(p, o) == 0,
        moves_scan(o, p) != 0,
    ensures
        ab_exact(p, o, alpha, beta) == -ab_exact(o, p, -beta, -alpha),
{
}

/// A non-empty bitset has a set bit on the board.
proof fn lemma_exists_move_bit(x: u64)
    requires
        x != 0,
    ensures
        exists|j: int| 0 <= j < 64 && #[trigger] ((x >> (j as u64)) & 1) == 1,
{
    vstd::std_specs::bits::axiom_u64_trailing_zeros(x);
    let t = vstd::std_specs::bits::u64_trailing_zeros(x) as int;
    assert(0 <= t < 64 && ((x >> (t as u64)) & 1) == 1);
}

/// The exact negamax value always lies in the zero-sum score range.
pub proof fn lemma_negamax_exact_bounds(p: u64, o: u64)
    ensures
        -64 <= negamax_exact(p, o) <= 64,
    decreases empty_cells(p, o), pass_rank(p, o), 1nat, 0int,
{
    if moves_scan(p, o) != 0 {
        lemma_exists_move_bit(moves_scan(p, o));
        lemma_best_exact_bounds(p, o, 0);
    } else if moves_scan(o, p) != 0 {
        lemma_swap_empty_cells(p, o);
        lemma_negamax_exact_bounds(o, p);
    } else {
        lemma_popcount_le_64(p);
        lemma_popcount_le_64(o);
    }
}

/// The running maximum of exact child values stays at most 64, and reaches
/// at least -64 as soon as one legal move remains.
proof fn lemma_best_exact_bounds(p: u64, o: u64, i: int)
    requires
        0 <= i <= 64,
    ensures
        best_exact(p, o, i) <= 64,
        (exists|j: int| i <= j < 64 && #[trigger] ((moves_scan(p, o) >> (j as u64)) & 1) == 1) ==> best_exact(
            p,
            o,
            i,
        ) >= -64,
    decreases empty_cells(p, o), 0nat, 0nat, 64 - i,
{
    if i < 64 {
        lemma_best_exact_bounds(p, o, i + 1);
        let iu = i as u64;
        if (moves_scan(p, o) >> iu) & 1 == 1 {
            lemma_child_empty_cells(p, o, iu);
            lemma_negamax_exact_bounds(child_player(p, o, iu), child_opponent(p, o, iu));
        } else {
            if exists|j: int| i <= j < 64 && #[trigger] ((moves_scan(p, o) >> (j as u64)) & 1) == 1 {
                let j = choose|j: int| i <= j < 64 && #[trigger] ((moves_scan(p, o) >> (j as u64)) & 1) == 1;
                assert(i + 1 <= j < 64 && ((moves_scan(p, o) >> (j as u64)) & 1) == 1);
            }
        }
    }
}

/// The running maximum never sinks below its sentinel seed.
proof fn lemma_best_exact_at_least_sentinel(p: u64, o: u64, i: int)
    ensures
        best_exact(p, o, i) >= NO_SCORE as int,
    decreases 64 - i,
{
    if 0 <= i < 64 {
        lemma_best_exact_at_least_sentinel(p, o, i + 1);
    }
}

/// The best exact child value over the legal moves at cells below `i`,
/// folded in the same running-maximum shape as [`best_exact`].
pub open spec fn best_exact_below(p: u64, o: u64, i: int) -> int
    decreases i,
{
    if i <= 0 {
        NO_SCORE as int
    } else {
        let prev = best_exact_below(p, o, i - 1);
        if (moves_scan(p, o) >> ((i - 1) as u64)) & 1 == 1 && i <= 64 {
            max_score(
                -negamax_exact(child_player(p, o, (i - 1) as u64), child_opponent(p, o, (i - 1) as u64)),
                prev,
            )
        } else {
            prev
        }
    }
}

/// Splitting the running maximum at any cell: the moves below it and the
/// moves at or above it together give the full maximum.
proof fn lemma_best_exact_split(p: u64, o: u64, i: int)
    requires
        0 <= i <= 64,
    ensures
        best_exact(p, o, 0) == max_score(best_exact_below(p, o, i), best_exact(p, o, i)),
    decreases i,
{
    if i == 0 {
        lemma_best_exact_at_least_sentinel(p, o, 0);
    } else {
        lemma_best_exact_split(p, o, i - 1);
    }
}

/// The best depth-bounded child value over the legal moves at cells below
/// `i`, folded in the same running-maximum shape as [`best_depth`].
pub open spec fn best_depth_below(p: u64, o: u64, depth: int, i: int) -> int
    decreases i,
{
    if i <= 0 {
        NO_SCORE as int
    } else {
        let prev = best_depth_below(p, o, depth, i - 1);
        if (moves_scan(p, o) >> ((i - 1) as u64)) & 1 == 1 && i <= 64 {
            max_score(
                -negamax_depth(
                    child_player(p, o, (i - 1) as u64),
                    child_opponent(p, o, (i - 1) as u64),
                    depth - 1,
                ),
                prev,
            )
        } else {
            prev
        }
    }
}

/// See [`lemma_best_exact_at_least_sentinel`].
proof fn lemma_best_depth_at_least_sentinel(p: u64, o: u64, depth: int, i: int)
    ensures
        best_depth(p, o, depth, i) >= NO_SCORE as int,
    decreases 64 - i,
{
    if 0 <= i < 64 {
        lemma_best_depth_at_least_sentinel(p, o, depth, i + 1);
    }
}

/// See [`lemma_best_exact_split`].
proof fn lemma_best_depth_split(p: u64, o: u64, depth: int, i: int)
    requires
        0 <= i <= 64,
    ensures
        best_depth(p, o, depth, 0) == max_score(
            best_depth_below(p, o, depth, i),
            best_depth(p, o, depth, i),
        ),
    decreases i,
{
    if i == 0 {
        lemma_best_depth_at_least_sentinel(p, o, depth, 0);
    } else {
        lemma_best_depth_split(p, o, depth, i - 1);
    }
}

/// Swapping the sides negates the heuristic: both the corner and the
/// mobility terms change sign, and so does the terminal score.
pub proof fn lemma_heuristic_negates_on_swap(p: u64, o: u64)
    ensures
        heuristic_spec(o, p) == -heuristic_spec(p, o),
{
    lemma_final_score_negates_on_swap(p, o);
}

/// A forced pass negates the exact search value: passing costs nothing but
/// the sign of the perspective.
pub proof fn lemma_exact_pass_negation(p: u64, o: u64)
    requires
        moves_scan(p, o) == 0,
    ensures
        negamax_exact(p, o) == -negamax_exact(o, p),
{
    if moves_scan(o, p) == 0 {
        lemma_final_score_negates_on_swap(p, o);
    }
}

/// Evaluates Othello positions: a negamax search with alpha-beta pruning
/// and a visited-node counter for throughput reporting.
pub struct Bot {
    /// Number of search calls made so far; wraps around on overflow.
    pub nodes: u64,
}

impl Bot {
    /// A fresh engine with an empty node counter.
    pub fn new() -> (r: Self)
        ensures
            r.nodes == 0,
    {
        Self { nodes: 0 }
    }

    /// The number of search calls made so far.
    pub fn node_count(&self) -> (r: u64)
        ensures
            r == self.nodes,
    {
        self.nodes
    }

    /// The static cutoff score of a position.
    fn heuristic(&self, pos: &Position) -> (r: i32)
        requires
            pos.wf(),
        ensures
            r == heuristic_spec(pos.player, pos.opponent),
            -256 <= r <= 256,
    {
        proof {
            lemma_popcount_le_64(pos.player);
            lemma_popcount_le_64(pos.opponent);
            lemma_popcount_le_64(moves_scan(pos.player, pos.opponent));
            lemma_popcount_le_64(moves_scan(pos.opponent, pos.player));
            lemma_popcount_le_64(pos.player & CORNER_MASK);
            lemma_popcount_le_64(pos.opponent & CORNER_MASK);
        }
        let moves_mask = pos.get_moves();
        let opponent_mask = pos.get_opponent_moves();
        if moves_mask == 0 && opponent_mask == 0 {
            return pos.final_score();
        }
        let moves = count_bits(moves_mask) as i32;
        let opponent_moves = count_bits(opponent_mask) as i32;
        let player_corners = count_bits(pos.player() & CORNER_MASK) as i32;
        let opponent_corners = count_bits(pos.opponent() & CORNER_MASK) as i32;
        (3 * (player_corners - opponent_corners)) + (moves - opponent_moves)
    }

    /// The depth-bounded pruned search. The result is exactly `ab_depth`,
    /// the pruned search value as a function of the position, the depth and
    /// the window, so it depends on nothing else; at depth 0 it is the
    /// heuristic, and at a true end of the game the terminal score,
    /// whatever the window. It relates to the full-width value
    /// `negamax_depth` in the classic alpha-beta way: inside the window it
    /// is that value; at or below `alpha` it bounds the value from above;
    /// at or above `beta` it bounds it from below. Every call raises the
    /// node counter, which saturates at its maximum.
    pub fn alpha_beta(&mut self, pos: &Position, depth: i32, alpha: i32, beta: i32) -> (r: i32)
        requires
            pos.wf(),
            0 <= depth,
            -64 <= alpha < beta <= 64,
        ensures
            -256 <= r <= 256,
            r == ab_depth(pos.player, pos.opponent, depth as int, alpha as int, beta as int),
            depth == 0 ==> r == heuristic_spec(pos.player, pos.opponent),
            depth != 0 && moves_scan(pos.player, pos.opponent) == 0 && moves_scan(
                pos.opponent,
                pos.player,
            ) == 0 ==> r == final_score_spec(pos.player, pos.opponent),
            r <= alpha ==> negamax_depth(pos.player, pos.opponent, depth as int) <= r,
            r >= beta ==> negamax_depth(pos.player, pos.opponent, depth as int) >= r,
            alpha < r < beta ==> negamax_depth(pos.player, pos.opponent, depth as int) == r,
            final(self).nodes >= old(self).nodes,
            old(self).nodes < u64::MAX ==> final(self).nodes > old(self).nodes,
        decreases empty_cells(pos.player, pos.opponent), pass_rank(pos.player, pos.opponent),
    {
        if self.nodes < u64::MAX {
            self.nodes = self.nodes + 1;
        }
        let ghost p = pos.player;
        let ghost o = pos.opponent;
        if depth == 0 {
            return self.heuristic(pos);
        }
        let moves = pos.get_moves();
        if moves == 0 {
            let passed = pos.pass();
            if !passed.has_moves() {
                proof {
                    lemma_popcount_le_64(p);
                    lemma_popcount_le_64(o);
                }
                return pos.final_score();
            }
            proof {
                lemma_swap_empty_cells(p, o);
            }
            let s = self.alpha_beta(&passed, depth, -beta, -alpha);
            return -s;
        }
        let mut cur_alpha = alpha;
        let mut cut = false;
        let mut i: usize = 0;
        let ghost d = depth as int;
        while i < 64
            invariant
                pos.wf(),
                p == pos.player,
                o == pos.opponent,
                d == depth as int,
                1 <= depth,
                -64 <= alpha < beta <= 64,
                moves == moves_scan(p, o),
                moves != 0,
                i <= 64,
                alpha <= cur_alpha,
                -64 <= cur_alpha <= 256,
                !cut ==> cur_alpha < beta,
                !cut ==> best_depth_below(p, o, d, i as int) <= cur_alpha,
                !cut ==> cur_alpha <= max_score(alpha as int, best_depth_below(p, o, d, i as int)),
                cut ==> beta <= cur_alpha,
                cut ==> cur_alpha <= best_depth_below(p, o, d, i as int),
                !cut ==> ab_depth_moves(p, o, d, alpha as int, beta as int, 0) == ab_depth_moves(
                    p,
                    o,
                    d,
                    cur_alpha as int,
                    beta as int,
                    i as int,
                ),
                cut ==> ab_depth_moves(p, o, d, alpha as int, beta as int, 0) == cur_alpha,
                self.nodes >= old(self).nodes,
                old(self).nodes < u64::MAX ==> self.nodes > old(self).nodes,
            decreases 64 - i,
        {
            let iu = i as u64;
            if !cut && (moves >> iu) & 1 == 1 {
                proof {
                    lemma_child_empty_cells(p, o, iu);
                }
                let child = pos.do_move(i);
                let s = self.alpha_beta(&child, depth - 1, -beta, -cur_alpha);
                let score = -s;
                let ghost old_alpha = cur_alpha;
                if score > cur_alpha {
                    cur_alpha = score;
                }
                if cur_alpha >= beta {
                    cut = true;
                }
                proof {
                    let vc = negamax_depth(child_player(p, o, iu), child_opponent(p, o, iu), d - 1);
                    let si = -vc;
                    assert(best_depth_below(p, o, d, i + 1) == max_score(
                        si,
                        best_depth_below(p, o, d, i as int),
                    ));
                    if score <= old_alpha {
                        assert(vc >= s);
                    } else if score >= beta {
                        assert(vc <= s);
                    } else {
                        assert(vc == s);
                    }
                }
            } else {
                proof {
                    assert(best_depth_below(p, o, d, i + 1) >= best_depth_below(p, o, d, i as int));
                }
            }
            i = i + 1;
        }
        proof {
            lemma_best_depth_split(p, o, d, 64);
            assert(negamax_depth(p, o, d) == best_depth(p, o, d, 0));
        }
        cur_alpha
    }

    /// The exact pruned search: no depth cutoff, always down to a true
    /// terminal. The result is exactly `ab_exact`, the pruned search value
    /// as a function of the position and the window, so it depends on
    /// nothing else; at a true end of the game it is the terminal score,
    /// whatever the window. It relates to `negamax_exact` in the classic
    /// alpha-beta way, and stays within the zero-sum score range. Every
    /// call raises the node counter, which saturates at its maximum.
    pub fn alpha_beta_exact(&mut self, pos: &Position, alpha: i32, beta: i32) -> (r: i32)
        requires
            pos.wf(),
            -64 <= alpha < beta <= 64,
        ensures
            -64 <= r <= 64,
            r == ab_exact(pos.player, pos.opponent, alpha as int, beta as int),
            moves_scan(pos.player, pos.opponent) == 0 && moves_scan(pos.opponent, pos.player)
                == 0 ==> r == final_score_spec(pos.player, pos.opponent),
            r <= alpha ==> negamax_exact(pos.player, pos.opponent) <= r,
            r >= beta ==> negamax_exact(pos.player, pos.opponent) >= r,
            alpha < r < beta ==> negamax_exact(pos.player, pos.opponent) == r,
            final(self).nodes >= old(self).nodes,
            old(self).nodes < u64::MAX ==> final(self).nodes > old(self).nodes,
        decreases empty_cells(pos.player, pos.opponent), pass_rank(pos.player, pos.opponent),
    {
        if self.nodes < u64::MAX {
            self.nodes = self.nodes + 1;
        }
        let ghost p = pos.player;
        let ghost o = pos.opponent;
        let moves = pos.get_moves();
        if moves == 0 {
            let passed = pos.pass();
            if !passed.has_moves() {
                proof {
                    lemma_popcount_le_64(p);
                    lemma_popcount_le_64(o);
                }
                return pos.final_score();
            }
            proof {
                lemma_swap_empty_cells(p, o);
            }
            let s = self.alpha_beta_exact(&passed, -beta, -alpha);
            return -s;
        }
        let mut cur_alpha = alpha;
        let mut cut = false;
        let mut i: usize = 0;
        while i < 64
            invariant
                pos.wf(),
                p == pos.player,
                o == pos.opponent,
                -64 <= alpha < beta <= 64,
                moves == moves_scan(p, o),
                moves != 0,
                i <= 64,
                alpha <= cur_alpha,
                -64 <= cur_alpha <= 64,
                !cut ==> cur_alpha < beta,
                !cut ==> best_exact_below(p, o, i as int) <= cur_alpha,
                !cut ==> cur_alpha <= max_score(alpha as int, best_exact_below(p, o, i as int)),
                cut ==> beta <= cur_alpha,
                cut ==> cur_alpha <= best_exact_below(p, o, i as int),
                !cut ==> ab_exact_moves(p, o, alpha as int, beta as int, 0) == ab_exact_moves(
                    p,
                    o,
                    cur_alpha as int,
                    beta as int,
                    i as int,
                ),
                cut ==> ab_exact_moves(p, o, alpha as int, beta as int, 0) == cur_alpha,
                self.nodes >= old(self).nodes,
                old(self).nodes < u64::MAX ==> self.nodes > old(self).nodes,
            decreases 64 - i,
        {
            let iu = i as u64;
            if !cut && (moves >> iu) & 1 == 1 {
                proof {
                    lemma_child_empty_cells(p, o, iu);
                }
                let child = pos.do_move(i);
                let s = self.alpha_beta_exact(&child, -beta, -cur_alpha);
                let score = -s;
                let ghost old_alpha = cur_alpha;
                if score > cur_alpha {
                    cur_alpha = score;
                }
                if cur_alpha >= beta {
                    cut = true;
                }
                proof {
                    let vc = negamax_exact(child_player(p, o, iu), child_opponent(p, o, iu));
                    let si = -vc;
                    assert(best_exact_below(p, o, i + 1) == max_score(
                        si,
                        best_exact_below(p, o, i as int),
                    ));
                    if score <= old_alpha {
                        assert(vc >= s);
                    } else if score >= beta {
                        assert(vc <= s);
                    } else {
                        assert(vc == s);
                    }
                }
            } else {
                proof {
                    assert(best_exact_below(p, o, i + 1) >= best_exact_below(p, o, i as int));
                }
            }
            i = i + 1;
        }
        proof {
            lemma_best_exact_split(p, o, 64);
            assert(negamax_exact(p, o) == best_exact(p, o, 0));
        }
        cur_alpha
    }
}

/// A forced pass negates the depth-bounded search value at every depth.
pub proof fn lemma_depth_pass_negation(p: u64, o: u64, depth: int)
    requires
        moves_scan(p, o) == 0,
    ensures
        negamax_depth(p, o, depth) == -negamax_depth(o, p, depth),
{
    if depth == 0 {
        lemma_heuristic_negates_on_swap(p, o);
    } else if moves_scan(o, p) == 0 {
        lemma_final_score_negates_on_swap(p, o);
    }
}

} // verus!
