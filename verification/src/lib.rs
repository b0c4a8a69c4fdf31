//! A verified Othello (Reversi) position evaluator.
//!
//! Positions are pairs of 64-bit occupancy masks (the side to move and its
//! opponent). The crate computes legal moves with a bit-parallel algorithm
//! proved equal to a naive per-direction reference scan, applies moves and
//! forced passes, and scores positions with a negamax search with
//! alpha-beta pruning proved to return the full-width negamax value.

pub mod bits;
pub mod bot;
pub mod get_flipped;
pub mod get_moves;
pub mod position;

use vstd::prelude::*;

use crate::bot::{ab_depth, lemma_negamax_exact_bounds, negamax_depth, negamax_exact, Bot};
use crate::position::{all_hex, hex_value, lemma_hex_value_bound, pow16, Position};

verus! {

/// The string is a well-formed position encoding: exactly 32 characters,
/// each half made of hexadecimal digits.
pub open spec fn decode_ok(s: Seq<char>) -> bool {
    s.len() == 32 && all_hex(s.subrange(0, 16)) && all_hex(s.subrange(16, 32))
}

/// The mover bitboard encoded by the first 16 characters.
pub open spec fn decoded_player(s: Seq<char>) -> u64 {
    hex_value(s.subrange(0, 16)) as u64
}

/// The opponent bitboard encoded by the last 16 characters.
pub open spec fn decoded_opponent(s: Seq<char>) -> u64 {
    hex_value(s.subrange(16, 32)) as u64
}

/// A decoded half-string value fits in 64 bits, so the cast in
/// [`decoded_player`] and [`decoded_opponent`] loses nothing.
proof fn lemma_decoded_value_fits(h: Seq<char>)
    requires
        h.len() == 16,
    ensures
        hex_value(h) < 0x10000000000000000,
{
    lemma_hex_value_bound(h);
    reveal_with_fuel(pow16, 17);
    assert(pow16(16) == 0x10000000000000000);
}

/// Evaluates an encoded position with the depth-bounded search over the
/// full score window. A string that does not decode, or that encodes
/// overlapping bitboards, scores 0. Otherwise the result is exactly the
/// pruned search value `ab_depth` of the decoded position, and relates to
/// the full-width negamax value `v` at that depth in the alpha-beta way:
/// it equals `v` strictly inside the `[-64, 64]` window and bounds `v` at
/// either edge.
pub fn evaluate_position(position_string: &str, depth: i32) -> (r: i32)
    requires
        0 <= depth,
    ensures
        !decode_ok(position_string@) ==> r == 0,
        decode_ok(position_string@) && decoded_player(position_string@) & decoded_opponent(
            position_string@,
        ) != 0 ==> r == 0,
        decode_ok(position_string@) && decoded_player(position_string@) & decoded_opponent(
            position_string@,
        ) == 0 ==> ({
            let v = negamax_depth(
                decoded_player(position_string@),
                decoded_opponent(position_string@),
                depth as int,
            );
            &&& -256 <= r <= 256
            &&& r == ab_depth(
                decoded_player(position_string@),
                decoded_opponent(position_string@),
                depth as int,
                -64,
                64,
            )
            &&& (r <= -64 ==> v <= r)
            &&& (r >= 64 ==> v >= r)
            &&& (-64 < r < 64 ==> v == r)
        }),
{
    let position = match Position::from_string(position_string) {
        Ok(pos) => pos,
        Err(_) => {
            return 0;
        },
    };
    proof {
        lemma_decoded_value_fits(position_string@.subrange(0, 16));
        lemma_decoded_value_fits(position_string@.subrange(16, 32));
    }
    if position.player() & position.opponent() != 0 {
        return 0;
    }
    let mut bot = Bot::new();
    bot.alpha_beta(&position, depth, -64, 64)
}

/// Evaluates an encoded position with the exact search: the result is the
/// full-width negamax value of the game played out to the end, a score in
/// `[-64, 64]`. A string that does not decode, or that encodes overlapping
/// bitboards, scores 0.
pub fn evaluate_position_exact(position_string: &str) -> (r: i32)
    ensures
        !decode_ok(position_string@) ==> r == 0,
        decode_ok(position_string@) && decoded_player(position_string@) & decoded_opponent(
            position_string@,
        ) != 0 ==> r == 0,
        decode_ok(position_string@) && decoded_player(position_string@) & decoded_opponent(
            position_string@,
        ) == 0 ==> r == negamax_exact(
            decoded_player(position_string@),
            decoded_opponent(position_string@),
        ) && -64 <= r <= 64,
{
    let position = match Position::from_string(position_string) {
        Ok(pos) => pos,
        Err(_) => {
            return 0;
        },
    };
    proof {
        lemma_decoded_value_fits(position_string@.subrange(0, 16));
        lemma_decoded_value_fits(position_string@.subrange(16, 32));
    }
    if position.player() & position.opponent() != 0 {
        return 0;
    }
    let mut bot = Bot::new();
    let r = bot.alpha_beta_exact(&position, -64, 64);
    proof {
        lemma_negamax_exact_bounds(position.player, position.opponent);
    }
    r
}

} // verus!
