//! Scenario and property tests for the position type, the decoder and the
//! search entry points.

use othello_engine::bits::count_bits;
use othello_engine::bot::Bot;
use othello_engine::evaluate_position;
use othello_engine::evaluate_position_exact;
use othello_engine::position::DecodeError;
use othello_engine::position::MoveIndices;
use othello_engine::position::Position;

#[test]
fn count_bits_counts_every_cell() {
    assert_eq!(count_bits(0), 0);
    assert_eq!(count_bits(u64::MAX), 64);
    assert_eq!(count_bits(0x8100000000000081), 4);
    assert_eq!(count_bits(1 << 63), 1);
}

#[test]
fn terminal_score_one_sided() {
    // Scenario: the mover occupies all 64 cells, the opponent none.
    let p = Position::new_from_bitboards(u64::MAX, 0);
    assert_eq!(p.final_score(), 64);
}

#[test]
fn terminal_score_tie() {
    // Scenario: each side holds 32 cells of a full board; nobody can move.
    let p = Position::new_from_bitboards(0x00000000ffffffff, 0xffffffff00000000);
    assert_eq!(p.get_moves(), 0);
    assert_eq!(p.get_opponent_moves(), 0);
    assert_eq!(p.final_score(), 0);
}

#[test]
fn terminal_score_negates_on_pass() {
    let p = Position::new_from_bitboards(u64::MAX, 0);
    assert_eq!(p.pass().final_score(), -p.final_score());
    let tie = Position::new_from_bitboards(0x00000000ffffffff, 0xffffffff00000000);
    assert_eq!(tie.pass().final_score(), -tie.final_score());
    let some = Position::new_from_bitboards(0x0000000810000000, 0x0000001008000000);
    assert_eq!(some.pass().final_score(), -some.final_score());
}

#[test]
fn opening_position_moves() {
    // Scenario: the conventional starting layout; mover discs on cells 28
    // and 35, opponent discs on cells 27 and 36.
    let p = Position::new_from_bitboards((1 << 28) | (1 << 35), (1 << 27) | (1 << 36));
    let expected: u64 = (1 << 19) | (1 << 26) | (1 << 37) | (1 << 44);
    assert_eq!(p.get_moves(), expected);
    assert!(p.has_moves());
    assert_eq!(p.iter_move_indices().to_indices(), vec![19, 26, 37, 44]);
    assert!(!p.iter_move_indices().is_empty());
    assert!(MoveIndices::new(0).is_empty());
}

#[test]
fn do_move_flips_and_stays_disjoint() {
    let p = Position::new_from_bitboards((1 << 28) | (1 << 35), (1 << 27) | (1 << 36));
    let child = p.do_move(19);
    // The disc on cell 27 is captured: the new mover keeps only cell 36.
    assert_eq!(child.player(), 1 << 36);
    assert_eq!(
        child.opponent(),
        (1 << 28) | (1 << 35) | (1 << 27) | (1 << 19)
    );
    assert_eq!(child.player() & child.opponent(), 0);
}

#[test]
fn decode_valid_string() {
    let p = Position::from_string("00000008100000000000001008000000").unwrap();
    assert_eq!(p.player(), 0x0000000810000000);
    assert_eq!(p.opponent(), 0x0000001008000000);
    let q = Position::from_string("00000000DEADBEEFcafebabe00000000").unwrap();
    assert_eq!(q.player(), 0x00000000deadbeef);
    assert_eq!(q.opponent(), 0xcafebabe00000000);
}

#[test]
fn decode_wrong_length() {
    // 31 characters.
    let r = Position::from_string("0000000000000000000000000000000");
    assert_eq!(r.unwrap_err(), DecodeError::WrongLength { length: 31 });
    // 33 characters.
    let r = Position::from_string("000000000000000000000000000000000");
    assert_eq!(r.unwrap_err(), DecodeError::WrongLength { length: 33 });
    assert_eq!(
        evaluate_position("0000000000000000000000000000000", 3),
        0
    );
    assert_eq!(
        evaluate_position_exact("000000000000000000000000000000000"),
        0
    );
}

#[test]
fn decode_invalid_hex() {
    // A non-hex character in the mover half.
    let r = Position::from_string("000000000000000g0000000000000000");
    assert_eq!(r.unwrap_err(), DecodeError::InvalidPlayerHex);
    // A non-hex character in the opponent half.
    let r = Position::from_string("0000000000000000000000000000000z");
    assert_eq!(r.unwrap_err(), DecodeError::InvalidOpponentHex);
    assert_eq!(evaluate_position("000000000000000g0000000000000000", 3), 0);
    assert_eq!(
        evaluate_position_exact("0000000000000000000000000000000z"),
        0
    );
}

#[test]
fn evaluate_terminal_positions() {
    // A full one-sided board: the exact and the bounded search both see the
    // terminal score.
    let full = "ffffffffffffffff0000000000000000";
    assert_eq!(evaluate_position_exact(full), 64);
    assert_eq!(evaluate_position(full, 5), 64);
    let tie = "00000000ffffffffffffffff00000000";
    assert_eq!(evaluate_position_exact(tie), 0);
    assert_eq!(evaluate_position(tie, 5), 0);
}

#[test]
fn evaluate_opening_heuristic() {
    // The opening is symmetric: no corners, equal mobility.
    let opening = "00000008100000000000001008000000";
    assert_eq!(evaluate_position(opening, 0), 0);
    assert_eq!(evaluate_position(opening, 1), 0);
}

#[test]
fn forced_pass_negates_search() {
    // Scenario: the mover (cell 1) has no legal move, the opponent (cell 0)
    // has one, so the turn passes.
    let p = Position::new_from_bitboards(1 << 1, 1 << 0);
    assert_eq!(p.get_moves(), 0);
    assert_ne!(p.get_opponent_moves(), 0);
    let passed = p.pass();
    assert!(passed.has_moves());

    let here = "00000000000000020000000000000001";
    let there = "00000000000000010000000000000002";
    assert_eq!(
        evaluate_position_exact(here),
        -evaluate_position_exact(there)
    );
    for depth in 0..4 {
        assert_eq!(
            evaluate_position(here, depth),
            -evaluate_position(there, depth)
        );
    }
}

#[test]
fn search_counts_nodes() {
    let p = Position::new_from_bitboards((1 << 28) | (1 << 35), (1 << 27) | (1 << 36));
    let mut bot = Bot::new();
    assert_eq!(bot.node_count(), 0);
    let score = bot.alpha_beta(&p, 2, -64, 64);
    assert!((-256..=256).contains(&score));
    assert!(bot.node_count() > 0);
}

#[test]
fn ascii_art_draws_the_board() {
    let p = Position::new_from_bitboards((1 << 28) | (1 << 35), (1 << 27) | (1 << 36));
    let art = p.ascii_art(true);
    assert!(art.starts_with("+-A-B-C-D-E-F-G-H-+\n"));
    assert!(art.ends_with("+-A-B-C-D-E-F-G-H-+\n"));
    assert_eq!(art.lines().count(), 10);
    assert!(art.contains("(0x0000000810000000, 0x0000001008000000)"));
    assert!(art.contains("->"));
    assert!(art.contains("moves"));
}

#[test]
fn no_opponent_discs_means_no_moves() {
    let p = Position::new_from_bitboards((1 << 28) | (1 << 35), 0);
    assert_eq!(p.get_moves(), 0);
    assert!(!p.has_moves());
}

#[test]
fn overlapping_encoding_scores_zero() {
    // Both halves set the same cell: the occupancy invariant is violated,
    // so the evaluation refuses the position.
    let s = "00000000000000010000000000000001";
    assert_eq!(evaluate_position(s, 3), 0);
    assert_eq!(evaluate_position_exact(s), 0);
}
