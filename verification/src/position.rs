//! The board position: two occupancy bitboards and their transitions.
//!
//! `player` holds the discs of the side to move, `opponent` the discs of the
//! other side; the roles swap on every ply. A position is well formed when
//! the two sides do not overlap; every position reachable by legal play is.

use vstd::prelude::*;
use vstd::string::{StrSliceExecFns, StringExecFns};

use crate::bits::{lemma_popcount_le_64, lemma_popcount_set_bit, popcount};
use crate::get_flipped::{flipped_discs, get_flipped, lemma_flipped_subset_opponent};
use crate::get_moves::{get_moves, lemma_scan_only_empty, moves_scan};

verus! {

/// An Othello position as two bitboards, copied rather than mutated.
#[derive(Clone, Copy, Debug)]
pub struct Position {
    /// Discs of the side to move.
    pub player: u64,
    /// Discs of the side that just moved.
    pub opponent: u64,
}

/// Why a position string was rejected.
#[derive(Clone, Copy, PartialEq, Eq, Structural, Debug)]
pub enum DecodeError {
    /// The string does not hold exactly 32 characters.
    WrongLength { length: usize },
    /// A character of the first half is not a hexadecimal digit.
    InvalidPlayerHex,
    /// A character of the second half is not a hexadecimal digit.
    InvalidOpponentHex,
}

/// Cell `i` is a legal move for the side holding `p` against `o`.
pub open spec fn is_legal(p: u64, o: u64, i: int) -> bool {
    0 <= i < 64 && (moves_scan(p, o) >> (i as u64)) & 1 == 1
}

/// The score of a finished game from the mover's point of view: the winner
/// is credited with every unclaimed cell, so the score is the disc
/// difference after giving all empty cells to the winner; a tie scores 0.
pub open spec fn final_score_spec(p: u64, o: u64) -> int {
    let m = popcount(p) as int;
    let n = popcount(o) as int;
    if m > n {
        64 - 2 * n
    } else if m < n {
        -64 + 2 * m
    } else {
        0
    }
}

/// Swapping the two sides negates the terminal score exactly.
pub proof fn lemma_final_score_negates_on_swap(p: u64, o: u64)
    ensures
        final_score_spec(o, p) == -final_score_spec(p, o),
{
}

/// `c` is an ASCII hexadecimal digit.
pub open spec fn is_hex_digit(c: char) -> bool {
    (48 <= c as u32 && c as u32 <= 57) || (97 <= c as u32 && c as u32 <= 102) || (65 <= c as u32
        && c as u32 <= 70)
}

/// The numeric value of a hexadecimal digit.
pub open spec fn hex_digit_value(c: char) -> nat {
    if 48 <= c as u32 && c as u32 <= 57 {
        (c as u32 - 48) as nat
    } else if 97 <= c as u32 && c as u32 <= 102 {
        (c as u32 - 87) as nat
    } else if 65 <= c as u32 && c as u32 <= 70 {
        (c as u32 - 55) as nat
    } else {
        0
    }
}

/// Every character of `s` is a hexadecimal digit.
pub open spec fn all_hex(s: Seq<char>) -> bool {
    forall|j: int| 0 <= j < s.len() ==> is_hex_digit(#[trigger] s[j])
}

/// The big-endian value of a sequence of hexadecimal digits.
pub open spec fn hex_value(s: Seq<char>) -> nat
    decreases s.len(),
{
    if s.len() == 0 {
        0
    } else {
        16 * hex_value(s.drop_last()) + hex_digit_value(s.last())
    }
}

/// 16 to the n-th power: the number of digit strings of length `n`.
pub open spec fn pow16(n: nat) -> nat
    decreases n,
{
    if n == 0 {
        1nat
    } else {
        16 * pow16((n - 1) as nat)
    }
}

/// A digit string of length `n` encodes a value below `16^n`.
pub proof fn lemma_hex_value_bound(s: Seq<char>)
    ensures
        hex_value(s) < pow16(s.len()),
    decreases s.len(),
{
    if s.len() > 0 {
        lemma_hex_value_bound(s.drop_last());
        assert(hex_digit_value(s.last()) <= 15);
    }
}

/// Parses the 16 characters of `s` starting at `start` as a big-endian
/// hexadecimal number, or reports that one of them is not a digit.
fn parse_hex16(s: &str, start: usize) -> (r: Option<u64>)
    requires
        start <= 16,
        start + 16 <= s@.len(),
    ensures
        match r {
            Some(v) => all_hex(s@.subrange(start as int, start + 16)) && v == hex_value(
                s@.subrange(start as int, start + 16),
            ),
            None => !all_hex(s@.subrange(start as int, start + 16)),
        },
{
    let mut v: u64 = 0;
    let mut j: usize = 0;
    while j < 16
        invariant
            j <= 16,
            start <= 16,
            start + 16 <= s@.len(),
            all_hex(s@.subrange(start as int, start + j)),
            v == hex_value(s@.subrange(start as int, start + j)),
        decreases 16 - j,
    {
        let c = s.get_char(start + j);
        let u = c as u32;
        let d: u32 = if 48 <= u && u <= 57 {
            u - 48
        } else if 97 <= u && u <= 102 {
            u - 87
        } else if 65 <= u && u <= 70 {
            u - 55
        } else {
            proof {
                assert(!is_hex_digit(s@.subrange(start as int, start + 16)[j as int]));
            }
            return None;
        };
        proof {
            let prefix = s@.subrange(start as int, start + j);
            let next = s@.subrange(start as int, start + j + 1);
            assert(next.drop_last() =~= prefix);
            assert(next.last() == s@[start + j]);
            lemma_hex_value_bound(prefix);
            reveal_with_fuel(pow16, 17);
            assert(pow16(16) == 0x10000000000000000);
            lemma_pow16_increases(prefix.len(), 15);
        }
        v = v * 16 + d as u64;
        j = j + 1;
    }
    Some(v)
}

/// `16^a <= 16^b` whenever `a <= b`.
proof fn lemma_pow16_increases(a: nat, b: nat)
    requires
        a <= b,
    ensures
        pow16(a) <= pow16(b),
    decreases b,
{
    if a < b && b > 0 {
        lemma_pow16_increases(a, (b - 1) as nat);
    }
}

impl Position {
    /// The two sides never occupy the same cell.
    pub open spec fn wf(self) -> bool {
        self.player & self.opponent == 0
    }

    /// Creates a position from the two bitboards, which must not overlap.
    pub fn new_from_bitboards(player: u64, opponent: u64) -> (r: Self)
        requires
            player & opponent == 0,
        ensures
            r.player == player,
            r.opponent == opponent,
            r.wf(),
    {
        Self { player, opponent }
    }

    /// Decodes a position from a 32-character hexadecimal string: the first
    /// 16 characters are the mover's bitboard, big endian, the next 16 the
    /// opponent's. Returns an error exactly on a wrong length or on a
    /// non-hexadecimal character, naming the offending half.
    pub fn from_string(s: &str) -> (r: Result<Self, DecodeError>)
        ensures
            match r {
                Ok(p) => s@.len() == 32 && all_hex(s@.subrange(0, 16)) && all_hex(
                    s@.subrange(16, 32),
                ) && p.player == hex_value(s@.subrange(0, 16)) && p.opponent == hex_value(
                    s@.subrange(16, 32),
                ),
                Err(e) => match e {
                    DecodeError::WrongLength { length } => s@.len() != 32 && length == s@.len(),
                    DecodeError::InvalidPlayerHex => s@.len() == 32 && !all_hex(
                        s@.subrange(0, 16),
                    ),
                    DecodeError::InvalidOpponentHex => s@.len() == 32 && all_hex(
                        s@.subrange(0, 16),
                    ) && !all_hex(s@.subrange(16, 32)),
                },
            },
    {
        let length = s.unicode_len();
        if length != 32 {
            return Err(DecodeError::WrongLength { length });
        }
        let player = match parse_hex16(s, 0) {
            Some(v) => v,
            None => {
                return Err(DecodeError::InvalidPlayerHex);
            },
        };
        let opponent = match parse_hex16(s, 16) {
            Some(v) => v,
            None => {
                return Err(DecodeError::InvalidOpponentHex);
            },
        };
        Ok(Self { player, opponent })
    }

    /// The legal-move bitset for the side to move.
    pub fn get_moves(&self) -> (r: u64)
        requires
            self.wf(),
        ensures
            r == moves_scan(self.player, self.opponent),
    {
        get_moves(self.player, self.opponent)
    }

    /// The legal-move bitset the opponent would have if it were to move.
    pub fn get_opponent_moves(&self) -> (r: u64)
        requires
            self.wf(),
        ensures
            r == moves_scan(self.opponent, self.player),
    {
        proof {
            let p = self.player;
            let o = self.opponent;
            assert(o & p == 0) by (bit_vector)
                requires
                    p & o == 0,
            ;
        }
        get_moves(self.opponent, self.player)
    }

    /// Whether the side to move has any legal move.
    pub fn has_moves(&self) -> (r: bool)
        requires
            self.wf(),
        ensures
            r == (moves_scan(self.player, self.opponent) != 0),
    {
        self.get_moves() != 0
    }

    /// The bitboard of the side to move.
    pub fn player(&self) -> (r: u64)
        ensures
            r == self.player,
    {
        self.player
    }

    /// The bitboard of the side that just moved.
    pub fn opponent(&self) -> (r: u64)
        ensures
            r == self.opponent,
    {
        self.opponent
    }

    /// The final score of a finished game, from the mover's point of view.
    pub fn final_score(&self) -> (r: i32)
        ensures
            r == final_score_spec(self.player, self.opponent),
    {
        proof {
            lemma_popcount_le_64(self.player);
            lemma_popcount_le_64(self.opponent);
        }
        let player_count = crate::bits::count_bits(self.player) as i32;
        let opponent_count = crate::bits::count_bits(self.opponent) as i32;
        if player_count > opponent_count {
            64 - (2 * opponent_count)
        } else if player_count < opponent_count {
            -64 + (2 * player_count)
        } else {
            0
        }
    }

    /// Swaps the two sides without moving a disc: the forced forfeit of a
    /// turn when the side to move has no legal move.
    pub fn pass(&self) -> (r: Position)
        requires
            self.wf(),
        ensures
            r.player == self.opponent,
            r.opponent == self.player,
            r.wf(),
    {
        proof {
            let p = self.player;
            let o = self.opponent;
            assert(o & p == 0) by (bit_vector)
                requires
                    p & o == 0,
            ;
        }
        Position::new_from_bitboards(self.opponent, self.player)
    }

    /// Applies the legal move `index`: the captured discs change side, the
    /// new disc joins them, and the two roles swap. The played cell was
    /// empty, so the board gains exactly one disc.
    pub fn do_move(&self, index: usize) -> (r: Position)
        requires
            self.wf(),
            is_legal(self.player, self.opponent, index as int),
        ensures
            r.player == self.opponent ^ flipped_discs(self.player, self.opponent, index as u64),
            r.opponent == self.player | flipped_discs(self.player, self.opponent, index as u64) | (
            1u64 << index),
            r.wf(),
            r.player | r.opponent == (self.player | self.opponent) | (1u64 << index),
            popcount(r.player | r.opponent) == popcount(self.player | self.opponent) + 1,
    {
        let move_bit = 1u64 << index;
        let flipped = get_flipped(self.player, self.opponent, index);
        let player = self.opponent ^ flipped;
        let opponent = self.player | flipped | move_bit;
        proof {
            let p = self.player;
            let o = self.opponent;
            let i = index as u64;
            let f = flipped_discs(p, o, i);
            let b = 1u64 << i;
            lemma_flipped_subset_opponent(p, o, i);
            lemma_scan_only_empty(p, o);
            let mv = moves_scan(p, o);
            assert(b & (p | o) == 0) by (bit_vector)
                requires
                    (mv >> i) & 1 == 1,
                    mv & (p | o) == 0,
                    i < 64,
                    b == 1u64 << i,
            ;
            assert((o ^ f) & (p | f | b) == 0) by (bit_vector)
                requires
                    p & o == 0,
                    f & !o == 0,
                    b & (p | o) == 0,
            ;
            assert((o ^ f) | (p | f | b) == (p | o) | b) by (bit_vector)
                requires
                    f & !o == 0,
            ;
            assert((p | o) & b == 0) by (bit_vector)
                requires
                    b & (p | o) == 0,
            ;
            lemma_popcount_set_bit(p | o, i);
        }
        Position::new_from_bitboards(player, opponent)
    }

    /// The set-bit indices of the legal-move bitset, in ascending order.
    pub fn iter_move_indices(&self) -> (r: MoveIndices)
        requires
            self.wf(),
        ensures
            r.remaining_moves == moves_scan(self.player, self.opponent),
    {
        MoveIndices::new(self.get_moves())
    }
}

/// The upper-case character of one hexadecimal digit.
pub open spec fn hex_digit_char(n: u64) -> char {
    if n == 0 {
        '0'
    } else if n == 1 {
        '1'
    } else if n == 2 {
        '2'
    } else if n == 3 {
        '3'
    } else if n == 4 {
        '4'
    } else if n == 5 {
        '5'
    } else if n == 6 {
        '6'
    } else if n == 7 {
        '7'
    } else if n == 8 {
        '8'
    } else if n == 9 {
        '9'
    } else if n == 10 {
        'A'
    } else if n == 11 {
        'B'
    } else if n == 12 {
        'C'
    } else if n == 13 {
        'D'
    } else if n == 14 {
        'E'
    } else {
        'F'
    }
}

/// The `n` lowest nibbles of `x` as upper-case hexadecimal digits, most
/// significant first.
pub open spec fn hex_chars(x: u64, n: nat) -> Seq<char>
    decreases n,
{
    if n == 0 {
        Seq::empty()
    } else {
        hex_chars(x >> 4, (n - 1) as nat) + seq![hex_digit_char(x & 0xf)]
    }
}

/// A hexadecimal rendering holds one character per nibble.
proof fn lemma_hex_chars_len(x: u64, n: nat)
    ensures
        hex_chars(x, n).len() == n,
    decreases n,
{
    if n > 0 {
        lemma_hex_chars_len(x >> 4, (n - 1) as nat);
    }
}

/// `b` begins with `a`: a string under construction only ever grows.
spec fn grows_from(b: Seq<char>, a: Seq<char>) -> bool {
    a.len() <= b.len() && b.subrange(0, a.len() as int) == a
}

/// Appends one decimal digit.
fn append_digit(out: &mut String, n: u32)
    requires
        n < 10,
    ensures
        final(out)@ == old(out)@ + seq![hex_digit_char(n as u64)],
{
    let d: &str = if n == 0 {
        "0"
    } else if n == 1 {
        "1"
    } else if n == 2 {
        "2"
    } else if n == 3 {
        "3"
    } else if n == 4 {
        "4"
    } else if n == 5 {
        "5"
    } else if n == 6 {
        "6"
    } else if n == 7 {
        "7"
    } else if n == 8 {
        "8"
    } else {
        "9"
    };
    out.append(d);
    proof {
        reveal_strlit("0");
        reveal_strlit("1");
        reveal_strlit("2");
        reveal_strlit("3");
        reveal_strlit("4");
        reveal_strlit("5");
        reveal_strlit("6");
        reveal_strlit("7");
        reveal_strlit("8");
        reveal_strlit("9");
        assert(out@ =~= old(out)@ + seq![hex_digit_char(n as u64)]);
    }
}

/// Appends a number below 100, space-padded to width 2.
fn append_two_digits(out: &mut String, n: u32)
    requires
        n < 100,
{
    if n < 10 {
        out.append(" ");
        append_digit(out, n);
    } else {
        append_digit(out, n / 10);
        append_digit(out, n % 10);
    }
}

/// Appends one upper-case hexadecimal digit.
fn append_hex_digit(out: &mut String, n: u64)
    requires
        n < 16,
    ensures
        final(out)@ == old(out)@ + seq![hex_digit_char(n)],
{
    if n < 10 {
        append_digit(out, n as u32);
    } else {
        let d: &str = if n == 10 {
            "A"
        } else if n == 11 {
            "B"
        } else if n == 12 {
            "C"
        } else if n == 13 {
            "D"
        } else if n == 14 {
            "E"
        } else {
            "F"
        };
        out.append(d);
        proof {
            reveal_strlit("A");
            reveal_strlit("B");
            reveal_strlit("C");
            reveal_strlit("D");
            reveal_strlit("E");
            reveal_strlit("F");
            assert(out@ =~= old(out)@ + seq![hex_digit_char(n)]);
        }
    }
}

/// Appends the 16 upper-case hexadecimal digits of `x`, most significant
/// first.
fn append_hex16(out: &mut String, x: u64)
    ensures
        final(out)@ == old(out)@ + hex_chars(x, 16),
{
    let mut sh: u32 = 64;
    while sh > 0
        invariant
            sh <= 64,
            sh % 4 == 0,
            out@ == old(out)@ + hex_chars(x >> sh as u64, ((64 - sh) / 4) as nat),
        decreases sh,
    {
        sh = sh - 4;
        let nibble = (x >> sh as u64) & 0xf;
        proof {
            let shu = sh as u64;
            assert((x >> shu) & 0xf < 16 && (x >> shu) >> 4 == x >> ((shu + 4) as u64)) by (bit_vector)
                requires
                    shu <= 60,
            ;
        }
        append_hex_digit(out, nibble);
        proof {
            assert(out@ =~= old(out)@ + hex_chars(x >> sh as u64, ((64 - sh) / 4) as nat));
        }
    }
    proof {
        assert(x >> 0u64 == x) by (bit_vector);
        assert(out@ =~= old(out)@ + hex_chars(x, 16));
    }
}

impl Position {
    /// An ASCII-art board: the grid with discs and legal-move marks, the
    /// disc and mobility counts of both colours, and the two bitboards in
    /// hexadecimal. `black_to_move` names the side the mover discs belong
    /// to, for choosing the disc glyphs.
    pub fn ascii_art(&self, black_to_move: bool) -> (r: String)
        requires
            self.wf(),
        ensures
            r@.len() >= 40,
            r@.subrange(0, 20) == "+-A-B-C-D-E-F-G-H-+\n"@,
            r@.subrange(r@.len() - 20, r@.len() as int) == "+-A-B-C-D-E-F-G-H-+\n"@,
            exists|k: int|
                0 <= k && k + 40 <= r@.len() && #[trigger] r@.subrange(k, k + 40) == "(0x"@
                    + hex_chars(self.player, 16) + ", 0x"@ + hex_chars(self.opponent, 16) + ")"@,
    {
        proof {
            lemma_popcount_le_64(self.player);
            lemma_popcount_le_64(self.opponent);
            lemma_popcount_le_64(moves_scan(self.player, self.opponent));
            lemma_popcount_le_64(moves_scan(self.opponent, self.player));
        }
        let player_count = crate::bits::count_bits(self.player);
        let opponent_count = crate::bits::count_bits(self.opponent);
        let player_moves = crate::bits::count_bits(self.get_moves());
        let opponent_moves = crate::bits::count_bits(self.get_opponent_moves());

        let player_char: &str = if black_to_move {
            "\u{25cb}"
        } else {
            "\u{25cf}"
        };
        let opponent_char: &str = if black_to_move {
            "\u{25cf}"
        } else {
            "\u{25cb}"
        };
        let black_count: u32 = if black_to_move {
            player_count
        } else {
            opponent_count
        };
        let white_count: u32 = if black_to_move {
            opponent_count
        } else {
            player_count
        };
        let black_moves: u32 = if black_to_move {
            player_moves
        } else {
            opponent_moves
        };
        let white_moves: u32 = if black_to_move {
            opponent_moves
        } else {
            player_moves
        };
        let black_move_arrow: &str = if black_to_move {
            "->"
        } else {
            "  "
        };
        let white_move_arrow: &str = if black_to_move {
            "  "
        } else {
            "->"
        };

        let moves = self.get_moves();
        let mut body = String::new();
        let ghost pattern = "(0x"@ + hex_chars(self.player, 16) + ", 0x"@ + hex_chars(
            self.opponent,
            16,
        ) + ")"@;
        let ghost mut saved: Seq<char> = Seq::empty();
        proof {
            lemma_hex_chars_len(self.player, 16);
            lemma_hex_chars_len(self.opponent, 16);
            reveal_strlit("(0x");
            reveal_strlit(", 0x");
            reveal_strlit(")");
        }
        let mut row: u32 = 0;
        while row < 8
            invariant
                row <= 8,
                black_count < 100,
                white_count < 100,
                black_moves < 100,
                white_moves < 100,
                pattern == "(0x"@ + hex_chars(self.player, 16) + ", 0x"@ + hex_chars(
                    self.opponent,
                    16,
                ) + ")"@,
                pattern.len() == 40,
                row > 6 ==> 40 <= saved.len() && grows_from(body@, saved) && saved.subrange(
                    saved.len() - 40,
                    saved.len() as int,
                ) == pattern,
            decreases 8 - row,
        {
            append_digit(&mut body, row + 1);
            body.append(" ");
            proof {
                if row > 6 {
                    assert(body@.subrange(0, saved.len() as int) =~= saved);
                }
            }
            let mut col: u32 = 0;
            while col < 8
                invariant
                    row < 8,
                    col <= 8,
                    row > 6 ==> 40 <= saved.len() && grows_from(body@, saved),
                decreases 8 - col,
            {
                let index = row * 8 + col;
                let mask = 1u64 << index as u64;
                if self.player & mask != 0 {
                    body.append(player_char);
                    body.append(" ");
                } else if self.opponent & mask != 0 {
                    body.append(opponent_char);
                    body.append(" ");
                } else if moves & mask != 0 {
                    body.append("\u{b7} ");
                } else {
                    body.append("  ");
                }
                proof {
                    if row > 6 {
                        assert(body@.subrange(0, saved.len() as int) =~= saved);
                    }
                }
                col = col + 1;
            }
            append_digit(&mut body, row + 1);
            if row == 1 {
                body.append("    ");
                body.append(black_move_arrow);
                body.append(" \u{25cb} ");
                append_two_digits(&mut body, black_count);
                body.append(" - ");
                append_two_digits(&mut body, black_moves);
                body.append(" moves");
            } else if row == 2 {
                body.append("    ");
                body.append(white_move_arrow);
                body.append(" \u{25cf} ");
                append_two_digits(&mut body, white_count);
                body.append(" - ");
                append_two_digits(&mut body, white_moves);
                body.append(" moves");
            } else if row == 6 {
                body.append("   (0x");
                append_hex16(&mut body, self.player);
                body.append(", 0x");
                append_hex16(&mut body, self.opponent);
                body.append(")");
                proof {
                    reveal_strlit("   (0x");
                    reveal_strlit("(0x");
                    reveal_strlit(", 0x");
                    reveal_strlit(")");
                    saved = body@;
                    assert(saved.subrange(saved.len() - 40, saved.len() as int) =~= pattern);
                }
            }
            body.append("\n");
            proof {
                if row >= 6 {
                    assert(body@.subrange(0, saved.len() as int) =~= saved);
                }
            }
            row = row + 1;
        }
        let mut out = String::from_str("+-A-B-C-D-E-F-G-H-+\n");
        out.append(body.as_str());
        out.append("+-A-B-C-D-E-F-G-H-+\n");
        proof {
            reveal_strlit("+-A-B-C-D-E-F-G-H-+\n");
            let border = "+-A-B-C-D-E-F-G-H-+\n"@;
            assert(out@ == border + body@ + border);
            assert(out@.subrange(0, 20) =~= border);
            assert(out@.subrange(out@.len() - 20, out@.len() as int) =~= border);
            let k = 20 + saved.len() - 40;
            assert(out@.subrange(k, k + 40) =~= pattern);
        }
        out
    }
}

/// The indices of the set bits of a move bitset, lowest first.
pub struct MoveIndices {
    /// The moves not yet handed out.
    pub remaining_moves: u64,
}

/// The ascending indices of the set bits of `x` below position `n`.
pub open spec fn indices_upto(x: u64, n: nat) -> Seq<usize>
    decreases n,
{
    if n == 0 {
        Seq::empty()
    } else {
        indices_upto(x, (n - 1) as nat) + (if (x >> ((n - 1) as u64)) & 1 == 1 {
            seq![(n - 1) as usize]
        } else {
            Seq::empty()
        })
    }
}

impl MoveIndices {
    /// Wraps a move bitset for enumeration.
    pub fn new(remaining_moves: u64) -> (r: Self)
        ensures
            r.remaining_moves == remaining_moves,
    {
        Self { remaining_moves }
    }

    /// Whether any move is left.
    pub fn is_empty(&self) -> (r: bool)
        ensures
            r == (self.remaining_moves == 0),
    {
        self.remaining_moves == 0
    }

    /// All remaining move indices, in ascending order.
    pub fn to_indices(&self) -> (v: Vec<usize>)
        ensures
            v@ == indices_upto(self.remaining_moves, 64),
    {
        let x = self.remaining_moves;
        let mut v: Vec<usize> = Vec::new();
        let mut i: usize = 0;
        while i < 64
            invariant
                i <= 64,
                v@ == indices_upto(x, i as nat),
            decreases 64 - i,
        {
            if (x >> i) & 1 == 1 {
                v.push(i);
            }
            i = i + 1;
            assert(v@ =~= indices_upto(x, i as nat));
        }
        v
    }
}

} // verus!
