//! The bit-parallel move generator against the naive single-step scan, over
//! a large family of generated positions.

use othello_engine::get_moves::get_moves;
use othello_engine::position::Position;

/// Shift a bitset in a given direction.
fn shift(bitset: u64, dir: i32) -> u64 {
    match dir {
        -9 => (bitset & 0xfefefefefefefefe) << 7,
        -8 => bitset << 8,
        -7 => (bitset & 0x7f7f7f7f7f7f7f7f) << 9,
        -1 => (bitset & 0xfefefefefefefefe) >> 1,
        1 => (bitset & 0x7f7f7f7f7f7f7f7f) << 1,
        7 => (bitset & 0x7f7f7f7f7f7f7f7f) >> 7,
        8 => bitset >> 8,
        9 => (bitset & 0xfefefefefefefefe) >> 9,
        _ => panic!("Invalid direction"),
    }
}

fn get_moves_simple(player: u64, opponent: u64) -> u64 {
    let empty = !(player | opponent);
    let mut moves = 0;

    const DIRECTIONS: [i32; 8] = [-9, -8, -7, -1, 1, 7, 8, 9];

    for dir in DIRECTIONS {
        let mut candidates = shift(player, dir) & opponent;

        while candidates != 0 {
            moves |= empty & shift(candidates, dir);
            candidates = shift(candidates, dir) & opponent;
        }
    }
    moves
}

fn move_test_cases() -> Vec<Position> {
    const DIRECTIONS: [(i32, i32); 8] = [
        (-1, -1),
        (-1, 0),
        (-1, 1),
        (0, -1),
        (0, 1),
        (1, -1),
        (1, 0),
        (1, 1),
    ];

    let mut test_cases = Vec::new();

    for i in 0..64 {
        for (dx, dy) in DIRECTIONS {
            for distance in 1..=6 {
                let x = i % 8;
                let y = i / 8;

                let move_x = x + (distance + 1) * dx;
                let move_y = y + (distance + 1) * dy;

                if !(0..8).contains(&move_x) || !(0..8).contains(&move_y) {
                    continue;
                }

                let player = 1 << i;

                let mut opponent = 0;
                for d in 1..=distance {
                    let index = (y + d * dy) * 8 + (x + d * dx);
                    opponent |= 1 << (index as usize);
                }

                test_cases.push(Position::new_from_bitboards(player, opponent));
            }
        }
    }

    test_cases
}

fn print_bitset(bitset: u64) {
    let mut lines = vec![];
    lines.push("+-A-B-C-D-E-F-G-H-+".to_string());
    for row in 0..8 {
        let mut line = String::new();
        line.push_str(&format!("{} ", row + 1));
        for col in 0..8 {
            let index = row * 8 + col;
            let mask = 1u64 << index;
            if bitset & mask != 0 {
                line.push_str("\u{25cf} ");
            } else {
                line.push_str("  ");
            }
        }
        line.push_str(&format!("{}", row + 1));
        lines.push(line);
    }
    lines.push("+-A-B-C-D-E-F-G-H-+".to_string());
    println!("{}", lines.join("\n") + "\n");
}

#[test]
fn test_get_moves_simple() {
    let positions = move_test_cases();

    for position in positions {
        let player = position.player();
        let opponent = position.opponent();

        let simple = get_moves_simple(player, opponent);
        let regular = get_moves(player, opponent);

        println!("Position:");
        println!("{}", position.ascii_art(true));

        println!("Regular:");
        print_bitset(regular);

        println!("Simple:");
        print_bitset(simple);

        assert_eq!(simple, regular);
    }
}
