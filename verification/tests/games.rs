use rusty_games::tetrust::{tetrimino_lines, Tetrimino};
use rusty_games::text::{chars_of, joined, decimal_string, same_text, signed_decimal_string};
use rusty_games::tic_tac_toe::{Board, Cell, GameStatus};

#[test]
fn boards_take_marks_once() {
    let mut b = Board::new();
    assert_eq!(Cell::Empty, b.cell(4));
    assert!(b.put(4, Cell::Cross));
    assert!(!b.put(4, Cell::Naught));
    assert_eq!(Cell::Cross, b.cell(4));
    assert_eq!("(0)(1)(2)\n(3)[X](5)\n(6)(7)(8)\n", b.render());
}

#[test]
fn full_lines_win() {
    let mut b = Board::new();
    assert_eq!(GameStatus::Running, b.compute_status());
    b.put(0, Cell::Naught);
    b.put(4, Cell::Naught);
    b.put(8, Cell::Naught);
    assert_eq!(GameStatus::NaughtWon, b.compute_status());
    let mut c = Board::new();
    for i in [2, 5, 8] {
        c.put(i, Cell::Cross);
    }
    assert_eq!(GameStatus::CrossWon, c.compute_status());
    let mut full = Board::new();
    let marks = [Cell::Cross, Cell::Naught, Cell::Cross, Cell::Cross, Cell::Naught, Cell::Naught, Cell::Naught, Cell::Cross, Cell::Cross];
    for (i, m) in marks.iter().enumerate() {
        full.put(i, *m);
    }
    assert_eq!(GameStatus::Draw, full.compute_status());
    let mut almost = Board::new();
    for (i, m) in marks.iter().enumerate().take(8) {
        almost.put(i, *m);
    }
    assert_eq!(GameStatus::Running, almost.compute_status());
}

#[test]
fn tetriminoes_rotate_and_slide() {
    let mut t = Tetrimino::from_index(2);
    assert_eq!('T', t.name());
    assert_eq!(2, t.color_idx());
    assert_eq!((1, 0), (t.x(0), t.y(0)));
    t.rotate_cw();
    assert_eq!((2, 1), (t.x(0), t.y(0)));
    t.rotate_ccw();
    assert_eq!((1, 0), (t.x(0), t.y(0)));
    t.slide(3, -2);
    assert_eq!((4, -2), (t.x(0), t.y(0)));
    let i = Tetrimino::from_index(1);
    assert_eq!((0, 0), (i.x(0), i.y(0)));
    assert_eq!((3, 0), (i.x(3), i.y(3)));
}

#[test]
fn tetriminoes_are_pictured_in_their_box() {
    let lines = tetrimino_lines(2);
    assert_eq!(
        vec![
            "--> Tetrimino T (color = 2)",
            "   ....   ....   ....   ....",
            "   .#..   .#..   ....   .#..",
            "   ###.   .##.   ###.   ##..",
            "   ....   .#..   .#..   .#..",
        ],
        lines
    );
    let lines = tetrimino_lines(1);
    assert_eq!("--> Tetrimino I (color = 1)", lines[0]);
    assert_eq!("   ....   ..#.   ....   .#..", lines[1]);
    assert_eq!("   ####   ..#.   ....   .#..", lines[2]);
    assert_eq!("   ....   ..#.   ####   .#..", lines[3]);
    for k in 0..7 {
        assert_eq!(5, tetrimino_lines(k).len());
    }
}

#[test]
fn text_helpers() {
    assert_eq!("0", decimal_string(0));
    assert_eq!("18446744073709551615", decimal_string(u64::MAX));
    assert_eq!("-9223372036854775808", signed_decimal_string(i64::MIN));
    assert_eq!("ab", joined("a".to_string(), "b"));
    assert!(same_text("Ω", "Ω"));
    assert!(!same_text("a", "ab"));
    assert_eq!(vec!['Ω', 'x'], chars_of("Ωx"));
}

#[test]
fn tetrimino_squares_turn_by_quarters_and_stay_in_their_box() {
    let mut t = Tetrimino::from_index(2);
    let xs: Vec<i32> = (0..4).map(|k| t.x(k)).collect();
    let ys: Vec<i32> = (0..4).map(|k| t.y(k)).collect();
    assert_eq!(vec![1, 0, 1, 2], xs);
    assert_eq!(vec![0, 1, 1, 1], ys);
    t.rotate_cw();
    let xs: Vec<i32> = (0..4).map(|k| t.x(k)).collect();
    let ys: Vec<i32> = (0..4).map(|k| t.y(k)).collect();
    assert_eq!(vec![2, 1, 1, 1], xs);
    assert_eq!(vec![1, 0, 1, 2], ys);
    let i = Tetrimino::from_index(1);
    assert_eq!(vec![0, 1, 2, 3], (0..4).map(|k| i.x(k)).collect::<Vec<i32>>());
    assert_eq!(vec![0, 0, 0, 0], (0..4).map(|k| i.y(k)).collect::<Vec<i32>>());
    for idx in 0..7 {
        let mut p = Tetrimino::from_index(idx);
        let start: Vec<(i32, i32)> = (0..4).map(|k| (p.x(k), p.y(k))).collect();
        for _ in 0..4 {
            let cells: Vec<(i32, i32)> = (0..4).map(|k| (p.x(k), p.y(k))).collect();
            for (k, (x, y)) in cells.iter().enumerate() {
                assert!(0 <= *x && *x <= 3 && -1 <= *y && *y <= 2);
                for (x2, y2) in cells.iter().skip(k + 1) {
                    assert!((x, y) != (x2, y2));
                }
            }
            p.rotate_cw();
        }
        assert_eq!(start, (0..4).map(|k| (p.x(k), p.y(k))).collect::<Vec<(i32, i32)>>());
    }
}
