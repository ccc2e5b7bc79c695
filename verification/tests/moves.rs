use coerceo::ai::{alphabeta_negamax, evaluate, quiescence_search, NEG_INFINITY};
use coerceo::model::board::{Board, PlayerVitals};
use coerceo::model::ttable::TTable;
use coerceo::model::{Color, FieldCoord, GameType, Move};

fn remaining(board: &Board) -> u32 {
    board.pieces(coerceo::model::Color::White) as u32
        + board.pieces(coerceo::model::Color::Black) as u32
        + board.hexes.count_ones()
}

fn key(mv: &Move) -> (u32, u32, u32) {
    match *mv {
        Move::Move(from, to, _) => (0, from.trailing_zeros(), to.trailing_zeros()),
        Move::Exchange(bb, _) => (1, bb.trailing_zeros(), 0),
    }
}

/// Plays the move at `pick` (modulo the number of moves) for `plies` plies, collecting the boards.
fn play_line(game_type: GameType, plies: usize, pick: usize) -> Vec<Board> {
    let mut board = Board::new(game_type, 1);
    let mut boards = vec![board];
    for i in 0..plies {
        if board.outcome() != coerceo::model::Outcome::InProgress {
            break;
        }
        let moves = board.generate_moves();
        let mv = moves[(pick * (i + 1)) % moves.len()];
        board.apply_move(&mv);
        boards.push(board);
    }
    boards
}

#[test]
fn moves_come_in_order() {
    for board in play_line(GameType::Laurentius, 60, 7) {
        if board.outcome() != coerceo::model::Outcome::InProgress {
            continue;
        }
        let moves = board.generate_moves();
        for pair in moves.windows(2) {
            assert!(key(&pair[0]) < key(&pair[1]));
        }
    }
}

#[test]
fn captures_take_something() {
    let mut seen = 0;
    for game_type in [GameType::Laurentius, GameType::Ocius] {
        for pick in [3, 5, 11] {
            for board in play_line(game_type, 80, pick) {
                for mv in board.generate_captures() {
                    assert!(board.can_apply_move(&mv));
                    let mut after = board;
                    after.apply_move(&mv);
                    assert!(remaining(&after) < remaining(&board));
                    seen += 1;
                }
            }
        }
    }
    assert!(seen > 0);
}

#[test]
fn hexes_only_disappear() {
    for board_pair in play_line(GameType::Laurentius, 80, 13).windows(2) {
        let (before, after) = (board_pair[0], board_pair[1]);
        assert_eq!(after.hexes & !before.hexes, 0);
        assert!(after.turn != before.turn);
    }
}

#[test]
fn alphabeta_fails_hard() {
    let board = Board::new(GameType::Ocius, 2);
    let mut ttable = TTable::new();
    let mut list = vec![];
    let mut pv = vec![];
    let score = alphabeta_negamax(&board, &mut list, &mut pv, -50, 50, 2, &mut ttable);
    assert!(score == 50 || (-50 <= score && score < 50));
    let score = alphabeta_negamax(&board, &mut list, &mut pv, NEG_INFINITY, -NEG_INFINITY, 2, &mut ttable);
    assert!(score >= NEG_INFINITY);
}

#[test]
fn quiet_positions_score_by_material() {
    let mut quiet = 0;
    let mut noisy = 0;
    for game_type in [GameType::Laurentius, GameType::Ocius] {
        for board in play_line(game_type, 60, 7) {
            if board.generate_captures().is_empty() {
                let e = evaluate(&board);
                for (a, b) in [(-300i16, 300i16), (e + 1, e + 50), (e - 50, e - 1)] {
                    let expect = if e >= b { b } else if a < e { e } else { a };
                    assert_eq!(quiescence_search(&board, a, b), expect);
                }
                quiet += 1;
            } else {
                noisy += 1;
            }
        }
    }
    assert!(quiet > 0);
    assert!(noisy > 0);
}

#[test]
fn captures_name_single_fields() {
    for board in play_line(GameType::Ocius, 60, 5) {
        for mv in board.generate_captures() {
            match mv {
                Move::Exchange(bb, color) => {
                    assert_eq!(bb.count_ones(), 1);
                    assert!(color != board.turn);
                }
                Move::Move(from, to, color) => {
                    assert_eq!(from.count_ones(), 1);
                    assert_eq!(to.count_ones(), 1);
                    assert_eq!(color, board.turn);
                }
            }
        }
    }
}

#[test]
fn exchange_that_removes_a_hex_is_listed() {
    // Black's lone piece on the corner hex (0, -2) can be exchanged; the hex is then empty and
    // removable, and Black's piece on (1, -2, 4), whose other edge neighbors hold white pieces,
    // is captured with it.
    let mut b = Board::new(GameType::Laurentius, 1);
    let bb = |x: i8, y: i8, f: u8| FieldCoord::new(x, y, f).to_bitboard();
    b.fields.white = bb(1, -2, 5) | bb(1, -2, 3);
    b.fields.black = bb(0, -2, 2) | bb(1, -2, 4);
    b.vitals.white = PlayerVitals { pieces: 2, hexes: 1 };
    b.vitals.black = PlayerVitals { pieces: 2, hexes: 0 };
    b.turn = Color::White;
    let exchange = Move::Exchange(bb(0, -2, 2), Color::Black);
    let captures = b.generate_captures();
    assert!(captures.contains(&exchange));
    assert!(!captures.contains(&Move::Exchange(bb(1, -2, 4), Color::Black)));
    let mut after = b;
    after.apply_move(&exchange);
    assert_eq!(after.pieces(Color::Black), 0);
    assert_eq!(after.hexes & bb(0, -2, 0), 0);
}

/// The larger of the evaluation and the negated values after each capture, by plain recursion.
fn capture_value(board: &Board) -> i32 {
    let mut best = evaluate(board) as i32;
    for mv in board.generate_captures() {
        let mut after = *board;
        after.apply_move(&mv);
        best = best.max(-capture_value(&after));
    }
    best
}

#[test]
fn quiescence_returns_the_capture_value_in_the_window() {
    let mut checked = 0;
    for game_type in [GameType::Laurentius, GameType::Ocius] {
        for board in play_line(game_type, 60, 5) {
            if board.outcome() != coerceo::model::Outcome::InProgress {
                continue;
            }
            let v = capture_value(&board);
            for (a, b) in [(-1000i16, 1000i16), (-50, 50), (0, 200), (-200, 0)] {
                let expect = if v >= b as i32 { b as i32 } else if v > a as i32 { v } else { a as i32 };
                assert_eq!(quiescence_search(&board, a, b) as i32, expect);
            }
            checked += 1;
        }
    }
    assert!(checked > 0);
}

#[test]
fn single_capture_after_an_ocius_opening_move() {
    let mut b = Board::new(GameType::Ocius, 2);
    b.apply_move(&Move::move_from_field(FieldCoord::new(0, 0, 3), FieldCoord::new(1, -1, 5)));
    // White's piece now sits on (1, -1, 5) next to Black's (1, -1, 0) and (1, -1, 4); Black moves.
    let v = b.generate_captures();
    assert_eq!(v.len(), 1);
    assert!(v[0] == Move::Move(1 << 27, 1 << 28, Color::Black));
    assert!(
        v[0]
            == Move::Move(
                FieldCoord::new(0, 0, 0).to_bitboard(),
                FieldCoord::new(0, 0, 2).to_bitboard(),
                Color::Black
            )
    );
}

#[test]
fn extant_hexes_are_listed_once() {
    assert_eq!(Board::new(GameType::Laurentius, 2).extant_hexes().len(), 19);
    assert_eq!(Board::new(GameType::Ocius, 2).extant_hexes().len(), 7);
}

#[test]
fn moves_that_are_not_applicable() {
    let b = Board::new(GameType::Laurentius, 2);
    let bb = |x: i8, y: i8, f: u8| FieldCoord::new(x, y, f).to_bitboard();
    // A move of the side not to move.
    assert!(!b.can_apply_move(&Move::Move(bb(0, -2, 0), bb(0, -2, 2), Color::Black)));
    // A move to a field that shares no vertex with the piece.
    assert!(!b.can_apply_move(&Move::Move(bb(0, -2, 1), bb(2, -2, 3), Color::White)));
    // An exchange with no captured hex to pay for it.
    assert!(!b.can_apply_move(&Move::Exchange(bb(0, -2, 0), Color::Black)));
}

#[test]
fn stalemate_is_having_no_move() {
    // On the small board, white fills every white field and has no hexes to exchange with.
    let mut board = Board::new(GameType::Ocius, 2);
    assert!(board.outcome() == coerceo::model::Outcome::InProgress);
    assert!(!board.generate_moves().is_empty());
    board.fields.white = board.hexes;
    board.vitals.white.pieces = board.hexes.count_ones() as u8;
    assert_eq!(board.vitals.white.pieces, 21);
    assert!(board.outcome() == coerceo::model::Outcome::DrawStalemate);
    assert!(board.generate_moves().is_empty());
    // With hexes to pay, white can exchange for a black piece instead.
    board.vitals.white.hexes = 2;
    assert!(board.outcome() == coerceo::model::Outcome::InProgress);
    assert!(!board.generate_moves().is_empty());
}
