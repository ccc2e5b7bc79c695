use coerceo::ai::{
    alphabeta_negamax, evaluate, quiescence_search, root_moves, search_iteration, DRAW, LOSE,
    NEG_INFINITY,
};
use coerceo::model::board::{Board, PlayerVitals};
use coerceo::model::ttable::{Score, TTable};
use coerceo::model::{Color, ColorMap, FieldCoord, GameType, Move, Outcome};

fn with_vitals(board: Board, white: (u8, u8), black: (u8, u8)) -> Board {
    let mut b = board;
    b.vitals = ColorMap::new(
        PlayerVitals { pieces: white.0, hexes: white.1 },
        PlayerVitals { pieces: black.0, hexes: black.1 },
    );
    b
}

#[test]
fn evaluate_counts_material_for_the_side_to_move() {
    let start = Board::new(GameType::Laurentius, 2);
    assert_eq!(evaluate(&start), 0);

    // 100 per piece and 50 per captured hex.
    let board = with_vitals(start, (17, 1), (15, 3));
    assert_eq!(evaluate(&board), (1700 + 50) - (1500 + 150));
    let mut black_to_move = board;
    black_to_move.turn = Color::Black;
    assert_eq!(evaluate(&black_to_move), (1500 + 150) - (1700 + 50));
}

#[test]
fn quiescence_cuts_at_beta() {
    let board = with_vitals(Board::new(GameType::Laurentius, 2), (18, 2), (18, 0));
    // White stands at +100: at or above beta, the search returns beta.
    assert_eq!(quiescence_search(&board, -200, 50), 50);
    assert_eq!(quiescence_search(&board, -200, 100), 100);
}

#[test]
fn quiescence_stays_in_window() {
    let board = Board::new(GameType::Ocius, 2);
    let score = quiescence_search(&board, -300, 300);
    assert!(score >= 0 && score <= 300);
}

#[test]
fn lost_position_scores_by_depth() {
    let mut board = Board::new(GameType::Ocius, 2);
    board.fields.white = 0;
    board.vitals.white.pieces = 0;
    assert_eq!(board.outcome(), Outcome::Win(Color::Black));

    let mut ttable = TTable::new();
    let mut list = vec![];
    let mut pv = vec![];
    let score =
        alphabeta_negamax(&board, &mut list, &mut pv, NEG_INFINITY, -NEG_INFINITY, 3, &mut ttable);
    assert_eq!(score, LOSE - 3);
    assert_eq!(score, -16387);
    // Inside the window: the principal variation ends here.
    assert!(pv.is_empty());
    // The score is stored as exact for the position.
    assert_eq!(ttable.get(board.zobrist, 3), Some(Score::Exact(LOSE - 3)));
}

#[test]
fn repeated_position_is_a_draw() {
    let board = Board::new(GameType::Ocius, 2);
    let mut other = board;
    other.turn = Color::Black;
    let mut list = vec![board, other, other, other, board, other, other, other];
    let before = list.clone();
    let mut pv = vec![Move::Exchange(1, Color::Black)];
    // The repetition is found when the table holds an entry for the position.
    let mut ttable = TTable::new();
    ttable.set(board.zobrist, Score::Exact(300), 2);
    let score =
        alphabeta_negamax(&board, &mut list, &mut pv, NEG_INFINITY, -NEG_INFINITY, 2, &mut ttable);
    assert_eq!(score, DRAW);
    assert!(pv.is_empty());
    assert!(list == before);
}

#[test]
fn repetition_without_table_entry_is_searched() {
    let board = Board::new(GameType::Ocius, 2);
    let mut other = board;
    other.turn = Color::Black;
    let mut list = vec![board, other, other, other, board, other, other, other];
    let before = list.clone();
    let mut pv = vec![];
    let mut ttable = TTable::new();
    // With no entry the position is searched: the result stays in a window above DRAW.
    let score = alphabeta_negamax(&board, &mut list, &mut pv, 5, 500, 1, &mut ttable);
    assert!(score == 500 || (5 <= score && score < 500));
    assert!(list == before);
}

#[test]
fn search_keeps_board_list() {
    let board = Board::new(GameType::Ocius, 2);
    let mut list = vec![board];
    let mut pv = vec![];
    let mut ttable = TTable::new();
    let score =
        alphabeta_negamax(&board, &mut list, &mut pv, NEG_INFINITY, -NEG_INFINITY, 2, &mut ttable);
    assert!(score >= NEG_INFINITY);
    assert_eq!(list.len(), 1);
    assert!(list[0] == board);
}

#[test]
fn root_moves_are_the_legal_moves() {
    let board = Board::new(GameType::Laurentius, 2);
    let moves = root_moves(&board);
    assert_eq!(moves.len(), 48);
    for &(mv, score) in &moves {
        assert!(board.can_apply_move(&mv));
        assert_eq!(score, NEG_INFINITY);
    }
}

#[test]
fn iteration_sorts_moves_best_first() {
    let board = Board::new(GameType::Ocius, 2);
    let mut list = vec![];
    let mut moves = root_moves(&board);
    let count = moves.len();
    let mut pv = None;
    let mut ttable = TTable::new();
    ttable.inc_age();
    for depth in 0..2 {
        search_iteration(&board, &mut list, &mut moves, &mut pv, depth, &mut ttable);
        assert_eq!(moves.len(), count);
        for pair in moves.windows(2) {
            assert!(pair[0].1 >= pair[1].1);
        }
        let line = pv.clone().unwrap();
        assert!(*line.last().unwrap() == moves[0].0);
    }
    for &(mv, _) in &moves {
        assert!(board.can_apply_move(&mv));
    }
}

#[test]
fn iteration_finds_a_winning_exchange() {
    // Black has a single piece left and white can exchange for it: that wins at once.
    let mut board = Board::new(GameType::Ocius, 1);
    let black_piece = FieldCoord::new(0, 0, 0);
    board.fields.black = black_piece.to_bitboard();
    board.vitals.black.pieces = 1;
    board.vitals.white.hexes = 1;
    board.zobrist = 0x1234;
    let mut list = vec![];
    let mut moves = root_moves(&board);
    let mut pv = None;
    let mut ttable = TTable::new();
    search_iteration(&board, &mut list, &mut moves, &mut pv, 1, &mut ttable);
    assert!(moves[0].0 == Move::exchange_from_field(black_piece));
    assert_eq!(moves[0].1, -(LOSE - 1));
}

#[test]
fn equal_scores_keep_the_order_of_the_moves() {
    let board = Board::new(GameType::Laurentius, 2);
    let mut moves = root_moves(&board);
    let order: Vec<Move> = board.generate_moves();
    assert!(moves.iter().map(|p| p.0).eq(order.iter().copied()));
    let mut list = vec![];
    let mut pv = None;
    let mut ttable = TTable::new();
    search_iteration(&board, &mut list, &mut moves, &mut pv, 0, &mut ttable);
    let place = |mv: Move| order.iter().position(|&m| m == mv).unwrap();
    let mut ties = 0;
    for pair in moves.windows(2) {
        assert!(pair[0].1 >= pair[1].1);
        if pair[0].1 == pair[1].1 {
            assert!(place(pair[0].0) < place(pair[1].0));
            ties += 1;
        }
    }
    // In the opening no move captures, so every move scores the same.
    assert!(ties > 0);
    assert!(moves[0].0 == order[0]);
}
