use coerceo::model::board::Board;
use coerceo::model::GameType;

fn perft(board: &Board, depth: u8) -> u64 {
    if depth == 0 {
        1
    } else {
        let mut sum = 0;
        for mv in board.generate_moves() {
            let mut new_board = *board;
            new_board.apply_move(&mv);
            sum += perft(&new_board, depth - 1);
        }
        sum
    }
}

// All of the following perft results have not been verified by an external source. They only test
// for consistency with earlier versions of the program.

#[test]
fn laurentius_perft_4() {
    let counts = [48, 2304, 110304, 5280654];
    let board = Board::new(GameType::Laurentius, 2);

    for (i, &count) in counts.iter().enumerate() {
        assert_eq!(count, perft(&board, i as u8 + 1));
    }
}

#[test]
fn ocius_perft_5() {
    let counts = [26, 676, 17234, 435572, 10739924];
    let board = Board::new(GameType::Ocius, 2);

    for (i, &count) in counts.iter().enumerate() {
        assert_eq!(count, perft(&board, i as u8 + 1));
    }
}
