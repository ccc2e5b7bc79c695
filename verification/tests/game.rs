use coerceo::model::board::Board;
use coerceo::model::game::Model;
use coerceo::model::{Color, ColorMap, FieldCoord, GameType, Move, Outcome, Player};
use coerceo::update::{click_reads_extant_fields, update, Action, Event};

fn humans() -> ColorMap<Player> {
    ColorMap::new(Player::Human, Player::Human)
}

// Fields named as in the notation of the README: d1e, d1c (white) and b3f, c4b (black).
fn d1e() -> FieldCoord {
    FieldCoord::new(1, -2, 1)
}
fn d1c() -> FieldCoord {
    FieldCoord::new(1, -2, 3)
}
fn b3f() -> FieldCoord {
    FieldCoord::new(-1, 1, 0)
}
fn c4b() -> FieldCoord {
    FieldCoord::new(0, 1, 4)
}

#[test]
fn notation_of_fields_and_moves() {
    assert_eq!(d1e().to_notation(), "d1e");
    assert_eq!(b3f().to_notation(), "b3f");
    // The center tile is c3; the top field of the bottom-right tile is e1f.
    assert_eq!(FieldCoord::new(0, 0, 0).to_notation(), "c3f");
    assert_eq!(FieldCoord::new(2, -2, 0).to_notation(), "e1f");
    assert_eq!(FieldCoord::new(-2, 2, 5).to_notation(), "a3a");
    assert_eq!(FieldCoord::new(0, 2, 2).to_notation(), "c5d");

    assert_eq!(Move::move_from_field(d1e(), d1c()).to_notation(), "Move(d1e, d1c)");
    assert_eq!(Move::move_from_field(b3f(), c4b()).to_notation(), "Move(b3f, c4b)");
    assert_eq!(
        Move::exchange_from_field(FieldCoord::new(-2, 2, 0)).to_notation(),
        "Exchange(a3f)"
    );
}

#[test]
fn new_model_starts_the_game() {
    let model = Model::new(GameType::Laurentius, humans());
    assert!(model.board == Board::new(GameType::Laurentius, 2));
    assert_eq!(model.outcome, Outcome::InProgress);
    assert_eq!(model.ply_count, 0);
    assert_eq!(model.ai_search_depth, 6);
    assert!(!model.can_undo());
    assert!(!model.can_redo());
    assert_eq!(model.current_player(), Player::Human);
    assert_eq!(model.board_list().len(), 1);
}

#[test]
fn illegal_move_changes_nothing() {
    let mut model = Model::new(GameType::Laurentius, humans());
    // A black move while white is to move.
    assert!(!model.try_move(Move::move_from_field(b3f(), c4b())));
    assert_eq!(model.ply_count, 0);
    assert!(!model.can_undo());
    assert!(model.board == Board::new(GameType::Laurentius, 2));
}

#[test]
fn undo_takes_back_a_move_and_redo_plays_it_again() {
    let mut model = Model::new(GameType::Laurentius, humans());
    let start = model.board;
    assert!(model.try_move(Move::move_from_field(d1e(), d1c())));
    let after = model.board;
    assert_eq!(model.ply_count, 1);
    assert_eq!(after.turn, Color::Black);
    assert!(model.can_undo());
    assert!(model.last_move.as_ref().unwrap().mv == Move::move_from_field(d1e(), d1c()));

    model.undo_move();
    assert!(model.board == start);
    assert!(model.last_move.is_none());
    assert_eq!(model.outcome, Outcome::InProgress);
    assert!(!model.can_undo());
    assert!(model.can_redo());

    model.redo_move();
    assert!(model.board == after);
    assert!(model.can_undo());
    assert!(!model.can_redo());
}

#[test]
fn undo_skips_the_moves_of_the_computer() {
    let mut model = Model::new(GameType::Laurentius, ColorMap::new(Player::Human, Player::Computer));
    let start = model.board;
    assert!(model.try_move(Move::move_from_field(d1e(), d1c())));
    assert!(model.try_move(Move::move_from_field(b3f(), c4b())));
    let after = model.board;
    // Back to the last position with the human to move: the start.
    model.undo_move();
    assert!(model.board == start);
    model.redo_move();
    assert!(model.board == after);
}

#[test]
fn threefold_repetition_draws() {
    let mut model = Model::new(GameType::Laurentius, humans());
    let moves = [
        Move::move_from_field(d1e(), d1c()),
        Move::move_from_field(b3f(), c4b()),
        Move::move_from_field(d1c(), d1e()),
        Move::move_from_field(c4b(), b3f()),
    ];
    for i in 0..7 {
        assert!(model.try_move(moves[i % 4]));
        assert_eq!(model.outcome, Outcome::InProgress);
    }
    assert!(model.try_move(moves[3]));
    assert_eq!(model.outcome, Outcome::DrawThreefoldRepetition);
    assert!(model.is_game_over());
}

#[test]
fn resign_gives_the_game_to_the_other_side() {
    let mut model = Model::new(GameType::Ocius, humans());
    assert_eq!(update(&mut model, Some(Event::Resign)), Action::Continue { stop_ai: false, reset_ai: false });
    assert_eq!(model.outcome, Outcome::Win(Color::Black));
    assert!(model.is_game_over());
    // Resigning can be undone.
    update(&mut model, Some(Event::Undo));
    assert_eq!(model.outcome, Outcome::InProgress);
}

#[test]
fn clicks_select_and_move() {
    let mut model = Model::new(GameType::Laurentius, humans());
    // Clicking an empty field selects nothing.
    update(&mut model, Some(Event::Click(d1c())));
    assert!(model.selected_piece.is_none());
    // Clicking a piece of the side to move selects it.
    update(&mut model, Some(Event::Click(d1e())));
    assert!(model.selected_piece == Some(d1e()));
    // Clicking the selected piece again drops the selection.
    update(&mut model, Some(Event::Click(d1e())));
    assert!(model.selected_piece.is_none());
    // Select and click an empty field that the piece can reach: the move is played.
    update(&mut model, Some(Event::Click(d1e())));
    update(&mut model, Some(Event::Click(d1c())));
    assert!(model.selected_piece.is_none());
    assert_eq!(model.board.turn, Color::Black);
    assert!(model.board.is_piece_on_field(d1c()));
    assert!(!model.board.is_piece_on_field(d1e()));
}

#[test]
fn exchange_needs_captured_hexes() {
    let mut model = Model::new(GameType::Laurentius, humans());
    update(&mut model, Some(Event::Exchange));
    assert!(!model.exchanging);
    model.board.vitals.white.hexes = 2;
    update(&mut model, Some(Event::Exchange));
    assert!(model.exchanging);
    // Exchange for a black piece.
    update(&mut model, Some(Event::Click(b3f())));
    assert!(!model.exchanging);
    assert!(!model.board.is_piece_on_field(b3f()));
    assert_eq!(model.board.vitals.white.hexes, 0);
    assert_eq!(model.board.vitals.black.pieces, 17);
}

#[test]
fn quit_quits() {
    let mut model = Model::new(GameType::Laurentius, humans());
    assert_eq!(update(&mut model, Some(Event::Quit)), Action::Quit);
}

#[test]
fn computer_moves_on_its_turn() {
    let mut model = Model::new(GameType::Laurentius, ColorMap::new(Player::Computer, Player::Human));
    assert_eq!(update(&mut model, None), Action::ComputerMove);
    // Clicks are ignored while the computer is to move.
    assert_eq!(update(&mut model, Some(Event::Click(d1e()))), Action::ComputerMove);
    assert!(model.selected_piece.is_none());
    // A new game stops the computer and starts it afresh.
    let players = ColorMap::new(Player::Human, Player::Human);
    assert_eq!(
        update(&mut model, Some(Event::NewGame(GameType::Ocius, players))),
        Action::Continue { stop_ai: true, reset_ai: true }
    );
    assert!(model.board == Board::new(GameType::Ocius, 2));
}

#[test]
fn new_game_uses_the_exchange_rule() {
    let mut model = Model::new(GameType::Laurentius, humans());
    model.exchange_one_hex = true;
    model.reset(GameType::Ocius, humans());
    assert_eq!(model.board.hexes_to_exchange, 1);
    assert!(model.board == Board::new(GameType::Ocius, 1));
}

#[test]
fn clicks_on_removed_hexes_are_told_apart() {
    let mut model = Model::new(GameType::Ocius, humans());
    // A white field of the outer ring is gone on the small board; a white field of the centre is not.
    let outer = FieldCoord::new(2, 0, 1);
    let centre = FieldCoord::new(0, 0, 1);
    assert!(!model.board.is_hex_extant(outer.to_hex().to_index()));
    assert!(!click_reads_extant_fields(&model, outer));
    assert!(click_reads_extant_fields(&model, centre));
    // A black field is not read while nothing is selected and no exchange is under way.
    assert!(click_reads_extant_fields(&model, FieldCoord::new(2, 0, 0)));
    // With a piece selected, a click on a field of the other color reads nothing.
    model.selected_piece = Some(centre);
    assert!(click_reads_extant_fields(&model, FieldCoord::new(2, 0, 0)));
    assert!(!click_reads_extant_fields(&model, outer));
}

#[test]
fn piece_counts_count_the_fields_that_hold_pieces() {
    for game_type in [GameType::Laurentius, GameType::Ocius] {
        let board = Board::new(game_type, 2);
        for color in [Color::White, Color::Black] {
            let mut n: u8 = 0;
            for k in 0..57u8 {
                let field = FieldCoord::from_index(k, color);
                if board.is_hex_extant(field.to_hex().to_index()) && board.is_piece_on_field(field) {
                    n += 1;
                }
            }
            assert_eq!(n, board.pieces(color));
        }
    }
}
