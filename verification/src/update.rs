//! What the game does with the events of the interface: clicks on the board, the buttons and the
//! menu, and when the computer is to move.
use vstd::prelude::*;

use crate::model::bitboard as bits;
use crate::model::board::{fields_named, lists_fields, lists_removed_hexes};
use crate::model::tables;
use crate::model::game::{redo_result, reset_result, undo_result, Model};
use crate::model::{opposite, ColorMap, FieldCoord, GameType, Move, Outcome, Player};

verus! {

/// An event of the interface.
#[derive(Clone, Copy, PartialEq, Eq, Structural)]
pub enum Event {
    Click(FieldCoord),
    Exchange,
    NewGame(GameType, ColorMap<Player>),
    Resign,
    Undo,
    Redo,
    Quit,
}

/// What the computer player has to do after an event.
#[derive(Clone, Copy, Debug, PartialEq, Eq, Structural)]
pub enum Action {
    /// The game quits.
    Quit,
    /// The game goes on. `stop_ai`: the computer stops thinking; `reset_ai`: it starts afresh, for
    /// a new game.
    Continue { stop_ai: bool, reset_ai: bool },
    /// The computer is to move: it starts thinking if it is idle, and the move it found, if any,
    /// is played with `play_computer_move`.
    ComputerMove,
}

/// `c` is a field on an extant hex of the board of `model`.
pub open spec fn field_on_board(model: Model, c: FieldCoord) -> bool {
    bits::has_bit(model.board.hex_bits(), c.index())
}

/// The model can take `event`: the fields that a click the game takes (while it is on and a human
/// is to move) reads lie on extant hexes (`click_reads_extant`), a resignation comes while the game is
/// on, and a move can still be counted.
pub open spec fn can_handle(model: Model, event: Event) -> bool {
    &&& model.wf()
    &&& model.ply_count < u64::MAX
    &&& event != Event::Quit
    &&& (model.outcome == Outcome::InProgress && model.current_player_spec() == Player::Human ==> (
    event matches Event::Click(c) ==> click_reads_extant(model, c)))
    &&& (event == Event::Resign ==> model.outcome == Outcome::InProgress)
}

/// The fields that a click on `clicked` reads lie on extant hexes: with a piece selected, a
/// field of the side to move other than the selected one, and then, if it is empty and shares a
/// vertex with the selected piece of the side to move, the selected field; with none selected,
/// a field of the other side clicked to exchange (when the side to move can pay), or a field of
/// the side to move clicked when not exchanging.
pub open spec fn click_reads_extant(model: Model, clicked: FieldCoord) -> bool {
    let turn = model.board.turn;
    match model.selected_piece {
        Some(s) => clicked.spec_color() == turn && s != clicked ==> field_on_board(model, clicked)
            && (!bits::has_bit(model.board.field_bits(clicked.spec_color()), clicked.index())
            && s.spec_color() == turn && bits::has_bit(
            tables::vertex_table(s.spec_color(), s.index() as usize),
            clicked.index(),
        ) ==> field_on_board(model, s)),
        None => {
            &&& model.exchanging && model.board.can_exchange_spec() && clicked.spec_color() != turn
                ==> field_on_board(model, clicked)
            &&& !model.exchanging && clicked.spec_color() == turn ==> field_on_board(
                model,
                clicked,
            )
        },
    }
}

/// Whether `c` is a field on an extant hex of the board of `model` (`field_on_board`).
fn is_field_on_board(model: &Model, c: FieldCoord) -> (r: bool)
    ensures
        r == field_on_board(*model, c),
{
    let bb = c.to_bitboard();
    proof {
        bits::lemma_single_and(bb, model.board.hex_bits());
    }
    bb & model.board.hexes != 0
}

/// Whether the fields that a click on `clicked` reads lie on extant hexes (`click_reads_extant`).
pub fn click_reads_extant_fields(model: &Model, clicked: FieldCoord) -> (r: bool)
    ensures
        r == click_reads_extant(*model, clicked),
{
    let turn = model.board.turn;
    match model.selected_piece {
        Some(s) => {
            if clicked.color() != turn || s == clicked {
                return true;
            }
            if !is_field_on_board(model, clicked) {
                return false;
            }
            let cb = clicked.to_bitboard();
            let sb = s.to_bitboard();
            proof {
                bits::lemma_single_and(cb, model.board.field_bits(clicked.spec_color()));
                bits::lemma_single_and(
                    cb,
                    tables::vertex_table(s.spec_color(), s.index() as usize),
                );
            }
            let empty = cb & *model.board.fields.get_ref(clicked.color()) == 0;
            let si = bits::bit_index(sb) as usize;
            if empty && s.color() == turn && cb & tables::vertex_neighbors(si, s.color()) != 0 {
                is_field_on_board(model, s)
            } else {
                true
            }
        },
        None => {
            let c_color = clicked.color();
            let needs = (model.exchanging && model.board.can_exchange() && c_color != turn) || (
            !model.exchanging && c_color == turn);
            !needs || is_field_on_board(model, clicked)
        },
    }
}

/// What a click on `clicked` does, given whether the move it asks for is legal:
/// - with a piece selected, a click on a field of the other color or on the selected piece drops
///   the selection, a click on another piece of the side to move selects it, and a click on an
///   empty field moves the selected piece there if that is legal and drops the selection;
/// - with nothing selected, while exchanging, a click on a piece of the other side exchanges it if
///   that is legal and ends the exchange; otherwise a click on a piece of the side to move selects
///   it.
pub open spec fn click_result(before: Model, after: Model, clicked: FieldCoord) -> bool {
    let turn = before.board.turn;
    let piece = bits::has_bit(before.board.field_bits(clicked.spec_color()), clicked.index());
    let unchanged_but = |sel: Option<FieldCoord>, exch: bool|
        after == (Model { selected_piece: sel, exchanging: exch, ..before });
    match before.selected_piece {
        Some(selected) => {
            if clicked.spec_color() != turn || selected == clicked {
                unchanged_but(None, before.exchanging)
            } else if piece {
                unchanged_but(Some(clicked), before.exchanging)
            } else {
                moved(before, after, Move::Move(
                    selected.to_bitboard_spec(),
                    clicked.to_bitboard_spec(),
                    selected.spec_color(),
                )) && after.selected_piece is None && after.exchanging == before.exchanging
            }
        },
        None => {
            let mv = Move::Exchange(clicked.to_bitboard_spec(), clicked.spec_color());
            if before.exchanging && before.board.is_legal(mv) {
                moved(before, after, mv) && after.selected_piece is None && !after.exchanging
            } else if !before.exchanging && clicked.spec_color() == turn && piece {
                unchanged_but(Some(clicked), before.exchanging)
            } else {
                after == before
            }
        },
    }
}

/// `after` is `before` with `mv` played by `try_move` if it is legal, and `before` unchanged if
/// not (leaving the selection and the exchange aside).
pub open spec fn moved(before: Model, after: Model, mv: Move) -> bool {
    &&& after.wf()
    &&& after.same_settings(before)
    &&& if before.board.is_legal(mv) {
        &&& after.ply_count == before.ply_count + 1
        &&& after.undo_states() == before.undo_states().push(before.current())
        &&& after.redo_states().len() == 0
        &&& after.board.played(before.board, mv)
        &&& after.last_move is Some && after.last_move->0.mv == mv
        &&& lists_fields(
            after.last_move->0.removed_pieces@,
            before.board.field_bits(opposite(before.board.turn)) ^ after.board.field_bits(
                opposite(before.board.turn),
            ),
            opposite(before.board.turn),
        )
        &&& lists_removed_hexes(
            after.last_move->0.removed_hexes@,
            before.board.hex_bits(),
            after.board.hex_bits(),
        )
        &&& after.outcome == crate::model::game::next_outcome(
            before.outcome,
            before.earlier_boards().push(before.board),
            after.board,
        )
    } else {
        &&& after.board == before.board
        &&& after.ply_count == before.ply_count
        &&& after.last_move == before.last_move
        &&& after.outcome == before.outcome
        &&& after.undo_stack == before.undo_stack
        &&& after.redo_stack == before.redo_stack
    }
}

/// Plays a move that the computer found.
pub fn play_computer_move(model: &mut Model, mv: Move) -> (r: bool)
    requires
        old(model).wf(),
        fields_named(mv),
        old(model).board.fields_read_extant(mv),
        old(model).ply_count < u64::MAX,
    ensures
        r == old(model).board.is_legal(mv),
        moved(*old(model), *final(model), mv),
        final(model).selected_piece == old(model).selected_piece,
        final(model).exchanging == old(model).exchanging,
{
    model.try_move(mv)
}

fn handle_click(model: &mut Model, clicked: FieldCoord)
    requires
        old(model).wf(),
        old(model).ply_count < u64::MAX,
        click_reads_extant(*old(model), clicked),
    ensures
        click_result(*old(model), *final(model), clicked),
{
    match model.selected_piece {
        Some(selected) => {
            if clicked.color() != model.board.turn || selected == clicked {
                model.clear_selection();
            } else if model.board.is_piece_on_field(clicked) {
                model.selected_piece = Some(clicked);
            } else {
                proof {
                    use_type_invariant(&selected);
                    use_type_invariant(&clicked);
                    selected.lemma_bitboard();
                    clicked.lemma_bitboard();
                }
                proof {
                    bits::lemma_single_and(clicked.to_bitboard_spec(), model.board.hex_bits());
                    bits::lemma_single_and(selected.to_bitboard_spec(), model.board.hex_bits());
                    bits::lemma_single_and(
                        selected.to_bitboard_spec(),
                        model.board.field_bits(selected.spec_color()),
                    );
                    bits::lemma_single_and(
                        clicked.to_bitboard_spec(),
                        model.board.field_bits(selected.spec_color()),
                    );
                    bits::lemma_single_and(
                        clicked.to_bitboard_spec(),
                        tables::vertex_table(selected.spec_color(), selected.index() as usize),
                    );
                }
                model.try_move(Move::move_from_field(selected, clicked));
                model.clear_selection();
            }
        },
        None => {
            if model.exchanging {
                proof {
                    use_type_invariant(&clicked);
                    clicked.lemma_bitboard();
                }
                let mv = Move::exchange_from_field(clicked);
                proof {
                    bits::lemma_single_and(clicked.to_bitboard_spec(), model.board.hex_bits());
                }
                if model.try_move(mv) {
                    model.exchanging = false;
                    return ;
                }
            }
            if !model.exchanging && clicked.color() == model.board.turn
                && model.board.is_piece_on_field(clicked) {
                model.selected_piece = Some(clicked);
            }
        },
    }
}

/// Law: what a click on field `c` does while the game is on, by what the board holds there.
/// With a piece `s` of the side to move selected:
/// - a click on a field of the other color, or on `s` itself, drops the selection and leaves the
///   board as it was;
/// - a click on another piece of the side to move selects that piece instead, and leaves the
///   board as it was;
/// - a click on an empty field of the side to move plays the move of `s` there when it is legal
///   (one ply more), leaves the board as it was when it is not, and drops the selection.
/// With nothing selected:
/// - while exchanging, a click on a piece that may legally be exchanged plays the exchange and
///   ends exchanging;
/// - otherwise, a click on a piece of the side to move selects it.
pub proof fn lemma_click_laws(before: Model, after: Model, c: FieldCoord)
    requires
        before.outcome == Outcome::InProgress,
        event_result(before, after, Event::Click(c)),
    ensures
        ({
            let turn = before.board.turn;
            let piece = bits::has_bit(before.board.field_bits(turn), c.index());
            let sel = before.selected_piece;
            let s = sel.unwrap();
            let mv = Move::Move(s.to_bitboard_spec(), c.to_bitboard_spec(), s.spec_color());
            let ex = Move::Exchange(c.to_bitboard_spec(), c.spec_color());
            &&& sel is Some && (c.spec_color() != turn || s == c) ==> after.selected_piece is None
                && after.board == before.board
            &&& sel is Some && c.spec_color() == turn && s != c && piece ==> after.selected_piece
                == Some(c) && after.board == before.board && after.ply_count == before.ply_count
            &&& sel is Some && c.spec_color() == turn && s != c && !piece ==> after.selected_piece
                is None
            &&& sel is Some && c.spec_color() == turn && s != c && !piece && before.board.is_legal(mv)
                ==> after.board.played(before.board, mv) && after.ply_count == before.ply_count + 1
            &&& sel is Some && c.spec_color() == turn && s != c && !piece && !before.board.is_legal(
                mv,
            ) ==> after.board == before.board
            &&& sel is None && before.exchanging && before.board.is_legal(ex) ==> after.board.played(
                before.board,
                ex,
            ) && !after.exchanging && after.selected_piece is None
            &&& sel is None && !before.exchanging && c.spec_color() == turn && piece
                ==> after.selected_piece == Some(c) && after.board == before.board
        }),
{
}

/// Law: what the other events do. A click once the game is over changes nothing. The exchange
/// button, while the game is on and the side to move has collected enough hexes, turns
/// exchanging on or off and drops the selection, leaving the board as it was; otherwise it
/// changes nothing. Resigning leaves the board and gives the game to the other side. A new game
/// starts from the starting position of its type, with the move count back at zero.
pub proof fn lemma_event_laws(before: Model, after: Model, event: Event)
    requires
        event_result(before, after, event),
    ensures
        event is Click && before.outcome != Outcome::InProgress ==> after == before,
        event is Exchange && before.outcome == Outcome::InProgress
            && before.board.vitals.at(before.board.turn).hexes >= before.board.hexes_to_exchange
            ==> after.exchanging != before.exchanging && after.selected_piece is None
            && after.board == before.board && after.outcome == before.outcome,
        event is Exchange && !(before.outcome == Outcome::InProgress
            && before.board.vitals.at(before.board.turn).hexes >= before.board.hexes_to_exchange)
            ==> after == before,
        event is Resign ==> after.board == before.board && after.outcome == Outcome::Win(
            opposite(before.board.turn),
        ),
        event matches Event::NewGame(g, _) ==> after.board.is_start(
            g,
            after.board.hexes_to_exchange,
        ) && after.ply_count == 0 && after.outcome == Outcome::InProgress,
{
}

/// What `event` does to the model:
/// - a click, while the game is on, acts as `click_result` says;
/// - the exchange button, when the side to move can exchange and the game is on, starts or ends
///   an exchange and drops the selection;
/// - a new game starts one (`reset_result`);
/// - resigning saves the position for undo and gives the game to the other side;
/// - undo and redo walk through the history (`undo_result`, `redo_result`).
pub open spec fn event_result(before: Model, after: Model, event: Event) -> bool {
    let on = before.outcome == Outcome::InProgress;
    match event {
        Event::Click(c) => if on {
            click_result(before, after, c)
        } else {
            after == before
        },
        Event::Exchange => if before.board.can_exchange_spec() && on {
            after == (Model { exchanging: !before.exchanging, selected_piece: None, ..before })
        } else {
            after == before
        },
        Event::NewGame(game_type, players) => reset_result(before, after, game_type, players),
        Event::Resign => {
            &&& after.wf()
            &&& after.undo_states() == before.undo_states().push(before.current())
            &&& after.redo_states().len() == 0
            &&& after.board == before.board
            &&& after.last_move == before.last_move
            &&& after.outcome == Outcome::Win(crate::model::opposite(before.board.turn))
            &&& after.same_settings(before)
            &&& after.ply_count == before.ply_count
            &&& after.selected_piece == before.selected_piece
            &&& after.exchanging == before.exchanging
        },
        Event::Undo => undo_result(before, after),
        Event::Redo => redo_result(before, after),
        Event::Quit => after == before,
    }
}

fn handle_event(model: &mut Model, event: &Event)
    requires
        can_handle(*old(model), *event),
        event matches Event::Click(_) ==> old(model).current_player_spec() == Player::Human,
    ensures
        event_result(*old(model), *final(model), *event),
{
    match *event {
        Event::Click(clicked) => {
            if !model.is_game_over() {
                handle_click(model, clicked);
            }
        },
        Event::Exchange => {
            if model.board.can_exchange() && !model.is_game_over() {
                model.exchanging = !model.exchanging;
                model.clear_selection();
            }
        },
        Event::NewGame(game_type, players) => {
            model.reset(game_type, players);
        },
        Event::Resign => {
            model.push_undo_state();
            model.resign();
        },
        Event::Undo => model.undo_move(),
        Event::Redo => model.redo_move(),
        Event::Quit => {},
    }
}

/// Handles the event of one frame of the interface and says what the computer player has to do.
/// `Quit` quits. When a human is to move, the event is handled. When the computer is to move,
/// clicks and the exchange button are ignored; any other event stops the computer and is handled;
/// with no such event, the computer moves unless the game is over. A new game also starts the
/// computer player afresh.
pub fn update(model: &mut Model, event: Option<Event>) -> (r: Action)
    requires
        old(model).wf(),
        old(model).ply_count < u64::MAX,
        event matches Some(e) ==> e == Event::Quit || can_handle(*old(model), e),
    ensures
        event == Some(Event::Quit) ==> r == Action::Quit && *final(model) == *old(model),
        event != Some(Event::Quit) && old(model).current_player_spec() == Player::Human ==> (
        match event {
            Some(e) => event_result(*old(model), *final(model), e) && r == (Action::Continue {
                stop_ai: false,
                reset_ai: e is NewGame,
            }),
            None => *final(model) == *old(model) && r == (Action::Continue {
                stop_ai: false,
                reset_ai: false,
            }),
        }),
        event != Some(Event::Quit) && old(model).current_player_spec() == Player::Computer ==> (
        match event {
            Some(e) if !(e is Click || e is Exchange) => event_result(*old(model), *final(model), e)
                && r == (Action::Continue { stop_ai: true, reset_ai: e is NewGame }),
            _ => *final(model) == *old(model) && r == if old(model).outcome
                == Outcome::InProgress {
                Action::ComputerMove
            } else {
                Action::Continue { stop_ai: false, reset_ai: false }
            },
        }),
{
    if let Some(Event::Quit) = event {
        return Action::Quit;
    }

    match model.current_player() {
        Player::Human => {
            if let Some(e) = event {
                handle_event(model, &e);
                let reset_ai = match e {
                    Event::NewGame(_, _) => true,
                    _ => false,
                };
                return Action::Continue { stop_ai: false, reset_ai };
            }
            Action::Continue { stop_ai: false, reset_ai: false }
        },
        Player::Computer => {
            if let Some(e) = event {
                match e {
                    Event::Click(_) | Event::Exchange => {},
                    _ => {
                        handle_event(model, &e);
                        let reset_ai = match e {
                            Event::NewGame(_, _) => true,
                            _ => false,
                        };
                        return Action::Continue { stop_ai: true, reset_ai };
                    },
                }
            }
            if !model.is_game_over() {
                Action::ComputerMove
            } else {
                Action::Continue { stop_ai: false, reset_ai: false }
            }
        },
    }
}

} // verus!
