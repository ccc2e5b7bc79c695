//! The state of a game in progress: the board, who plays each side, the selection of the user,
//! the outcome, and the history that undo and redo walk through.
use vstd::prelude::*;

use crate::model::board::{
    fields_named, lemma_applicable_legal, lists_fields, lists_removed_hexes, outcome_of, Board,
};
use crate::model::history::{
    count_occurrences, positions_since_irreversible, repeated, since_irreversible,
};
use crate::model::{
    ColorMap, FieldCoord, GameType, HexCoord, Move, MoveAnnotated, Outcome, Player, WindowStates,
};

verus! {

/// What a move annotation holds: the move, the pieces it captured and the hexes it removed.
pub open spec fn annotation_view(m: Option<MoveAnnotated>) -> Option<
    (Move, Seq<FieldCoord>, Seq<HexCoord>),
> {
    match m {
        Some(a) => Some((a.mv, a.removed_pieces@, a.removed_hexes@)),
        None => None,
    }
}

/// A position of the history as it is viewed: the board, the last move played on it and the
/// outcome of the game.
pub type SnapshotView = (Board, Option<(Move, Seq<FieldCoord>, Seq<HexCoord>)>, Outcome);

/// The view of a stored snapshot.
pub open spec fn snapshot_view(s: (Board, Option<MoveAnnotated>, Outcome)) -> SnapshotView {
    (s.0, annotation_view(s.1), s.2)
}

/// What undo (or redo) does to the history: the snapshot on top of `from` becomes current and
/// the current one goes on top of `to`, again and again until a position with a human to move
/// comes up or `from` runs out. The result is the new current snapshot, `from` and `to`.
pub open spec fn transfer(
    cur: SnapshotView,
    from: Seq<SnapshotView>,
    to: Seq<SnapshotView>,
    players: ColorMap<Player>,
) -> (SnapshotView, Seq<SnapshotView>, Seq<SnapshotView>)
    decreases from.len(),
{
    if from.len() == 0 {
        (cur, from, to)
    } else if players.at(from.last().0.turn) == Player::Human {
        (from.last(), from.drop_last(), to.push(cur))
    } else {
        transfer(from.last(), from.drop_last(), to.push(cur), players)
    }
}

/// The outcome after a move: once the game is over it stays over; else a position that occurred
/// twice before since the last irreversible move draws by repetition, and otherwise the board
/// decides.
pub open spec fn next_outcome(outcome: Outcome, earlier: Seq<Board>, board: Board) -> Outcome {
    if outcome != Outcome::InProgress {
        outcome
    } else if repeated(since_irreversible(earlier, board), board) {
        Outcome::DrawThreefoldRepetition
    } else {
        outcome_of(board)
    }
}

/// `b` stands at two different places of `list`.
pub open spec fn stands_twice(list: Seq<Board>, b: Board) -> bool {
    exists|i: int, j: int| 0 <= i < j < list.len() && #[trigger] list[i] == b && #[trigger] list[j] == b
}

/// `b` stands somewhere in `list`.
pub open spec fn stands_once(list: Seq<Board>, b: Board) -> bool {
    exists|i: int| 0 <= i < list.len() && #[trigger] list[i] == b
}

/// Counting occurrences: `b` occurs at least once exactly when it stands in `list`, and at least
/// twice exactly when it stands at two places.
proof fn lemma_occurrences_places(list: Seq<Board>, b: Board)
    ensures
        (crate::model::history::occurrences(list, b) >= 1) == stands_once(list, b),
        (crate::model::history::occurrences(list, b) >= 2) == stands_twice(list, b),
    decreases list.len(),
{
    if list.len() > 0 {
        let t = list.drop_last();
        let n = list.len() - 1;
        lemma_occurrences_places(t, b);
        if stands_once(t, b) {
            let i = choose|i: int| 0 <= i < t.len() && #[trigger] t[i] == b;
            assert(list[i] == b);
        }
        if stands_once(list, b) {
            let i = choose|i: int| 0 <= i < list.len() && #[trigger] list[i] == b;
            if i < n {
                assert(t[i] == b);
            }
        }
        if stands_twice(t, b) {
            let (i, j) = choose|i: int, j: int|
                0 <= i < j < t.len() && #[trigger] t[i] == b && #[trigger] t[j] == b;
            assert(list[i] == b && list[j] == b);
        }
        if stands_once(t, b) && list[n] == b {
            let i = choose|i: int| 0 <= i < t.len() && #[trigger] t[i] == b;
            assert(list[i] == b && list[n] == b);
        }
        if stands_twice(list, b) {
            let (i, j) = choose|i: int, j: int|
                0 <= i < j < list.len() && #[trigger] list[i] == b && #[trigger] list[j] == b;
            if j < n {
                assert(t[i] == b && t[j] == b);
            } else {
                assert(t[i] == b);
            }
        }
    }
}

/// Law: after a move in a game in progress, the game is drawn by threefold repetition exactly
/// when the new position stood twice before among the positions since the last irreversible move
/// (it now stands for the third time), and at least eight such positions went before; a position
/// that stood there only once before draws nothing. A game that is over stays over.
pub proof fn lemma_threefold_repetition(outcome: Outcome, earlier: Seq<Board>, board: Board)
    ensures
        outcome != Outcome::InProgress ==> next_outcome(outcome, earlier, board) == outcome,
        outcome == Outcome::InProgress ==> ((next_outcome(outcome, earlier, board)
            == Outcome::DrawThreefoldRepetition) <==> (since_irreversible(earlier, board).len() >= 8
            && stands_twice(since_irreversible(earlier, board), board))),
        outcome == Outcome::InProgress && !stands_twice(since_irreversible(earlier, board), board)
            ==> next_outcome(outcome, earlier, board) == outcome_of(board),
{
    lemma_occurrences_places(since_irreversible(earlier, board), board);
    crate::model::board::lemma_outcome_cases(board);
}

// ---------------------------------------------------------------------------------------------
// Undo and redo
// ---------------------------------------------------------------------------------------------

/// `s` in reverse order.
pub open spec fn reversed(s: Seq<SnapshotView>) -> Seq<SnapshotView>
    decreases s.len(),
{
    if s.len() == 0 {
        s
    } else {
        reversed(s.drop_first()).push(s[0])
    }
}

/// In every position of `s` the computer is to move.
pub open spec fn computer_to_move(s: Seq<SnapshotView>, players: ColorMap<Player>) -> bool {
    forall|i: int| 0 <= i < s.len() ==> players.at((#[trigger] s[i]).0.turn) == Player::Computer
}

proof fn lemma_reversed_push(s: Seq<SnapshotView>, a: SnapshotView)
    ensures
        reversed(s.push(a)) == seq![a] + reversed(s),
    decreases s.len(),
{
    if s.len() == 0 {
        assert(s.push(a).drop_first() == s);
        assert(s.push(a) == seq![a]);
        assert(reversed(s) == s);
        assert(s.push(a)[0] == a);
        assert(reversed(s.push(a)) == s.push(a));
        assert(seq![a] + reversed(s) == seq![a]);
    } else {
        assert(s.push(a).drop_first() == s.drop_first().push(a));
        lemma_reversed_push(s.drop_first(), a);
    }
}

/// Walking back over positions with the computer to move until a position with a human to move
/// comes up.
proof fn lemma_transfer_back(
    x: SnapshotView,
    r: Seq<SnapshotView>,
    c: SnapshotView,
    p: Seq<SnapshotView>,
    v: Seq<SnapshotView>,
    players: ColorMap<Player>,
)
    requires
        players.at(c.0.turn) == Player::Human,
        computer_to_move(p, players),
    ensures
        transfer(x, r.push(c) + reversed(p), v, players) == (c, r, v.push(x) + p),
    decreases p.len(),
{
    if p.len() == 0 {
        assert(r.push(c) + reversed(p) == r.push(c));
        assert(r.push(c).drop_last() == r);
        assert(v.push(x) + p == v.push(x));
    } else {
        let src = r.push(c) + reversed(p);
        assert(src == (r.push(c) + reversed(p.drop_first())).push(p[0]));
        assert(src.drop_last() == r.push(c) + reversed(p.drop_first()));
        assert(src.last() == p[0]);
        assert(players.at(p[0].0.turn) == Player::Computer);
        assert(computer_to_move(p.drop_first(), players)) by {
            assert forall|i: int| 0 <= i < p.drop_first().len() implies players.at(
                (#[trigger] p.drop_first()[i]).0.turn,
            ) == Player::Computer by {
                assert(p.drop_first()[i] == p[i + 1]);
            }
        }
        lemma_transfer_back(p[0], r, c, p.drop_first(), v.push(x), players);
        assert(v.push(x).push(p[0]) + p.drop_first() == v.push(x) + p);
    }
}

/// What undo (or redo) does when `from` is not empty: it takes the current position `c` and the
/// positions with the computer to move on top of `from`, in reverse order, over to `to`.
proof fn lemma_transfer_shape(
    c: SnapshotView,
    u: Seq<SnapshotView>,
    r: Seq<SnapshotView>,
    players: ColorMap<Player>,
)
    requires
        u.len() > 0,
    ensures
        ({
            let t = transfer(c, u, r, players);
            exists|p: Seq<SnapshotView>|
                #![trigger reversed(p)]
                computer_to_move(p, players) && u == t.1.push(t.0) + p && t.2 == r.push(c)
                    + reversed(p)
        }),
    decreases u.len(),
{
    let t = transfer(c, u, r, players);
    let a = u.last();
    let empty = Seq::<SnapshotView>::empty();
    if players.at(a.0.turn) == Player::Human || u.len() == 1 {
        if players.at(a.0.turn) != Player::Human {
            assert(transfer(a, u.drop_last(), r.push(c), players) == (
                a,
                u.drop_last(),
                r.push(c),
            ));
        }
        assert(u == u.drop_last().push(a));
        assert(u == t.1.push(t.0) + empty);
        assert(t.2 == r.push(c) + reversed(empty));
    } else {
        lemma_transfer_shape(a, u.drop_last(), r.push(c), players);
        let t2 = transfer(a, u.drop_last(), r.push(c), players);
        assert(t2 == t);
        let q = choose|q: Seq<SnapshotView>|
            #![trigger reversed(q)]
            computer_to_move(q, players) && u.drop_last() == t.1.push(t.0) + q && t.2 == r.push(
                c,
            ).push(a) + reversed(q);
        lemma_reversed_push(q, a);
        let p = q.push(a);
        assert(computer_to_move(p, players)) by {
            assert forall|i: int| 0 <= i < p.len() implies players.at(
                (#[trigger] p[i]).0.turn,
            ) == Player::Computer by {
                if i < q.len() {
                    assert(p[i] == q[i]);
                }
            }
        }
        assert(u == u.drop_last().push(a));
        assert((t.1.push(t.0) + q).push(a) == t.1.push(t.0) + p);
        assert(u == t.1.push(t.0) + p);
        assert(r.push(c).push(a) + reversed(q) == r.push(c) + (seq![a] + reversed(q)));
        assert(t.2 == r.push(c) + reversed(p));
    }
}

/// Redo takes back what undo did: from a position with a human to move and something to undo,
/// undoing and then redoing gives back the same position, and the same history both ways.
/// (Undo after redo is the same law with the two histories swapped.)
pub proof fn lemma_redo_after_undo(
    cur: SnapshotView,
    undo: Seq<SnapshotView>,
    redo: Seq<SnapshotView>,
    players: ColorMap<Player>,
)
    requires
        players.at(cur.0.turn) == Player::Human,
        undo.len() > 0,
    ensures
        ({
            let u = transfer(cur, undo, redo, players);
            transfer(u.0, u.2, u.1, players) == (cur, redo, undo)
        }),
{
    let u = transfer(cur, undo, redo, players);
    lemma_transfer_shape(cur, undo, redo, players);
    let p = choose|p: Seq<SnapshotView>|
        #![trigger reversed(p)]
        computer_to_move(p, players) && undo == u.1.push(u.0) + p && u.2 == redo.push(cur)
            + reversed(p);
    lemma_transfer_back(u.0, redo, cur, p, u.1, players);
}

/// Undo takes back a move: after a human plays a move, undo gives back the position, the last
/// move and the outcome from before the move, and the history before it.
pub proof fn lemma_undo_after_move(
    cur: SnapshotView,
    after: SnapshotView,
    undo: Seq<SnapshotView>,
    players: ColorMap<Player>,
)
    requires
        players.at(cur.0.turn) == Player::Human,
    ensures
        transfer(after, undo.push(cur), Seq::empty(), players) == (
            cur,
            undo,
            seq![after],
        ),
{
    assert(undo.push(cur).drop_last() == undo);
    assert(Seq::<SnapshotView>::empty().push(after) == seq![after]);
}

/// `after` is a new game of `game_type` between `players`, started from `before`: an exchange
/// costs one hex if that rule was chosen, else two, and the other settings stay.
pub open spec fn reset_result(
    before: Model,
    after: Model,
    game_type: GameType,
    players: ColorMap<Player>,
) -> bool {
    &&& after.wf()
    &&& after.game_type == game_type
    &&& after.players == players
    &&& after.board.is_start(game_type, if before.exchange_one_hex { 1 } else { 2 })
    &&& after.exchange_one_hex == before.exchange_one_hex
    &&& after.ai_search_depth == before.ai_search_depth
    &&& after.window_states == before.window_states
    &&& after.ply_count == 0
    &&& after.selected_piece is None
    &&& after.last_move is None
    &&& !after.exchanging
    &&& after.outcome == Outcome::InProgress
    &&& after.undo_states().len() == 0
    &&& after.redo_states().len() == 0
}

/// `after` is `before` with the history walked through by `transfer`, back (undo) or forward
/// (redo); the selection and an exchange in progress are dropped if anything moved.
pub open spec fn walked(before: Model, after: Model, back: bool) -> bool {
    let from = if back { before.undo_states() } else { before.redo_states() };
    let to = if back { before.redo_states() } else { before.undo_states() };
    let t = transfer(before.current(), from, to, before.players);
    &&& after.wf()
    &&& after.current() == t.0
    &&& (if back { after.undo_states() } else { after.redo_states() }) == t.1
    &&& (if back { after.redo_states() } else { after.undo_states() }) == t.2
    &&& from.len() > 0 ==> after.selected_piece is None && !after.exchanging
    &&& from.len() == 0 ==> after.selected_piece == before.selected_piece && after.exchanging
        == before.exchanging
    &&& after.same_settings(before)
    &&& after.ply_count == before.ply_count
}

/// `after` is `before` after an undo.
pub open spec fn undo_result(before: Model, after: Model) -> bool {
    walked(before, after, true)
}

/// `after` is `before` after a redo.
pub open spec fn redo_result(before: Model, after: Model) -> bool {
    walked(before, after, false)
}

pub struct Model {
    pub game_type: GameType,
    pub board: Board,
    pub exchange_one_hex: bool,
    pub ply_count: u64,
    pub players: ColorMap<Player>,
    pub selected_piece: Option<FieldCoord>,
    pub last_move: Option<MoveAnnotated>,
    pub exchanging: bool,
    pub ai_search_depth: i32,
    pub window_states: WindowStates,
    pub outcome: Outcome,
    pub undo_stack: Vec<(Board, Option<MoveAnnotated>, Outcome)>,
    pub redo_stack: Vec<(Board, Option<MoveAnnotated>, Outcome)>,
}

impl Model {
    /// The positions that undo goes back to, the latest last.
    pub open spec fn undo_states(self) -> Seq<SnapshotView> {
        self.undo_stack@.map_values(|s: (Board, Option<MoveAnnotated>, Outcome)| snapshot_view(s))
    }

    /// The positions that redo goes forward to, the next one last.
    pub open spec fn redo_states(self) -> Seq<SnapshotView> {
        self.redo_stack@.map_values(|s: (Board, Option<MoveAnnotated>, Outcome)| snapshot_view(s))
    }

    /// Every board of the game, the current one and those of its history, is well formed.
    pub open spec fn wf(self) -> bool {
        &&& self.board.wf()
        &&& forall|i: int| 0 <= i < self.undo_stack@.len() ==> (#[trigger] self.undo_stack@[i]).0.wf()
        &&& forall|i: int| 0 <= i < self.redo_stack@.len() ==> (#[trigger] self.redo_stack@[i]).0.wf()
    }

    /// The boards of the positions before the current one, oldest first.
    pub open spec fn earlier_boards(self) -> Seq<Board> {
        self.undo_states().map_values(|s: SnapshotView| s.0)
    }

    pub fn new(game_type: GameType, players: ColorMap<Player>) -> (r: Self)
        ensures
            r.wf(),
            r.game_type == game_type,
            r.board.is_start(game_type, 2),
            !r.exchange_one_hex,
            r.ply_count == 0,
            r.players == players,
            r.selected_piece is None,
            r.last_move is None,
            !r.exchanging,
            r.ai_search_depth == 6,
            !r.window_states.about && !r.window_states.ai_debug && !r.window_states.how_to_play,
            r.outcome == Outcome::InProgress,
            r.undo_states().len() == 0,
            r.redo_states().len() == 0,
    {
        Self {
            game_type,
            board: Board::new(game_type, 2),
            exchange_one_hex: false,
            ply_count: 0,
            players,
            selected_piece: None,
            last_move: None,
            exchanging: false,
            ai_search_depth: 6,
            window_states: WindowStates::default(),
            outcome: Outcome::InProgress,
            undo_stack: Vec::new(),
            redo_stack: Vec::new(),
        }
    }
}

impl Model {
    /// The current position as it is viewed.
    pub open spec fn current(self) -> SnapshotView {
        (self.board, annotation_view(self.last_move), self.outcome)
    }

    /// The two models agree on the settings of the game: its kind, the players, the rules for the
    /// next game, the search depth and the open windows.
    pub open spec fn same_settings(self, other: Model) -> bool {
        &&& self.game_type == other.game_type
        &&& self.exchange_one_hex == other.exchange_one_hex
        &&& self.players == other.players
        &&& self.ai_search_depth == other.ai_search_depth
        &&& self.window_states == other.window_states
    }
}

/// A copy of a move annotation.
fn clone_annotation(m: &Option<MoveAnnotated>) -> (r: Option<MoveAnnotated>)
    ensures
        annotation_view(r) == annotation_view(*m),
{
    match m {
        Some(a) => Some(a.clone()),
        None => None,
    }
}

impl Model {
    /// Starts a new game of `game_type` between `players`. An exchange costs one hex if the rule
    /// for it was chosen, else two.
    pub fn reset(&mut self, game_type: GameType, players: ColorMap<Player>)
        ensures
            reset_result(*old(self), *final(self), game_type, players),
    {
        self.game_type = game_type;
        self.players = players;

        let exchange_hex_count: u8 = if self.exchange_one_hex {
            1
        } else {
            2
        };
        self.board = Board::new(game_type, exchange_hex_count);
        self.ply_count = 0;
        self.selected_piece = None;
        self.last_move = None;
        self.exchanging = false;
        self.outcome = Outcome::InProgress;
        self.undo_stack.clear();
        self.redo_stack.clear();
    }

    /// Plays `mv` if it is legal: the position is saved for undo, the move is played and
    /// annotated with the pieces and hexes it removed, and the outcome is brought up to date. Returns whether the move was played.
    pub fn try_move(&mut self, mv: Move) -> (r: bool)
        requires
            old(self).wf(),
            fields_named(mv),
            old(self).board.fields_read_extant(mv),
            old(self).ply_count < u64::MAX,
        ensures
            r == old(self).board.is_legal(mv),
            final(self).wf(),
            !r ==> *final(self) == *old(self),
            r ==> final(self).ply_count == old(self).ply_count + 1,
            r ==> final(self).undo_states() == old(self).undo_states().push(old(self).current()),
            r ==> final(self).redo_states().len() == 0,
            r ==> final(self).board.played(old(self).board, mv),
            r ==> final(self).last_move is Some && final(self).last_move->0.mv == mv,
            r ==> lists_fields(
                final(self).last_move->0.removed_pieces@,
                old(self).board.field_bits(crate::model::opposite(old(self).board.turn))
                    ^ final(self).board.field_bits(crate::model::opposite(old(self).board.turn)),
                crate::model::opposite(old(self).board.turn),
            ),
            r ==> lists_removed_hexes(
                final(self).last_move->0.removed_hexes@,
                old(self).board.hex_bits(),
                final(self).board.hex_bits(),
            ),
            r ==> final(self).outcome == next_outcome(
                old(self).outcome,
                old(self).earlier_boards().push(old(self).board),
                final(self).board,
            ),
            final(self).same_settings(*old(self)),
            final(self).selected_piece == old(self).selected_piece,
            final(self).exchanging == old(self).exchanging,
    {
        proof {
            lemma_applicable_legal(self.board, mv);
        }
        if self.board.can_apply_move(&mv) {
            self.ply_count = self.ply_count + 1;
            self.push_undo_state();
            let annotated = self.board.annotated_apply_move(&mv);
            self.last_move = Some(annotated);
            proof {
                assert(self.earlier_boards() == old(self).earlier_boards().push(old(self).board));
            }
            self.update_outcome();
            true
        } else {
            false
        }
    }

    /// Undo is offered unless the computer plays both sides, when there is a position to go
    /// back to.
    pub fn can_undo(&self) -> (r: bool)
        ensures
            r == (!(self.players.white == Player::Computer && self.players.black
                == Player::Computer) && self.undo_states().len() > 0),
    {
        let comp_v_comp = self.players.white == Player::Computer && self.players.black
            == Player::Computer;
        !comp_v_comp && self.undo_stack.len() > 0
    }

    /// Redo is offered unless the computer plays both sides, when there is a position to go
    /// forward to.
    pub fn can_redo(&self) -> (r: bool)
        ensures
            r == (!(self.players.white == Player::Computer && self.players.black
                == Player::Computer) && self.redo_states().len() > 0),
    {
        let comp_v_comp = self.players.white == Player::Computer && self.players.black
            == Player::Computer;
        !comp_v_comp && self.redo_stack.len() > 0
    }

    /// Saves the current position for undo; what could be redone is dropped.
    pub fn push_undo_state(&mut self)
        requires
            old(self).wf(),
        ensures
            final(self).wf(),
            final(self).undo_states() == old(self).undo_states().push(old(self).current()),
            final(self).redo_states().len() == 0,
            final(self).board == old(self).board,
            final(self).last_move == old(self).last_move,
            final(self).outcome == old(self).outcome,
            final(self).same_settings(*old(self)),
            final(self).ply_count == old(self).ply_count,
            final(self).selected_piece == old(self).selected_piece,
            final(self).exchanging == old(self).exchanging,
    {
        let last_move = clone_annotation(&self.last_move);
        let ghost before = self.undo_stack@;
        self.undo_stack.push((self.board, last_move, self.outcome));
        self.redo_stack.clear();
        proof {
            let f = |s: (Board, Option<MoveAnnotated>, Outcome)| snapshot_view(s);
            assert(self.undo_stack@.map_values(f) == before.map_values(f).push(old(self).current()));
        }
    }

    /// The boards of the game so far, the current one last.
    pub fn board_list(&self) -> (r: Vec<Board>)
        ensures
            r@ == self.earlier_boards().push(self.board),
    {
        let mut r: Vec<Board> = Vec::new();
        let mut i: usize = 0;
        while i < self.undo_stack.len()
            invariant
                i <= self.undo_stack@.len(),
                r@ == self.earlier_boards().subrange(0, i as int),
            decreases self.undo_stack@.len() - i,
        {
            r.push(self.undo_stack[i].0);
            i = i + 1;
        }
        assert(r@ == self.earlier_boards());
        r.push(self.board);
        r
    }

    pub fn clear_selection(&mut self)
        ensures
            *final(self) == (Model { selected_piece: None, ..*old(self) }),
    {
        self.selected_piece = None;
    }

    /// Who is to move.
    pub open spec fn current_player_spec(self) -> Player {
        self.players.at(self.board.turn)
    }

    /// Who is to move.
    pub fn current_player(&self) -> (r: Player)
        ensures
            r == self.current_player_spec(),
    {
        self.players.get(self.board.turn)
    }

    /// Brings the outcome up to date after a move: see `next_outcome`.
    pub fn update_outcome(&mut self)
        requires
            old(self).wf(),
        ensures
            *final(self) == (Model {
                outcome: next_outcome(old(self).outcome, old(self).earlier_boards(), old(self).board),
                ..*old(self)
            }),
    {
        if self.outcome == Outcome::InProgress {
            let mut earlier: Vec<Board> = self.board_list();
            earlier.pop();
            assert(earlier@ == self.earlier_boards());
            // Only take positions after the last irreversible move
            let list = positions_since_irreversible(&self.board, &earlier);
            if list.len() >= 8 && count_occurrences(&list, &self.board) >= 2 {
                self.outcome = Outcome::DrawThreefoldRepetition;
            } else {
                self.outcome = self.board.outcome();
            }
        }
    }

    pub fn is_game_over(&self) -> (r: bool)
        ensures
            r == (self.outcome != Outcome::InProgress),
    {
        self.outcome != Outcome::InProgress
    }

    /// The side to move gives up: the other side wins.
    pub fn resign(&mut self)
        requires
            old(self).outcome == Outcome::InProgress,
        ensures
            *final(self) == (Model {
                outcome: Outcome::Win(crate::model::opposite(old(self).board.turn)),
                ..*old(self)
            }),
    {
        self.outcome = Outcome::Win(self.board.turn.switch());
    }

    /// Goes back to the last position with a human to move (or to the start): see `transfer`. The
    /// selection and an exchange in progress are dropped if anything was undone.
    pub fn undo_move(&mut self)
        requires
            old(self).wf(),
        ensures
            undo_result(*old(self), *final(self)),
    {
        let ghost target = transfer(
            self.current(),
            self.undo_states(),
            self.redo_states(),
            self.players,
        );
        let ghost n0 = self.undo_stack@.len();
        loop
            invariant_except_break
                transfer(self.current(), self.undo_states(), self.redo_states(), self.players)
                    == target,
            invariant
                self.wf(),
                self.same_settings(*old(self)),
                self.ply_count == old(self).ply_count,
                self.undo_stack@.len() <= n0,
                n0 == old(self).undo_states().len(),
                self.undo_stack@.len() < n0 ==> self.selected_piece is None && !self.exchanging,
                self.undo_stack@.len() == n0 ==> self.selected_piece == old(self).selected_piece
                    && self.exchanging == old(self).exchanging,
            ensures
                self.current() == target.0,
                self.undo_states() == target.1,
                self.redo_states() == target.2,
                n0 > 0 ==> self.undo_stack@.len() < n0,
            decreases self.undo_stack@.len(),
        {
            let ghost undo0 = self.undo_stack@;
            let ghost redo0 = self.redo_stack@;
            let ghost cur0 = self.current();
            match self.undo_stack.pop() {
                None => {
                    break ;
                },
                Some(entry) => {
                    let (board, last_move, outcome) = entry;
                    let mut prev_board = board;
                    std::mem::swap(&mut self.board, &mut prev_board);
                    let mut prev_last_move = last_move;
                    std::mem::swap(&mut self.last_move, &mut prev_last_move);
                    let mut prev_outcome = outcome;
                    std::mem::swap(&mut self.outcome, &mut prev_outcome);
                    self.redo_stack.push((prev_board, prev_last_move, prev_outcome));

                    self.clear_selection();
                    self.exchanging = false;
                    proof {
                        let f = |s: (Board, Option<MoveAnnotated>, Outcome)| snapshot_view(s);
                        assert(self.undo_stack@.map_values(f) == undo0.map_values(f).drop_last());
                        assert(self.redo_stack@.map_values(f) == redo0.map_values(f).push(cur0));
                        assert(undo0.map_values(f).last() == snapshot_view(undo0.last()));
                        assert(self.wf()) by {
                            assert(undo0[undo0.len() - 1].0.wf());
                            assert forall|i: int|
                                0 <= i < self.redo_stack@.len() implies (
                                #[trigger] self.redo_stack@[i]).0.wf() by {
                                if i < redo0.len() {
                                    assert(self.redo_stack@[i] == redo0[i]);
                                }
                            }
                            assert forall|i: int|
                                0 <= i < self.undo_stack@.len() implies (
                                #[trigger] self.undo_stack@[i]).0.wf() by {
                                assert(self.undo_stack@[i] == undo0[i]);
                            }
                        }
                    }
                    if self.players.get(board.turn) == Player::Human {
                        break ;
                    }
                },
            }
        }
    }

    /// Goes forward to the next position with a human to move (or to the end): see `transfer`.
    /// The selection and an exchange in progress are dropped if anything was redone.
    pub fn redo_move(&mut self)
        requires
            old(self).wf(),
        ensures
            redo_result(*old(self), *final(self)),
    {
        let ghost target = transfer(
            self.current(),
            self.redo_states(),
            self.undo_states(),
            self.players,
        );
        let ghost n0 = self.redo_stack@.len();
        loop
            invariant_except_break
                transfer(self.current(), self.redo_states(), self.undo_states(), self.players)
                    == target,
            invariant
                self.wf(),
                self.same_settings(*old(self)),
                self.ply_count == old(self).ply_count,
                self.redo_stack@.len() <= n0,
                n0 == old(self).redo_states().len(),
                self.redo_stack@.len() < n0 ==> self.selected_piece is None && !self.exchanging,
                self.redo_stack@.len() == n0 ==> self.selected_piece == old(self).selected_piece
                    && self.exchanging == old(self).exchanging,
            ensures
                self.current() == target.0,
                self.redo_states() == target.1,
                self.undo_states() == target.2,
                n0 > 0 ==> self.redo_stack@.len() < n0,
            decreases self.redo_stack@.len(),
        {
            let ghost undo0 = self.undo_stack@;
            let ghost redo0 = self.redo_stack@;
            let ghost cur0 = self.current();
            match self.redo_stack.pop() {
                None => {
                    break ;
                },
                Some(entry) => {
                    let (board, last_move, outcome) = entry;
                    let mut prev_board = board;
                    std::mem::swap(&mut self.board, &mut prev_board);
                    let mut prev_last_move = last_move;
                    std::mem::swap(&mut self.last_move, &mut prev_last_move);
                    let mut prev_outcome = outcome;
                    std::mem::swap(&mut self.outcome, &mut prev_outcome);
                    self.undo_stack.push((prev_board, prev_last_move, prev_outcome));

                    self.clear_selection();
                    self.exchanging = false;
                    proof {
                        let f = |s: (Board, Option<MoveAnnotated>, Outcome)| snapshot_view(s);
                        assert(self.redo_stack@.map_values(f) == redo0.map_values(f).drop_last());
                        assert(self.undo_stack@.map_values(f) == undo0.map_values(f).push(cur0));
                        assert(redo0.map_values(f).last() == snapshot_view(redo0.last()));
                        assert(self.wf()) by {
                            assert(redo0[redo0.len() - 1].0.wf());
                            assert forall|i: int|
                                0 <= i < self.undo_stack@.len() implies (
                                #[trigger] self.undo_stack@[i]).0.wf() by {
                                if i < undo0.len() {
                                    assert(self.undo_stack@[i] == undo0[i]);
                                }
                            }
                            assert forall|i: int|
                                0 <= i < self.redo_stack@.len() implies (
                                #[trigger] self.redo_stack@[i]).0.wf() by {
                                assert(self.redo_stack@[i] == redo0[i]);
                            }
                        }
                    }
                    if self.players.get(board.turn) == Player::Human {
                        break ;
                    }
                },
            }
        }
    }
}

} // verus!
