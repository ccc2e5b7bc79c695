//! The computer player: a negamax search with alpha-beta pruning, a transposition table and a
//! quiescence search over captures, evaluated by material alone.
use vstd::prelude::*;

use crate::model::bitboard as bits;
use crate::model::board::{after_move, in_listing_order, lemma_capture_shrinks, outcome_of, remaining, Board};
use crate::quiescence::{
    lemma_legal_number, lemma_listed_before_number, lemma_number_of_numbered, lemma_quiet_value,
    move_number, move_numbered, quiet_value,
};
use crate::model::history::{count_occurrences, repeated};
use crate::model::ttable::{lookup_in, store_in, Entry, Score, TTable};
use crate::model::{self, Color, Move, Outcome};

verus! {

broadcast use bits::group_bits;

/// The lowest score: below every score a search can give.
pub const NEG_INFINITY: i16 = -0x7FFF;

/// The score of a lost position, before it is weighted by how soon the loss comes.
pub const LOSE: i16 = -0x4000;

/// The score of a draw: a small contempt factor to discourage draws.
pub const DRAW: i16 = 1;

/// What a side owns: a hundred for each piece and fifty for each captured hex.
pub open spec fn material(b: Board, c: Color) -> int {
    100 * b.vitals.at(c).pieces + 50 * b.vitals.at(c).hexes
}

/// The static evaluation of a position, from the point of view of the side to move.
pub open spec fn evaluation(b: Board) -> int {
    material(b, b.turn) - material(b, model::opposite(b.turn))
}

/// The evaluation is zero-sum: what one side gains, the other loses.
pub proof fn lemma_evaluation_zero_sum(b: Board)
    ensures
        evaluation(Board { turn: model::opposite(b.turn), ..b }) == -evaluation(b),
{
}

proof fn lemma_material_bounds(b: Board)
    requires
        b.wf(),
    ensures
        b.vitals.white.pieces <= 64,
        b.vitals.black.pieces <= 64,
        b.vitals.white.hexes <= 19,
        b.vitals.black.hexes <= 19,
{
    bits::lemma_pop_bounds(b.fields.white, 64);
    bits::lemma_pop_bounds(b.fields.black, 64);
}

/// The material balance of the position, from the point of view of the side to move.
pub fn evaluate(board: &Board) -> (r: i16)
    requires
        board.wf(),
    ensures
        r == evaluation(*board),
        -7350 <= r <= 7350,
{
    proof {
        lemma_material_bounds(*board);
    }
    let wp = 100 * (board.pieces(Color::White) as i16);
    let bp = 100 * (board.pieces(Color::Black) as i16);
    let wh = 50 * (board.hexes(Color::White) as i16);
    let bh = 50 * (board.hexes(Color::Black) as i16);

    match board.turn {
        Color::White => (wp + wh) - (bp + bh),
        Color::Black => (bp + bh) - (wp + wh),
    }
}

/// The score of standing pat on a position that evaluates to `e`, cut to the window from `alpha`
/// to `beta`.
pub open spec fn stand_pat_score(e: int, alpha: int, beta: int) -> int {
    if e >= beta {
        beta
    } else if alpha < e {
        e
    } else {
        alpha
    }
}

/// What the quiescence search returns for the window from `alpha` to `beta`: the quiescence
/// value cut to the window; for an empty window, `beta` when standing pat reaches it or a capture
/// is listed (its score then always reaches `beta`), else `alpha`.
pub open spec fn quiescence_value(b: Board, alpha: int, beta: int) -> int {
    if alpha < beta {
        stand_pat_score(quiet_value(b), alpha, beta)
    } else if evaluation(b) >= beta || exists|mv: Move| b.capture_listed(mv) {
        beta
    } else {
        alpha
    }
}

/// The quiescence search: the position is scored by material once no capture is left to make,
/// so that the search does not stop in the middle of an exchange of blows. Each capture is
/// searched with the window turned round, and the score that comes back is negated. The
/// result is cut to the window: `beta` when the side to move can reach `beta` (by standing pat
/// or by a capture), else at least `alpha` and the static evaluation. Where no capture is listed
/// (`capture_listed`), the result is the static evaluation cut to the window.
#[verifier::rlimit(40)]
pub fn quiescence_search(board: &Board, alpha: i16, beta: i16) -> (r: i16)
    requires
        board.wf(),
        alpha >= NEG_INFINITY,
        beta >= NEG_INFINITY,
    ensures
        evaluation(*board) >= beta ==> r == beta,
        r == beta || (r >= alpha && r >= evaluation(*board) && (r < beta || r == alpha)),
        alpha < beta ==> r == stand_pat_score(quiet_value(*board), alpha as int, beta as int),
        r == quiescence_value(*board, alpha as int, beta as int),
        (forall|mv: Move| !board.capture_listed(mv)) ==> r == stand_pat_score(
            evaluation(*board),
            alpha as int,
            beta as int,
        ),
    decreases remaining(*board),
{
    let mut lower = alpha;
    let stand_pat = evaluate(board);
    proof {
        lemma_quiet_value(*board);
    }
    if stand_pat >= beta {
        return beta;
    } else if lower < stand_pat {
        lower = stand_pat;
    }
    let ghost lower0 = lower;

    let captures = board.generate_captures();
    proof {
        if captures@.len() > 0 {
            assert(captures@.contains(captures@[0]));
        }
    }
    // The largest of the static evaluation and the negated values after the captures searched.
    let ghost mut best: int = stand_pat as int;
    proof {
        if captures@.len() == 0 {
            assert forall|mv: Move| !board.capture_listed(mv) by {
                if board.capture_listed(mv) {
                    assert(captures@.contains(mv));
                }
            }
        }
    }
    let mut i: usize = 0;
    while i < captures.len()
        invariant
            board.wf(),
            beta >= NEG_INFINITY,
            stand_pat == evaluation(*board),
            stand_pat < beta,
            lower >= lower0,
            lower >= stand_pat,
            lower < beta || lower == lower0,
            lower0 >= alpha,
            lower0 >= stand_pat,
            lower0 < beta || lower0 == alpha,
            lower0 == stand_pat_score(stand_pat as int, alpha as int, beta as int),
            (forall|mv: Move| !board.capture_listed(mv)) ==> captures@.len() == 0,
            captures@.len() == 0 ==> lower == lower0,
            alpha >= beta ==> i == 0 && lower == alpha,
            i <= captures.len(),
            forall|j: int| 0 <= j < captures@.len() ==> board.is_legal(#[trigger] captures@[j]),
            forall|j: int|
                0 <= j < captures@.len() ==> board.takes_at_once(#[trigger] captures@[j]),
            forall|mv: Move| #[trigger] captures@.contains(mv) == board.capture_listed(mv),
            alpha < beta ==> lower == stand_pat_score(best, alpha as int, beta as int),
            best >= stand_pat,
            forall|j: int|
                0 <= j < i ==> best >= -quiet_value(after_move(*board, #[trigger] captures@[j])),
            forall|j: int|
                0 <= j < i ==> remaining(after_move(*board, #[trigger] captures@[j])) < remaining(
                    *board,
                ),
            best == stand_pat || exists|j: int|
                0 <= j < i && best == -quiet_value(after_move(*board, #[trigger] captures@[j])),
        decreases captures.len() - i,
    {
        let mv = captures[i];
        let mut new_board = *board;
        new_board.apply_move(&mv);
        proof {
            // Every capture takes a piece or a hex, so what is left to capture shrinks and the
            // search comes to an end.
            lemma_capture_shrinks(*board, new_board, mv);
            assert(captures@.contains(captures@[i as int]));
        }

        let score = -quiescence_search(&new_board, -beta, -lower);
        let ghost t = -quiet_value(new_board);
        proof {
            let ghost old_best = best;
            best = if t > best {
                t
            } else {
                best
            };
            if best == old_best && old_best != stand_pat {
                let j = choose|j: int|
                    0 <= j < i && old_best == -quiet_value(
                        after_move(*board, #[trigger] captures@[j]),
                    );
                assert(0 <= j < i + 1);
            }
            if best == t {
                assert(captures@[i as int] == mv);
            }
        }

        proof {
            if alpha >= beta {
                assert(score >= beta);
            }
        }
        if score >= beta {
            proof {
                assert(board.capture_listed(mv));
                lemma_quiet_value(*board);
                assert(new_board == after_move(*board, mv));
                assert(remaining(after_move(*board, mv)) < remaining(*board));
                if alpha < beta {
                    assert(lower < beta);
                    assert(t >= beta);
                    assert(quiet_value(*board) >= t);
                    assert(stand_pat_score(quiet_value(*board), alpha as int, beta as int)
                        == beta);
                }
            }
            return beta;
        } else if score > lower {
            lower = score;
        }
        i = i + 1;
    }
    proof {
        lemma_quiet_value(*board);
        let q = quiet_value(*board);
        if q != stand_pat {
            let mv = choose|mv: Move|
                #[trigger] board.capture_listed(mv) && remaining(after_move(*board, mv)) < remaining(
                    *board,
                ) && q == -quiet_value(after_move(*board, mv));
            assert(captures@.contains(mv));
            let j = choose|j: int| 0 <= j < captures@.len() && captures@[j] == mv;
            assert(best >= -quiet_value(after_move(*board, captures@[j])));
        }
        if best != stand_pat {
            let j = choose|j: int|
                0 <= j < i && best == -quiet_value(after_move(*board, #[trigger] captures@[j]));
            assert(captures@.contains(captures@[j]));
            assert(board.capture_listed(captures@[j]));
        }
    }
    lower
}

/// A fail-hard search result for the window from `alpha` to `beta`: `beta` when the search
/// reached it, else a score of at least `alpha` below `beta` (or `alpha` itself, when the window
/// is empty).
pub open spec fn in_window(r: i16, alpha: i16, beta: i16) -> bool {
    r == beta || (r >= alpha && (r < beta || r == alpha))
}

/// The score of a position that is over: a draw scores `DRAW` for both sides; a lost position
/// scores `LOSE`, less the depth left to search, so that a sooner win scores higher for the
/// winner and a loss is put off as long as possible.
pub open spec fn terminal_score(b: Board, depth: int) -> int {
    match outcome_of(b) {
        Outcome::Win(_) => LOSE - depth,
        _ => DRAW as int,
    }
}

/// What the search returns for `b`, what the table then holds, and what the principal variation
/// becomes (`None`: it is left as it was), from the table contents `t` (`list`: the positions
/// before `b`). A finished game scores by `terminal_score` and stores that score. With an entry
/// for `b` in the table, a repetition is a draw, an exact score is returned, and a bound at or
/// above `beta` is returned; a lower bound lowers the top of the window. Else the position is
/// searched (`search_below`). The principal variation is emptied when a score of a finished
/// game, a repetition, a table entry or the quiescence search falls strictly inside the window.
pub open spec fn search_value(
    b: Board,
    list: Seq<Board>,
    alpha: int,
    beta: int,
    depth: int,
    t: (Seq<Entry>, u8),
) -> (int, (Seq<Entry>, u8), Option<Seq<Move>>)
    decreases depth, 2int, 0int,
{
    if depth < 0 {
        (alpha, t, None)
    } else if outcome_of(b) != Outcome::InProgress {
        let s = terminal_score(b, depth);
        (s, store_in(t, b.zobrist, Score::Exact(s as i16), depth as i8), leaf_pv(s, alpha, beta))
    } else {
        match lookup_in(t, b.zobrist, depth as i8) {
            Some(e) => if repeated(list, b) {
                (DRAW as int, t, leaf_pv(DRAW as int, alpha, beta))
            } else {
                match e {
                    Score::Exact(s) => (s as int, t, leaf_pv(s as int, alpha, beta)),
                    Score::Beta(s) => if s >= beta {
                        (s as int, t, None)
                    } else {
                        search_below(b, list, alpha, beta, s as int, depth, t)
                    },
                }
            },
            None => search_below(b, list, alpha, beta, beta, depth, t),
        }
    }
}

/// The principal variation after a score `s` that ends the line here: emptied when `s` falls
/// strictly inside the window, else left as it was.
pub open spec fn leaf_pv(s: int, alpha: int, beta: int) -> Option<Seq<Move>> {
    if alpha < s < beta {
        Some(Seq::empty())
    } else {
        None
    }
}

/// The search of `b` below the top `top` of the window: at depth 0 what the quiescence search
/// returns (`quiescence_value`); else the moves in turn (`search_moves`).
pub open spec fn search_below(
    b: Board,
    list: Seq<Board>,
    alpha: int,
    beta: int,
    top: int,
    depth: int,
    t: (Seq<Entry>, u8),
) -> (int, (Seq<Entry>, u8), Option<Seq<Move>>)
    decreases depth, 1int, 0int,
{
    if depth <= 0 {
        let q = quiescence_value(b, alpha, top);
        (q, t, leaf_pv(q, alpha, beta))
    } else {
        search_moves(
            b,
            list,
            alpha,
            beta,
            top,
            depth,
            t,
            0,
            alpha,
            NEG_INFINITY as int,
            Seq::empty(),
            None,
        )
    }
}

/// The search of the legal moves of `b` numbered `m` or higher (see `move_numbered`, whose order
/// is that of `generate_moves`), the best score so far `best` and the window from `lower` to
/// `top`. Each move is searched one ply less deep with the window turned round, and its score
/// is the negated result. A score at or above `top` stores itself as a bound and returns `top`;
/// when the moves are done, the best score is stored as exact and `lower` returned. `line` is
/// the variation that the searches of the moves have left (each replaces it when it sets one),
/// and `best_move` the last move that raised `lower`: when the moves are done and one did, and
/// `lower` is strictly inside the window from `alpha` to `beta`, the principal variation is
/// `line` with that move added.
pub open spec fn search_moves(
    b: Board,
    list: Seq<Board>,
    alpha: int,
    beta: int,
    top: int,
    depth: int,
    t: (Seq<Entry>, u8),
    m: int,
    lower: int,
    best: int,
    line: Seq<Move>,
    best_move: Option<Move>,
) -> (int, (Seq<Entry>, u8), Option<Seq<Move>>)
    decreases depth, 0int, 4160 - m,
{
    if depth <= 0 || m < 0 || m >= 4160 {
        (
            lower,
            store_in(t, b.zobrist, Score::Exact(best as i16), depth as i8),
            match best_move {
                Some(mv) => if alpha < lower < beta {
                    Some(line.push(mv))
                } else {
                    None
                },
                None => None,
            },
        )
    } else {
        let mv = move_numbered(b, m);
        if !b.is_legal(mv) {
            search_moves(b, list, alpha, beta, top, depth, t, m + 1, lower, best, line, best_move)
        } else {
            let child = search_value(after_move(b, mv), list.push(b), -top, -lower, depth - 1, t);
            let score = -child.0;
            let line2 = match child.2 {
                Some(p) => p,
                None => line,
            };
            let best2 = if score > best {
                score
            } else {
                best
            };
            if score >= top {
                (top, store_in(child.1, b.zobrist, Score::Beta(score as i16), depth as i8), None)
            } else if score > lower {
                search_moves(
                    b,
                    list,
                    alpha,
                    beta,
                    top,
                    depth,
                    child.1,
                    m + 1,
                    score,
                    best2,
                    line2,
                    Some(mv),
                )
            } else {
                search_moves(
                    b,
                    list,
                    alpha,
                    beta,
                    top,
                    depth,
                    child.1,
                    m + 1,
                    lower,
                    best2,
                    line2,
                    best_move,
                )
            }
        }
    }
}

/// Numbers with no legal move change nothing in the search of the moves.
proof fn lemma_skip_moves(
    b: Board,
    list: Seq<Board>,
    alpha: int,
    beta: int,
    top: int,
    depth: int,
    t: (Seq<Entry>, u8),
    m1: int,
    m2: int,
    lower: int,
    best: int,
    line: Seq<Move>,
    best_move: Option<Move>,
)
    requires
        depth > 0,
        0 <= m1 <= m2 <= 4160,
        forall|m: int| m1 <= m < m2 ==> !b.is_legal(#[trigger] move_numbered(b, m)),
    ensures
        search_moves(b, list, alpha, beta, top, depth, t, m1, lower, best, line, best_move)
            == search_moves(b, list, alpha, beta, top, depth, t, m2, lower, best, line, best_move),
    decreases m2 - m1,
{
    if m1 < m2 {
        assert(!b.is_legal(move_numbered(b, m1)));
        lemma_skip_moves(b, list, alpha, beta, top, depth, t, m1 + 1, m2, lower, best, line, best_move);
    }
}

/// The search finds `b` drawn by repetition: the table holds an entry for it at `depth`, and
/// it occurred twice before in `list`, which holds at least eight positions.
pub open spec fn drawn_by_repetition(list: Seq<Board>, b: Board, t: TTable, depth: i8) -> bool {
    t.lookup(b.zobrist, depth) is Some && repeated(list, b)
}

/// The negamax search with alpha-beta pruning, from the point of view of the side to move, to
/// `depth` plies and then through the captures of the quiescence search. What it returns and what
/// the table holds after are `search_value` of the table as it was.
///
/// A finished game scores by `terminal_score`; a position with an entry in the table that
/// occurred twice before since the last irreversible move is a draw (`drawn_by_repetition`). Positions are looked up in and stored to the
/// transposition table: a finished game stores its score, while a repetition, a table entry
/// that settles the search and a search at depth 0 leave the table as it was. A beta cutoff returns `beta`. `pv` is set to the principal variation,
/// which ends with the best move found here (or is empty at a leaf), only when the score falls
/// strictly inside the window; `board_list` (the positions before this one)
/// is left as it was found. At depth 0, a position with no capture to search scores by its
/// static evaluation, cut to the window.
pub fn alphabeta_negamax(
    board: &Board,
    board_list: &mut Vec<Board>,
    pv: &mut Vec<Move>,
    alpha: i16,
    beta: i16,
    depth: u8,
    ttable: &mut TTable,
) -> (r: i16)
    requires
        board.wf(),
        alpha >= NEG_INFINITY,
        beta >= NEG_INFINITY,
        depth < 128,
        old(ttable).wf(),
        old(ttable).scores_bounded(),
    ensures
        r == search_value(
            *board,
            old(board_list)@,
            alpha as int,
            beta as int,
            depth as int,
            old(ttable).pair(),
        ).0,
        final(ttable).pair() == search_value(
            *board,
            old(board_list)@,
            alpha as int,
            beta as int,
            depth as int,
            old(ttable).pair(),
        ).1,
        final(pv)@ == match search_value(
            *board,
            old(board_list)@,
            alpha as int,
            beta as int,
            depth as int,
            old(ttable).pair(),
        ).2 {
            Some(line) => line,
            None => old(pv)@,
        },
        final(board_list)@ == old(board_list)@,
        final(ttable).wf(),
        final(ttable).scores_bounded(),
        r >= NEG_INFINITY,
        final(pv)@ != old(pv)@ ==> alpha < r < beta && (final(pv)@.len() == 0 || board.is_legal(
            final(pv)@.last(),
        )),
        outcome_of(*board) != Outcome::InProgress ==> r == terminal_score(*board, depth as int),
        outcome_of(*board) != Outcome::InProgress ==> final(ttable).stored(
            *old(ttable),
            board.zobrist,
            Score::Exact(r),
            depth as i8,
        ),
        outcome_of(*board) == Outcome::InProgress && (drawn_by_repetition(
            old(board_list)@,
            *board,
            *old(ttable),
            depth as i8,
        ) || depth == 0 || old(ttable).lookup(board.zobrist, depth as i8) matches Some(
            Score::Exact(_),
        ) || (old(ttable).lookup(board.zobrist, depth as i8) matches Some(Score::Beta(s)) && s
            >= beta)) ==> *final(ttable) == *old(ttable),
        outcome_of(*board) == Outcome::InProgress && drawn_by_repetition(
            old(board_list)@,
            *board,
            *old(ttable),
            depth as i8,
        ) ==> r == DRAW,
        outcome_of(*board) == Outcome::InProgress && !drawn_by_repetition(
            old(board_list)@,
            *board,
            *old(ttable),
            depth as i8,
        ) ==> (match old(ttable).lookup(board.zobrist, depth as i8) {
            Some(Score::Exact(s)) => r == s,
            Some(Score::Beta(s)) => if s >= beta {
                r == s
            } else {
                in_window(r, alpha, s)
            },
            None => in_window(r, alpha, beta),
        }),
        depth == 0 && outcome_of(*board) == Outcome::InProgress && !drawn_by_repetition(
            old(board_list)@,
            *board,
            *old(ttable),
            0,
        ) && (forall|mv: Move| !board.capture_listed(mv)) ==> (match old(ttable).lookup(
            board.zobrist,
            0,
        ) {
            Some(Score::Exact(s)) => r == s,
            Some(Score::Beta(s)) => r == (if s >= beta {
                s as int
            } else {
                stand_pat_score(evaluation(*board), alpha as int, s as int)
            }),
            None => r == stand_pat_score(evaluation(*board), alpha as int, beta as int),
        }),
    decreases depth,
{
    // The window narrows as the search goes: `lower` rises with the best score found, and
    // `upper` comes down to a bound found earlier. The principal variation is set against the
    // window as it was passed in.
    let mut lower = alpha;
    let mut upper = beta;
    let zobrist = board.zobrist;
    let tdepth = depth as i8;

    match board.outcome() {
        Outcome::InProgress => {},
        Outcome::Win(color) => {
            // Weight score by depth to encourage shorter wins. The shorter the win, the greater
            // `depth` will be, and so the larger the score will be. This also encourages the AI to
            // prolong a loss.
            let score = LOSE - depth as i16;
            ttable.set(zobrist, Score::Exact(score), tdepth);
            if score > alpha && score < beta {
                *pv = Vec::new();
            }
            return score;
        },
        _ => {
            // This only works because the outcome of the board does not consider draw by
            // repetition
            ttable.set(zobrist, Score::Exact(DRAW), tdepth);
            if DRAW > alpha && DRAW < beta {
                *pv = Vec::new();
            }
            return DRAW;
        },
    }

    if let Some(entry) = ttable.get(zobrist, tdepth) {
        // A position that occurred twice before since the last irreversible move is a draw.
        if board_list.len() >= 8 && count_occurrences(board_list, board) >= 2 {
            if DRAW > alpha && DRAW < beta {
                *pv = Vec::new();
            }
            return DRAW;
        }
        match entry {
            Score::Exact(score) => {
                // This will cut the PV short
                if score > alpha && score < beta {
                    *pv = Vec::new();
                }
                return score;
            },
            Score::Beta(score) => {
                if score >= upper {
                    return score;
                }
                upper = score;
            },
        }
    }
    // The window that the search runs with: the top is lowered to a bound found earlier.
    let ghost top = match old(ttable).lookup(zobrist, tdepth) {
        Some(Score::Beta(s)) => s,
        _ => beta,
    };
    assert(upper == top);
    assert(old(ttable).lookup(zobrist, tdepth) matches Some(Score::Beta(s)) ==> s < beta);
    assert(!(old(ttable).lookup(zobrist, tdepth) matches Some(Score::Exact(_))));

    if depth == 0 {
        let score = quiescence_search(board, lower, upper);
        if score > alpha && score < beta {
            *pv = Vec::new();
        }
        score
    } else {
        let mut best_score = NEG_INFINITY;
        let mut best_move: Option<Move> = None;

        let mut new_pv: Vec<Move> = Vec::new();
        let moves = board.generate_moves();
        let mut i: usize = 0;
        let ghost mut next: int = 0;
        while i < moves.len()
            invariant
                board.wf(),
                depth > 0,
                depth < 128,
                i <= moves.len(),
                forall|mv: Move| moves@.contains(mv) ==> board.is_legal(mv),
                board_list@ == old(board_list)@,
                outcome_of(*board) == Outcome::InProgress,
                !drawn_by_repetition(old(board_list)@, *board, *old(ttable), tdepth),
                ttable.wf(),
                ttable.scores_bounded(),
                lower >= alpha,
                lower >= NEG_INFINITY,
                upper >= NEG_INFINITY,
                upper <= beta,
                best_score >= NEG_INFINITY,
                best_move is Some ==> lower > alpha && lower < upper && board.is_legal(
                    best_move->0,
                ),
                lower == alpha || lower < upper,
                upper == top,
                top == (match old(ttable).lookup(zobrist, tdepth) {
                    Some(Score::Beta(s)) => s,
                    _ => beta,
                }),
                old(ttable).lookup(zobrist, tdepth) matches Some(Score::Beta(s)) ==> s < beta,
                !(old(ttable).lookup(zobrist, tdepth) matches Some(Score::Exact(_))),
                zobrist == board.zobrist,
                tdepth == depth as i8,
                pv@ == old(pv)@,
                forall|mv: Move| moves@.contains(mv) <==> board.is_legal(mv),
                in_listing_order(moves@),
                0 <= next <= 4160,
                forall|j: int| 0 <= j < i ==> move_number(#[trigger] moves@[j]) < next,
                forall|j: int| i <= j < moves@.len() ==> move_number(#[trigger] moves@[j]) >= next,
                search_moves(
                    *board,
                    old(board_list)@,
                    alpha as int,
                    beta as int,
                    top as int,
                    depth as int,
                    ttable.pair(),
                    next,
                    lower as int,
                    best_score as int,
                    new_pv@,
                    best_move,
                ) == search_value(
                    *board,
                    old(board_list)@,
                    alpha as int,
                    beta as int,
                    depth as int,
                    old(ttable).pair(),
                ),
            decreases moves.len() - i,
        {
            let mv = moves[i];
            assert(moves@.contains(moves@[i as int]));
            let ghost k = move_number(mv);
            let ghost t_cur = ttable.pair();
            proof {
                lemma_legal_number(*board, mv);
                assert forall|m: int| next <= m < k implies !board.is_legal(
                    #[trigger] move_numbered(*board, m),
                ) by {
                    if board.is_legal(move_numbered(*board, m)) {
                        let mv2 = move_numbered(*board, m);
                        lemma_number_of_numbered(*board, m);
                        assert(moves@.contains(mv2));
                        let j = choose|j: int| 0 <= j < moves@.len() && moves@[j] == mv2;
                        if j > i {
                            lemma_listed_before_number(*board, moves@[i as int], moves@[j]);
                        }
                    }
                }
                lemma_skip_moves(
                    *board,
                    old(board_list)@,
                    alpha as int,
                    beta as int,
                    top as int,
                    depth as int,
                    t_cur,
                    next,
                    k,
                    lower as int,
                    best_score as int,
                    new_pv@,
                    best_move,
                );
            }
            let mut new_board = *board;
            new_board.apply_move(&mv);

            board_list.push(*board);
            let child = alphabeta_negamax(
                &new_board,
                board_list,
                &mut new_pv,
                -upper,
                -lower,
                depth - 1,
                ttable,
            );
            board_list.pop();
            let score = -child;

            if score > best_score {
                best_score = score;
            }
            if score >= upper {
                ttable.set(zobrist, Score::Beta(score), tdepth);
                return upper;
            } else if score > lower {
                lower = score;
                best_move = Some(mv);
            }
            proof {
                next = k + 1;
                assert forall|j: int| i + 1 <= j < moves@.len() implies move_number(
                    #[trigger] moves@[j],
                ) >= next by {
                    lemma_listed_before_number(*board, moves@[i as int], moves@[j]);
                    assert(moves@.contains(moves@[j]));
                }
            }
            i = i + 1;
        }
        proof {
            assert forall|m: int| next <= m < 4160 implies !board.is_legal(
                #[trigger] move_numbered(*board, m),
            ) by {
                if board.is_legal(move_numbered(*board, m)) {
                    let mv2 = move_numbered(*board, m);
                    lemma_number_of_numbered(*board, m);
                    assert(moves@.contains(mv2));
                }
            }
            lemma_skip_moves(
                *board,
                old(board_list)@,
                alpha as int,
                beta as int,
                top as int,
                depth as int,
                ttable.pair(),
                next,
                4160,
                lower as int,
                best_score as int,
                new_pv@,
                best_move,
            );
        }
        ttable.set(zobrist, Score::Exact(best_score), tdepth);
        if let Some(mv) = best_move {
            new_pv.push(mv);
            assert(new_pv@.last() == mv);
            if lower > alpha && lower < beta {
                *pv = new_pv;
            }
        }
        lower
    }
}

/// The moves of `s` are listed best score first.
pub open spec fn sorted_by_score(s: Seq<(Move, i16)>) -> bool {
    forall|i: int, j: int| 0 <= i < j < s.len() ==> s[i].1 >= s[j].1
}

/// Some entry of `s` holds the move `mv`.
pub open spec fn lists_move(s: Seq<(Move, i16)>, mv: Move) -> bool {
    exists|i: int| 0 <= i < s.len() && (#[trigger] s[i]).0 == mv
}

/// The entries of `s` with score `k`, in their order in `s`.
pub open spec fn with_score(s: Seq<(Move, i16)>, k: i16) -> Seq<(Move, i16)>
    decreases s.len(),
{
    if s.len() == 0 {
        s
    } else if s.last().1 == k {
        with_score(s.drop_last(), k).push(s.last())
    } else {
        with_score(s.drop_last(), k)
    }
}

proof fn lemma_with_score_concat(a: Seq<(Move, i16)>, b: Seq<(Move, i16)>, k: i16)
    ensures
        with_score(a + b, k) == with_score(a, k) + with_score(b, k),
    decreases b.len(),
{
    if b.len() == 0 {
        assert(a + b =~= a);
        assert(with_score(a, k) + with_score(b, k) =~= with_score(a, k));
    } else {
        lemma_with_score_concat(a, b.drop_last(), k);
        assert((a + b).drop_last() =~= a + b.drop_last());
        assert((a + b).last() == b.last());
        if b.last().1 == k {
            assert(with_score(a, k) + with_score(b.drop_last(), k).push(b.last()) =~= (with_score(
                a,
                k,
            ) + with_score(b.drop_last(), k)).push(b.last()));
        }
    }
}

proof fn lemma_with_score_none(s: Seq<(Move, i16)>, k: i16)
    requires
        forall|j: int| 0 <= j < s.len() ==> s[j].1 != k,
    ensures
        with_score(s, k) == Seq::<(Move, i16)>::empty(),
    decreases s.len(),
{
    if s.len() > 0 {
        lemma_with_score_none(s.drop_last(), k);
    }
}

/// Sorts the scored moves best first. The sort is stable: moves of equal score keep their order
/// (`with_score` is the same before and after for every score).
fn sort_by_score(v: &mut Vec<(Move, i16)>)
    ensures
        final(v)@.len() == old(v)@.len(),
        final(v)@.to_multiset() == old(v)@.to_multiset(),
        sorted_by_score(final(v)@),
        forall|k: i16| #[trigger] with_score(final(v)@, k) == with_score(old(v)@, k),
{
    broadcast use vstd::seq_lib::group_to_multiset_ensures;

    let mut out: Vec<(Move, i16)> = Vec::new();
    let mut i: usize = 0;
    assert(v@.subrange(0, 0) == Seq::<(Move, i16)>::empty());
    assert(out@ == Seq::<(Move, i16)>::empty());
    while i < v.len()
        invariant
            i <= v.len(),
            out@.len() == i,
            out@.to_multiset() == v@.subrange(0, i as int).to_multiset(),
            sorted_by_score(out@),
            forall|k: i16| #[trigger] with_score(out@, k) == with_score(v@.subrange(0, i as int), k),
        decreases v.len() - i,
    {
        let e = v[i];
        let mut p: usize = 0;
        while p < out.len() && out[p].1 >= e.1
            invariant
                p <= out.len(),
                forall|q: int| 0 <= q < p ==> #[trigger] out@[q].1 >= e.1,
            decreases out.len() - p,
        {
            p = p + 1;
        }
        let ghost before = out@;
        out.insert(p, e);
        assert(v@.subrange(0, i as int + 1) == v@.subrange(0, i as int).push(e));
        proof {
            vstd::seq_lib::to_multiset_insert(before, p as int, e);
            vstd::seq_lib::to_multiset_build(v@.subrange(0, i as int), e);
        }
        proof {
            let lo = before.subrange(0, p as int);
            let hi = before.subrange(p as int, before.len() as int);
            assert(before =~= lo + hi);
            assert(out@ =~= lo + seq![e] + hi);
            assert forall|j: int| 0 <= j < hi.len() implies hi[j].1 != e.1 by {
                assert(hi[j] == before[p + j]);
                assert(before[p as int].1 < e.1);
            }
            assert forall|k: i16| #[trigger] with_score(out@, k) == with_score(
                v@.subrange(0, i as int + 1),
                k,
            ) by {
                lemma_with_score_concat(lo, hi, k);
                lemma_with_score_concat(lo + seq![e], hi, k);
                lemma_with_score_concat(lo, seq![e], k);
                assert(seq![e].drop_last() =~= Seq::<(Move, i16)>::empty());
                assert(with_score(Seq::<(Move, i16)>::empty(), k) =~= Seq::<(Move, i16)>::empty());
                assert(seq![e].last() == e);
                if k == e.1 {
                    assert(with_score(seq![e], k) =~= seq![e]);
                } else {
                    assert(with_score(seq![e], k) =~= Seq::<(Move, i16)>::empty());
                }
                assert(with_score(before, k) == with_score(lo, k) + with_score(hi, k));
                assert(with_score(out@, k) == with_score(lo + seq![e], k) + with_score(hi, k));
                assert(v@.subrange(0, i as int + 1).last() == e);
                assert(with_score(before, k) == with_score(v@.subrange(0, i as int), k));
                if k == e.1 {
                    lemma_with_score_none(hi, k);
                    assert(with_score(lo, k) + Seq::<(Move, i16)>::empty() =~= with_score(lo, k));
                    assert(with_score(lo, k) + seq![e] + Seq::<(Move, i16)>::empty() =~= with_score(
                        lo,
                        k,
                    ).push(e));
                } else {
                    assert(with_score(lo, k) + Seq::<(Move, i16)>::empty() =~= with_score(lo, k));
                }
                assert(v@.subrange(0, i as int + 1).drop_last() =~= v@.subrange(0, i as int));
            }
        }
        assert forall|a: int, b: int| 0 <= a < b < out@.len() implies out@[a].1 >= out@[b].1 by {
            if b < p {
            } else if a < p && b == p {
            } else if a < p {
                assert(out@[b] == before[b - 1]);
            } else if a == p {
                assert(before[p as int].1 < e.1);
                assert(out@[b] == before[b - 1]);
            } else {
                assert(out@[a] == before[a - 1]);
                assert(out@[b] == before[b - 1]);
            }
        }
        i = i + 1;
    }
    assert(v@.subrange(0, v@.len() as int) == v@);
    *v = out;
}

/// The moves of the position to search, in the order of `generate_moves`, each scored
/// `NEG_INFINITY` until it is searched.
pub fn root_moves(board: &Board) -> (r: Vec<(Move, i16)>)
    requires
        board.wf(),
        board.field_bits(board.turn) != 0,
    ensures
        forall|mv: Move| lists_move(r@, mv) <==> board.is_legal(mv),
        forall|i: int, j: int| 0 <= i < j < r@.len() ==> r@[i].0 != r@[j].0,
        forall|i: int| 0 <= i < r@.len() ==> (#[trigger] r@[i]).1 == NEG_INFINITY,
        in_listing_order(moves_of(r@)),
        moves_of(r@).no_duplicates(),
{
    let moves = board.generate_moves();
    let mut r: Vec<(Move, i16)> = Vec::new();
    let mut i: usize = 0;
    while i < moves.len()
        invariant
            i <= moves.len(),
            r@.len() == i,
            forall|j: int| 0 <= j < i ==> #[trigger] r@[j] == (moves@[j], NEG_INFINITY),
        decreases moves.len() - i,
    {
        r.push((moves[i], NEG_INFINITY));
        i = i + 1;
    }
    assert forall|mv: Move| lists_move(r@, mv) <==> board.is_legal(mv) by {
        if lists_move(r@, mv) {
            let j = choose|j: int| 0 <= j < r@.len() && (#[trigger] r@[j]).0 == mv;
            assert(moves@.contains(moves@[j]));
        }
        if board.is_legal(mv) {
            assert(moves@.contains(mv));
            let j = choose|j: int| 0 <= j < moves@.len() && moves@[j] == mv;
            assert(r@[j].0 == mv);
        }
    }
    assert forall|a: int, b: int| 0 <= a < b < r@.len() implies r@[a].0 != r@[b].0 by {
        assert(r@[a].0 == moves@[a]);
        assert(r@[b].0 == moves@[b]);
    }
    assert(moves_of(r@) =~= moves@);
    r
}

/// The moves of scored moves.
pub open spec fn moves_of(s: Seq<(Move, i16)>) -> Seq<Move> {
    s.map_values(|p: (Move, i16)| p.0)
}

/// The scores that one round of iterative deepening gives the moves `ms` of `b` from the `i`th
/// on, and the table contents after: each move is searched to `depth` with the window from
/// `NEG_INFINITY` to the best score so far turned round (`max`), and scores the negated result.
/// The third part is the principal variation of the last move whose score beat the best so far
/// (that search's variation, or none), if one did.
pub open spec fn scores_from(
    b: Board,
    list: Seq<Board>,
    ms: Seq<Move>,
    depth: int,
    t: (Seq<Entry>, u8),
    max: int,
    i: int,
) -> (Seq<int>, (Seq<Entry>, u8), Option<Seq<Move>>)
    decreases ms.len() - i,
{
    if i < 0 || i >= ms.len() {
        (Seq::empty(), t, None)
    } else {
        let child = search_value(after_move(b, ms[i]), list, NEG_INFINITY as int, -max, depth, t);
        let score = -child.0;
        let here = if score > max {
            Some(
                match child.2 {
                    Some(line) => line,
                    None => Seq::empty(),
                },
            )
        } else {
            None
        };
        let rest = scores_from(
            b,
            list,
            ms,
            depth,
            child.1,
            if score > max {
                score
            } else {
                max
            },
            i + 1,
        );
        (
            seq![score] + rest.0,
            rest.1,
            match rest.2 {
                Some(line) => Some(line),
                None => here,
            },
        )
    }
}

proof fn lemma_scores_len(
    b: Board,
    list: Seq<Board>,
    ms: Seq<Move>,
    depth: int,
    t: (Seq<Entry>, u8),
    max: int,
    i: int,
)
    requires
        0 <= i <= ms.len(),
    ensures
        scores_from(b, list, ms, depth, t, max, i).0.len() == ms.len() - i,
    decreases ms.len() - i,
{
    if i < ms.len() {
        let child = search_value(after_move(b, ms[i]), list, NEG_INFINITY as int, -max, depth, t);
        let score = -child.0;
        lemma_scores_len(
            b,
            list,
            ms,
            depth,
            child.1,
            if score > max {
                score
            } else {
                max
            },
            i + 1,
        );
    }
}

/// The moves `ms` of `b` with the scores that one round of iterative deepening gives them
/// (`scores_from`), in the order of `ms`.
pub open spec fn iteration_scored(
    b: Board,
    list: Seq<Board>,
    ms: Seq<(Move, i16)>,
    depth: int,
    t: (Seq<Entry>, u8),
) -> Seq<(Move, i16)> {
    Seq::new(
        ms.len(),
        |j: int|
            (ms[j].0, scores_from(b, list, moves_of(ms), depth, t, NEG_INFINITY as int, 0).0[j] as i16),
    )
}

/// One round of the iterative deepening: every move of the position is searched to `depth` plies
/// (with the window narrowed to the best score found so far), scored, and the moves are sorted
/// best first, so that the best move comes first and the next round searches the likely best
/// moves first; moves of equal score keep their order, so the first of the best moves comes
/// first. The scores and the table after are `scores_from` of the table as it was. The
/// principal variation of the best move found replaces `pv`, and the best move is added at its
/// end.
pub fn search_iteration(
    board: &Board,
    board_list: &mut Vec<Board>,
    moves: &mut Vec<(Move, i16)>,
    pv: &mut Option<Vec<Move>>,
    depth: u8,
    ttable: &mut TTable,
)
    requires
        board.wf(),
        forall|i: int| 0 <= i < old(moves)@.len() ==> board.is_legal(#[trigger] old(moves)@[i].0),
        depth < 128,
        old(pv).is_some() ==> old(moves)@.len() > 0,
        old(ttable).wf(),
        old(ttable).scores_bounded(),
    ensures
        final(ttable).pair() == scores_from(
            *board,
            old(board_list)@,
            moves_of(old(moves)@),
            depth as int,
            old(ttable).pair(),
            NEG_INFINITY as int,
            0,
        ).1,
        final(moves)@.to_multiset() == iteration_scored(
            *board,
            old(board_list)@,
            old(moves)@,
            depth as int,
            old(ttable).pair(),
        ).to_multiset(),
        forall|k: i16|
            #[trigger] with_score(final(moves)@, k) == with_score(
                iteration_scored(*board, old(board_list)@, old(moves)@, depth as int, old(ttable).pair()),
                k,
            ),
        final(board_list)@ == old(board_list)@,
        final(ttable).wf(),
        final(ttable).scores_bounded(),
        final(moves)@.len() == old(moves)@.len(),
        forall|mv: Move| lists_move(final(moves)@, mv) <==> lists_move(old(moves)@, mv),
        forall|i: int| 0 <= i < final(moves)@.len() ==> board.is_legal(#[trigger] final(moves)@[i].0),
        forall|i: int| 0 <= i < final(moves)@.len() ==> (#[trigger] final(moves)@[i]).1
            >= NEG_INFINITY,
        sorted_by_score(final(moves)@),
        old(pv).is_some() ==> final(pv).is_some(),
        final(pv).is_some() ==> final(moves)@.len() > 0
            && final(pv).unwrap()@.last() == final(moves)@[0].0,
        match scores_from(
            *board,
            old(board_list)@,
            moves_of(old(moves)@),
            depth as int,
            old(ttable).pair(),
            NEG_INFINITY as int,
            0,
        ).2 {
            Some(line) => (*final(pv)) is Some && (*final(pv))->0@ == line.push(
                final(moves)@[0].0,
            ),
            None => match *old(pv) {
                Some(line) => (*final(pv)) is Some && (*final(pv))->0@ == line@.push(
                    final(moves)@[0].0,
                ),
                None => (*final(pv)) is None,
            },
        },
{
    broadcast use vstd::seq_lib::to_multiset_contains;

    let ghost start = moves@;
    let ghost full = scores_from(
        *board,
        old(board_list)@,
        moves_of(start),
        depth as int,
        old(ttable).pair(),
        NEG_INFINITY as int,
        0,
    );
    proof {
        lemma_scores_len(*board, old(board_list)@, moves_of(start), depth as int, old(ttable).pair(), NEG_INFINITY as int, 0);
        assert(full.0.subrange(0, start.len() as int) =~= full.0);
    }
    let mut max_score = NEG_INFINITY;
    let mut i: usize = 0;
    let ghost mut chosen: Option<Seq<Move>> = None;
    while i < moves.len()
        invariant
            board.wf(),
            depth < 128,
            i <= moves@.len(),
            moves@.len() == start.len(),
            forall|j: int| 0 <= j < moves@.len() ==> (#[trigger] moves@[j]).0 == start[j].0,
            forall|j: int| 0 <= j < start.len() ==> board.is_legal(#[trigger] start[j].0),
            forall|j: int| 0 <= j < i ==> (#[trigger] moves@[j]).1 >= NEG_INFINITY,
            max_score >= NEG_INFINITY,
            board_list@ == old(board_list)@,
            ttable.wf(),
            ttable.scores_bounded(),
            old(pv).is_some() ==> pv.is_some(),
            old(pv).is_some() ==> start.len() > 0,
            pv.is_some() ==> start.len() > 0,
            start == old(moves)@,
            full == scores_from(
                *board,
                old(board_list)@,
                moves_of(start),
                depth as int,
                old(ttable).pair(),
                NEG_INFINITY as int,
                0,
            ),
            full.0.len() == start.len(),
            scores_from(
                *board,
                old(board_list)@,
                moves_of(start),
                depth as int,
                ttable.pair(),
                max_score as int,
                i as int,
            ).0 == full.0.subrange(i as int, start.len() as int),
            scores_from(
                *board,
                old(board_list)@,
                moves_of(start),
                depth as int,
                ttable.pair(),
                max_score as int,
                i as int,
            ).1 == full.1,
            full.2 == match scores_from(
                *board,
                old(board_list)@,
                moves_of(start),
                depth as int,
                ttable.pair(),
                max_score as int,
                i as int,
            ).2 {
                Some(line) => Some(line),
                None => chosen,
            },
            chosen matches Some(line) ==> (*pv) is Some && (*pv)->0@ == line,
            chosen is None ==> *pv == *old(pv),
            forall|j: int| 0 <= j < i ==> (#[trigger] moves@[j]).1 == full.0[j],
        decreases moves@.len() - i,
    {
        let mv = moves[i].0;
        let ghost t_cur = ttable.pair();
        let ghost max0 = max_score;
        let mut new_board = *board;
        new_board.apply_move(&mv);
        proof {
            assert(moves_of(start)[i as int] == mv);
        }

        let mut new_pv: Vec<Move> = Vec::new();
        let child = alphabeta_negamax(
            &new_board,
            board_list,
            &mut new_pv,
            NEG_INFINITY,
            -max_score,
            depth,
            ttable,
        );
        let score = -child;

        let ghost child_pv = new_pv@;
        if score > max_score {
            max_score = score;
            *pv = Some(new_pv);
            proof {
                chosen = Some(child_pv);
            }
        }
        moves.set(i, (mv, score));
        proof {
            let rest = scores_from(
                *board,
                old(board_list)@,
                moves_of(start),
                depth as int,
                t_cur,
                max0 as int,
                i as int,
            );
            assert(rest.0[0] == score);
            assert(full.0.subrange(i as int, start.len() as int)[0] == full.0[i as int]);
            assert(full.0.subrange(i as int + 1, start.len() as int) =~= full.0.subrange(
                i as int,
                start.len() as int,
            ).drop_first());
            assert((seq![score as int] + scores_from(
                *board,
                old(board_list)@,
                moves_of(start),
                depth as int,
                ttable.pair(),
                max_score as int,
                i as int + 1,
            ).0).drop_first() =~= scores_from(
                *board,
                old(board_list)@,
                moves_of(start),
                depth as int,
                ttable.pair(),
                max_score as int,
                i as int + 1,
            ).0);
        }
        i = i + 1;
    }
    proof {
        assert(moves@ =~= iteration_scored(
            *board,
            old(board_list)@,
            start,
            depth as int,
            old(ttable).pair(),
        ));
    }
    let ghost scored = moves@;
    sort_by_score(moves);
    assert forall|mv: Move| lists_move(moves@, mv) <==> lists_move(start, mv) by {
        if lists_move(moves@, mv) {
            let j = choose|j: int| 0 <= j < moves@.len() && (#[trigger] moves@[j]).0 == mv;
            assert(moves@.to_multiset().count(moves@[j]) > 0);
            assert(scored.contains(moves@[j]));
            let k = choose|k: int| 0 <= k < scored.len() && scored[k] == moves@[j];
            assert(start[k].0 == mv);
        }
        if lists_move(start, mv) {
            let j = choose|j: int| 0 <= j < start.len() && (#[trigger] start[j]).0 == mv;
            assert(scored.contains(scored[j]));
            assert(moves@.to_multiset().count(scored[j]) > 0);
            assert(moves@.contains(scored[j]));
            let k = choose|k: int| 0 <= k < moves@.len() && moves@[k] == scored[j];
            assert(moves@[k].0 == mv);
        }
    }
    assert forall|j: int| 0 <= j < moves@.len() implies board.is_legal((#[trigger] moves@[j]).0)
        && moves@[j].1 >= NEG_INFINITY by {
        assert(moves@.contains(moves@[j]));
        assert(scored.to_multiset().count(moves@[j]) > 0);
        assert(scored.contains(moves@[j]));
        let k = choose|k: int| 0 <= k < scored.len() && scored[k] == moves@[j];
        assert(scored[k].0 == start[k].0);
    }
    if let Some(line) = pv {
        if moves.len() > 0 {
            line.push(moves[0].0);
        }
    }
}

} // verus!
