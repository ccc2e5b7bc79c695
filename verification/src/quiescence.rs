//! The value that the quiescence search finds for a position: the larger of its static
//! evaluation and the negated values of the positions after the captures it looks at.
use vstd::prelude::*;

use crate::ai::evaluation;
use crate::model::bitboard as bits;
use crate::model::board::{after_move, listed_before, remaining, Board};
use crate::model::{self, Move};

verus! {

/// The move numbered `m` among the moves that the side to move could name: a piece moving from
/// field `m / 64` to field `m % 64` for `m` below 4096, then the exchange of the piece of the
/// other side on field `m - 4096`.
pub open spec fn move_numbered(b: Board, m: int) -> Move {
    if m < 4096 {
        Move::Move(bits::bit(m / 64), bits::bit(m % 64), b.turn)
    } else {
        Move::Exchange(bits::bit(m - 4096), model::opposite(b.turn))
    }
}

/// The move numbered `m` is a capture that the quiescence search looks at: it is listed
/// (`capture_listed`), and it lowers what is left to capture (as every listed capture does, by
/// `lemma_capture_shrinks`).
pub open spec fn searched_capture(b: Board, m: int) -> bool {
    let mv = move_numbered(b, m);
    b.capture_listed(mv) && remaining(after_move(b, mv)) < remaining(b)
}

/// The value that the quiescence search finds for `b`, from the point of view of the side to
/// move: the larger of the static evaluation and the negated values of the positions after
/// each listed capture.
pub closed spec fn quiet_value(b: Board) -> int
    decreases remaining(b), 4161int,
{
    best_capture(b, 0)
}

/// The larger of the static evaluation of `b` and the negated values of the positions after the
/// listed captures numbered `m` or higher.
pub closed spec fn best_capture(b: Board, m: int) -> int
    decreases remaining(b), 4160 - m,
{
    if m < 0 || m >= 4160 {
        evaluation(b)
    } else {
        let rest = best_capture(b, m + 1);
        if searched_capture(b, m) {
            let v = -quiet_value(after_move(b, move_numbered(b, m)));
            if v > rest {
                v
            } else {
                rest
            }
        } else {
            rest
        }
    }
}

/// `best_capture` is the maximum it is said to be: at least the evaluation and every term, and
/// equal to the evaluation or to one of the terms.
pub proof fn lemma_best_capture(b: Board, m: int)
    requires
        0 <= m <= 4160,
    ensures
        best_capture(b, m) >= evaluation(b),
        forall|k: int|
            m <= k < 4160 && #[trigger] searched_capture(b, k) ==> best_capture(b, m) >= -quiet_value(
                after_move(b, move_numbered(b, k)),
            ),
        best_capture(b, m) == evaluation(b) || exists|k: int|
            m <= k < 4160 && #[trigger] searched_capture(b, k) && best_capture(b, m) == -quiet_value(
                after_move(b, move_numbered(b, k)),
            ),
    decreases 4160 - m,
{
    if m < 4160 {
        lemma_best_capture(b, m + 1);
        if best_capture(b, m + 1) != evaluation(b) && best_capture(b, m) == best_capture(b, m + 1) {
            let k = choose|k: int|
                m + 1 <= k < 4160 && #[trigger] searched_capture(b, k) && best_capture(b, m + 1)
                    == -quiet_value(after_move(b, move_numbered(b, k)));
            assert(m <= k < 4160 && searched_capture(b, k));
        }
    }
}

/// `quiet_value` is the maximum it is said to be, stated over the listed captures: at least the
/// evaluation and the negated value after each listed capture that lowers what is left, and
/// equal to the evaluation or to one of those.
pub proof fn lemma_quiet_value(b: Board)
    ensures
        quiet_value(b) >= evaluation(b),
        forall|mv: Move|
            #[trigger] b.capture_listed(mv) && remaining(after_move(b, mv)) < remaining(b)
                ==> quiet_value(b) >= -quiet_value(after_move(b, mv)),
        quiet_value(b) == evaluation(b) || exists|mv: Move|
            #[trigger] b.capture_listed(mv) && remaining(after_move(b, mv)) < remaining(b)
                && quiet_value(b) == -quiet_value(after_move(b, mv)),
{
    assert(quiet_value(b) == best_capture(b, 0));
    lemma_best_capture(b, 0);
    assert forall|mv: Move|
        #[trigger] b.capture_listed(mv) && remaining(after_move(b, mv)) < remaining(b) implies quiet_value(b)
            >= -quiet_value(after_move(b, mv)) by {
        let k = lemma_move_number(b, mv);
        assert(searched_capture(b, k));
    }
    if quiet_value(b) != evaluation(b) {
        let k = choose|k: int|
            0 <= k < 4160 && #[trigger] searched_capture(b, k) && best_capture(b, 0) == -quiet_value(
                after_move(b, move_numbered(b, k)),
            );
        let mv = move_numbered(b, k);
        assert(b.capture_listed(mv) && remaining(after_move(b, mv)) < remaining(b));
    }
}

/// The number of a move: `move_numbered` gives a legal move back from it.
pub open spec fn move_number(mv: Move) -> int {
    match mv {
        Move::Move(from, to, _) => 64 * bits::lowest(from) + bits::lowest(to),
        Move::Exchange(bb, _) => 4096 + bits::lowest(bb),
    }
}

/// A legal move is the move numbered by its number.
pub proof fn lemma_legal_number(b: Board, mv: Move)
    requires
        b.is_legal(mv),
    ensures
        0 <= move_number(mv) < 4160,
        move_numbered(b, move_number(mv)) == mv,
{
    match mv {
        Move::Move(from, to, _) => {
            bits::lemma_single(from);
            bits::lemma_single(to);
            let f = bits::lowest(from);
            let t = bits::lowest(to);
            let m = 64 * f + t;
            assert(m / 64 == f && m % 64 == t && m < 4096) by (nonlinear_arith)
                requires
                    m == 64 * f + t,
                    0 <= f < 64,
                    0 <= t < 64,
            ;
        },
        Move::Exchange(bb, _) => {
            bits::lemma_single(bb);
        },
    }
}

/// Numbering a numbered move gives its number back.
pub proof fn lemma_number_of_numbered(b: Board, m: int)
    requires
        0 <= m < 4160,
    ensures
        move_number(move_numbered(b, m)) == m,
{
    if m < 4096 {
        bits::lemma_lowest_of_bit(m / 64);
        bits::lemma_lowest_of_bit(m % 64);
    } else {
        bits::lemma_lowest_of_bit(m - 4096);
    }
}

/// The order of `generate_moves` is the order of the numbers.
pub proof fn lemma_listed_before_number(b: Board, x: Move, y: Move)
    requires
        b.is_legal(x),
        b.is_legal(y),
        listed_before(x, y),
    ensures
        move_number(x) < move_number(y),
{
    lemma_legal_number(b, x);
    lemma_legal_number(b, y);
    match (x, y) {
        (Move::Move(f1, t1, _), Move::Move(f2, t2, _)) => {
            bits::lemma_single(f1);
            bits::lemma_single(t1);
            bits::lemma_single(f2);
            bits::lemma_single(t2);
            let (a, c, d, e) = (bits::lowest(f1), bits::lowest(t1), bits::lowest(f2), bits::lowest(t2));
            assert(64 * a + c < 64 * d + e) by (nonlinear_arith)
                requires
                    0 <= c < 64,
                    0 <= e < 64,
                    a < d || (a == d && c < e),
            ;
        },
        _ => {},
    }
}

/// Every listed move has a number.
pub proof fn lemma_move_number(b: Board, mv: Move) -> (m: int)
    requires
        b.capture_listed(mv),
    ensures
        0 <= m < 4160,
        move_numbered(b, m) == mv,
{
    match mv {
        Move::Move(from, to, _) => {
            bits::lemma_single(from);
            bits::lemma_single(to);
            let f = bits::lowest(from);
            let t = bits::lowest(to);
            let m = 64 * f + t;
            assert(m / 64 == f && m % 64 == t) by (nonlinear_arith)
                requires
                    m == 64 * f + t,
                    0 <= f < 64,
                    0 <= t < 64,
            ;
            m
        },
        Move::Exchange(bb, _) => {
            bits::lemma_single(bb);
            4096 + bits::lowest(bb)
        },
    }
}

} // verus!
