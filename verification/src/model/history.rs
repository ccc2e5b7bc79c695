//! The history of a game: the positions played since the last irreversible move, and how often a
//! position repeats among them.
use vstd::prelude::*;

use crate::model::board::Board;

verus! {

/// The positions of `list` played since the last irreversible move before `b`: the longest run
/// at the end of `list` whose positions have the piece and hex counts of `b`. Only these can
/// repeat `b`.
pub open spec fn since_irreversible(list: Seq<Board>, b: Board) -> Seq<Board>
    decreases list.len(),
{
    if list.len() == 0 || list.last().vitals != b.vitals {
        Seq::empty()
    } else {
        since_irreversible(list.drop_last(), b).push(list.last())
    }
}

proof fn lemma_since_irreversible(list: Seq<Board>, b: Board, k: int)
    requires
        0 <= k <= list.len(),
        k == 0 || list[k - 1].vitals != b.vitals,
        forall|j: int| k <= j < list.len() ==> #[trigger] list[j].vitals == b.vitals,
    ensures
        since_irreversible(list, b) == list.subrange(k, list.len() as int),
    decreases list.len(),
{
    if list.len() > k {
        let shorter = list.drop_last();
        assert forall|j: int| k <= j < shorter.len() implies #[trigger] shorter[j].vitals
            == b.vitals by {
            assert(shorter[j] == list[j]);
        }
        if k > 0 {
            assert(shorter[k - 1] == list[k - 1]);
        }
        lemma_since_irreversible(shorter, b, k);
        assert(list.subrange(k, list.len() as int) == shorter.subrange(
            k,
            shorter.len() as int,
        ).push(list.last()));
    }
}

/// Law: the positions since the last irreversible move before `b` are the end of `list` from
/// some place `k` on: all of them have the piece and hex counts of `b`, and the position before
/// place `k`, if any, does not (a capture or an exchange came between).
pub proof fn lemma_since_irreversible_suffix(list: Seq<Board>, b: Board)
    ensures
        exists|k: int|
            0 <= k <= list.len() && (k == 0 || list[k - 1].vitals != b.vitals) && (forall|j: int|
                k <= j < list.len() ==> #[trigger] list[j].vitals == b.vitals) && #[trigger]
                since_irreversible(list, b) == list.subrange(k, list.len() as int),
    decreases list.len(),
{
    if list.len() == 0 {
        assert(since_irreversible(list, b) == list.subrange(0, 0));
    } else if list.last().vitals != b.vitals {
        let k = list.len() as int;
        assert(since_irreversible(list, b) == list.subrange(k, k));
    } else {
        let t = list.drop_last();
        lemma_since_irreversible_suffix(t, b);
        let k = choose|k: int|
            0 <= k <= t.len() && (k == 0 || t[k - 1].vitals != b.vitals) && (forall|j: int|
                k <= j < t.len() ==> #[trigger] t[j].vitals == b.vitals) && #[trigger]
                since_irreversible(t, b) == t.subrange(k, t.len() as int);
        assert forall|j: int| k <= j < list.len() implies #[trigger] list[j].vitals == b.vitals by {
            if j < t.len() {
                assert(t[j] == list[j]);
            }
        }
        if k > 0 {
            assert(t[k - 1] == list[k - 1]);
        }
        assert(since_irreversible(list, b) == list.subrange(k, list.len() as int));
    }
}

/// The positions of `board_list` since the last irreversible move before `board`, in order.
pub fn positions_since_irreversible(board: &Board, board_list: &Vec<Board>) -> (r: Vec<Board>)
    ensures
        r@ == since_irreversible(board_list@, *board),
{
    let mut k = board_list.len();
    while k > 0 && board_list[k - 1].vitals == board.vitals
        invariant
            k <= board_list.len(),
            forall|j: int| k <= j < board_list.len() ==> #[trigger] board_list@[j].vitals
                == board.vitals,
        decreases k,
    {
        k = k - 1;
    }
    let mut r: Vec<Board> = Vec::new();
    let mut i = k;
    while i < board_list.len()
        invariant
            k <= i <= board_list.len(),
            r@ == board_list@.subrange(k as int, i as int),
        decreases board_list.len() - i,
    {
        r.push(board_list[i]);
        i = i + 1;
    }
    proof {
        lemma_since_irreversible(board_list@, *board, k as int);
    }
    r
}

/// How often `b` occurs in `list`.
pub open spec fn occurrences(list: Seq<Board>, b: Board) -> nat
    decreases list.len(),
{
    if list.len() == 0 {
        0
    } else {
        occurrences(list.drop_last(), b) + if list.last() == b {
            1nat
        } else {
            0nat
        }
    }
}

/// The position `b` repeats a position of `list` twice: `list` holds the positions since the
/// last irreversible move, at least eight of them, and two of them are `b`.
pub open spec fn repeated(list: Seq<Board>, b: Board) -> bool {
    list.len() >= 8 && occurrences(list, b) >= 2
}

/// How often `board` occurs in `list`.
pub fn count_occurrences(list: &Vec<Board>, board: &Board) -> (r: usize)
    ensures
        r == occurrences(list@, *board),
{
    let mut n: usize = 0;
    let mut i: usize = 0;
    while i < list.len()
        invariant
            i <= list.len(),
            n == occurrences(list@.subrange(0, i as int), *board),
            n <= i,
        decreases list.len() - i,
    {
        assert(list@.subrange(0, i as int + 1).drop_last() == list@.subrange(0, i as int));
        if list[i] == *board {
            n = n + 1;
        }
        i = i + 1;
    }
    assert(list@.subrange(0, list@.len() as int) == list@);
    n
}

} // verus!
