use coerceo::model::history::{count_occurrences, positions_since_irreversible};
use coerceo::model::board::Board;
use coerceo::model::ttable::{Entry, Score, TTable};
use coerceo::model::GameType;

#[test]
fn stored_score_is_found_again() {
    let mut table = TTable::new();
    assert_eq!(table.get(0x1234_5678, 0), None);
    table.set(0x1234_5678, Score::Exact(42), 3);
    assert_eq!(table.get(0x1234_5678, 3), Some(Score::Exact(42)));
    assert_eq!(table.get(0x1234_5678, 1), Some(Score::Exact(42)));
    // Not when a deeper search is asked for.
    assert_eq!(table.get(0x1234_5678, 4), None);
    // Not for another hash in the same slot.
    assert_eq!(table.get(0x1234_5678 + 0x10_0000, 3), None);
}

#[test]
fn shallower_result_of_same_age_does_not_replace() {
    let mut table = TTable::new();
    table.set(7, Score::Exact(10), 4);
    table.set(7, Score::Beta(20), 2);
    assert_eq!(table.get(7, 2), Some(Score::Exact(10)));
    table.set(7, Score::Beta(30), 5);
    assert_eq!(table.get(7, 5), Some(Score::Beta(30)));
}

#[test]
fn new_search_keeps_the_age() {
    let mut table = TTable::new();
    table.set(7, Score::Exact(10), 4);
    table.inc_age();
    // The age is unchanged, so a shallower result still does not replace the entry.
    table.set(7, Score::Beta(20), 2);
    assert_eq!(table.get(7, 2), Some(Score::Exact(10)));
    assert_eq!(table.get(7, 4), Some(Score::Exact(10)));
}

#[test]
fn empty_entry() {
    let entry = Entry::default();
    assert_eq!(entry.zobrist, 0);
    assert_eq!(entry.age, 0);
    assert_eq!(entry.depth, 0);
}

#[test]
fn positions_since_the_last_capture() {
    let start = Board::new(GameType::Ocius, 2);
    let mut captured = start;
    captured.vitals.white.pieces -= 1;
    let list = vec![start, captured, start, start];
    let since = positions_since_irreversible(&start, &list);
    assert_eq!(since.len(), 2);
    assert_eq!(count_occurrences(&list, &start), 3);
    assert_eq!(count_occurrences(&since, &start), 2);
    assert_eq!(count_occurrences(&list, &captured), 1);
}
