//! The transposition table: search results stored by the hash of the position they were found
//! for, one entry per slot, the slot chosen by the low bits of the hash.
use vstd::prelude::*;

use crate::model::zobrist::ZobristHash;

verus! {

pub const TABLE_SIZE: usize = 1048576;

pub const TABLE_MASK: u64 = 0xF_FFFF;

/// What table contents `t` hold for hash `zobrist` searched to `depth` or deeper: the score of
/// the entry in its slot, if that entry is for the same hash and deep enough.
pub open spec fn lookup_in(t: (Seq<Entry>, u8), zobrist: ZobristHash, depth: i8) -> Option<Score> {
    let e = t.0[slot(zobrist)];
    if e.zobrist == zobrist && e.depth >= depth {
        Some(e.score)
    } else {
        None
    }
}

/// Table contents `t` after storing `score` for hash `zobrist` at `depth`: the slot of the hash
/// takes the new entry, of the current age, unless it holds an entry of the current age that
/// was searched at least as deep; nothing else changes.
pub open spec fn store_in(t: (Seq<Entry>, u8), zobrist: ZobristHash, score: Score, depth: i8) -> (
    Seq<Entry>,
    u8,
) {
    let e = t.0[slot(zobrist)];
    let replace = e.zobrist == 0 || t.1 != e.age || depth > e.depth;
    (
        if replace {
            t.0.update(slot(zobrist), Entry { score, age: t.1, depth, zobrist })
        } else {
            t.0
        },
        t.1,
    )
}

/// A stored score: exact, or a lower bound found by a beta cutoff.
#[derive(Clone, Copy, Debug, PartialEq, Eq, Structural)]
pub enum Score {
    Exact(i16),
    Beta(i16),
}

/// The number a score holds.
pub open spec fn score_value(s: Score) -> i16 {
    match s {
        Score::Exact(v) => v,
        Score::Beta(v) => v,
    }
}

#[derive(Clone, Copy, PartialEq, Eq, Structural)]
pub struct Entry {
    pub score: Score,
    pub age: u8,
    pub depth: i8,
    pub zobrist: ZobristHash,
}

impl Default for Entry {
    fn default() -> (r: Self)
        ensures
            r == empty_entry(),
    {
        Self {
            score: Score::Exact(0),
            age: 0,
            depth: 0,
            // The only field that matters for determining if this is an empty entry or not.
            // Assume (and hope) that no valid board ever hashes to 0.
            zobrist: 0,
        }
    }
}

/// The entry of an empty slot.
pub open spec fn empty_entry() -> Entry {
    Entry { score: Score::Exact(0), age: 0, depth: 0, zobrist: 0 }
}

/// The slot of hash `z`.
pub open spec fn slot(z: u64) -> int {
    (z & TABLE_MASK) as int
}

proof fn lemma_slot(z: u64)
    by (bit_vector)
    ensures
        z & 0xF_FFFFu64 < 0x10_0000u64,
{
}

// This could just by an array, but because arrays are allocated on the stack (even when
// doing Box::new(array)), we need to use a Vec
pub struct TTable {
    table: Vec<Entry>,
    age: u8,
}

impl TTable {
    /// A table holds one entry for each slot.
    pub open spec fn wf(self) -> bool {
        self.entries().len() == TABLE_SIZE
    }

    /// The entries, slot by slot.
    pub closed spec fn entries(self) -> Seq<Entry> {
        self.table@
    }

    /// The current age: entries of an older age give way to any new entry.
    pub closed spec fn spec_age(self) -> u8 {
        self.age
    }

    /// The contents of the table: its entries, slot by slot, and its age.
    pub open spec fn pair(self) -> (Seq<Entry>, u8) {
        (self.entries(), self.spec_age())
    }

    /// What the table holds for hash `zobrist` searched to `depth` or deeper: the score of the
    /// entry in its slot, if that entry is for the same hash and deep enough.
    pub open spec fn lookup(self, zobrist: ZobristHash, depth: i8) -> Option<Score> {
        lookup_in(self.pair(), zobrist, depth)
    }

    /// This table is `before` after storing `score` for hash `zobrist` at `depth` (see
    /// `store_in`).
    pub open spec fn stored(self, before: TTable, zobrist: ZobristHash, score: Score, depth: i8) -> bool {
        self.pair() == store_in(before.pair(), zobrist, score, depth)
    }

    /// Every stored score can be negated.
    pub open spec fn scores_bounded(self) -> bool {
        forall|i: int|
            0 <= i < self.entries().len() ==> score_value(#[trigger] self.entries()[i].score)
                > i16::MIN
    }

    pub fn new() -> (r: Self)
        ensures
            r.wf(),
            forall|i: int| 0 <= i < TABLE_SIZE ==> #[trigger] r.entries()[i] == empty_entry(),
            r.spec_age() == 0,
            r.scores_bounded(),
    {
        let mut table: Vec<Entry> = Vec::new();
        let mut i: usize = 0;
        while i < TABLE_SIZE
            invariant
                i <= TABLE_SIZE,
                table@.len() == i,
                forall|j: int| 0 <= j < i ==> #[trigger] table@[j] == empty_entry(),
            decreases TABLE_SIZE - i,
        {
            table.push(Entry::default());
            i = i + 1;
        }
        Self { table, age: 0 }
    }

    /// Marks the start of a new search. The age is computed but not kept, so it stays as it is:
    /// entries of earlier searches give way only to deeper results.
    pub fn inc_age(&mut self)
        ensures
            *final(self) == *old(self),
    {
        let _next = self.age.wrapping_add(1);
    }

    /// The stored score for hash `zobrist`, if one was stored for it at `depth` or deeper.
    pub fn get(&self, zobrist: ZobristHash, depth: i8) -> (r: Option<Score>)
        requires
            self.wf(),
        ensures
            r == self.lookup(zobrist, depth),
            self.scores_bounded() && r is Some ==> score_value(r->0) > i16::MIN,
    {
        proof {
            lemma_slot(zobrist);
        }
        let hash = (zobrist & TABLE_MASK) as usize;
        let entry = self.table[hash];
        if entry.zobrist == zobrist && entry.depth >= depth {
            Some(entry.score)
        } else {
            None
        }
    }

    /// Stores `score` for hash `zobrist` at `depth`, unless the slot holds an entry of the current
    /// age that was searched at least as deep.
    pub fn set(&mut self, zobrist: ZobristHash, score: Score, depth: i8)
        requires
            old(self).wf(),
        ensures
            final(self).wf(),
            final(self).stored(*old(self), zobrist, score, depth),
            old(self).scores_bounded() && score_value(score) > i16::MIN
                ==> final(self).scores_bounded(),
    {
        proof {
            lemma_slot(zobrist);
        }
        let hash = (zobrist & TABLE_MASK) as usize;
        let mut entry = self.table[hash];
        let mut replace = false;
        if entry.zobrist != 0 {
            if self.age != entry.age || depth > entry.depth {
                replace = true;
            }
        } else {
            replace = true;
        }

        if replace {
            entry.score = score;
            entry.age = self.age;
            entry.depth = depth;
            entry.zobrist = zobrist;
            self.table.set(hash, entry);
        }
    }
}

/// What is read back after a store: when the store takes the slot (it was empty, of an older age,
/// or searched less deep), the score is found again for the hash at any depth up to the one it was
/// stored at.
pub proof fn lemma_get_after_set(
    before: TTable,
    after: TTable,
    zobrist: ZobristHash,
    score: Score,
    depth: i8,
    query: i8,
)
    requires
        before.wf(),
        after.stored(before, zobrist, score, depth),
        ({
            let e = before.entries()[slot(zobrist)];
            e.zobrist == 0 || before.spec_age() != e.age || depth > e.depth
        }),
        query <= depth,
    ensures
        after.lookup(zobrist, query) == Some(score),
{
    lemma_slot(zobrist);
}

} // verus!
