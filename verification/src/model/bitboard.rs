//! Bitboards: sets of board fields packed into the low 57 bits of a `u64`.
//!
//! A bitboard is read as the set of bit positions that are set. Every contract in this crate
//! speaks of bitboards through `has_bit`, and the lemmas here connect the bitwise operators with
//! set operations on those positions.
use vstd::prelude::*;
use vstd::std_specs::bits::{u64_trailing_zeros, axiom_u64_trailing_zeros};

verus! {

pub type BitBoard = u64;

/// Bit `k` of `bb` is set.
pub open spec fn has_bit(bb: u64, k: int) -> bool {
    0 <= k < 64 && (bb >> (k as u64)) & 1u64 == 1u64
}

/// The bitboard holding bit `k` alone.
pub open spec fn bit(k: int) -> u64 {
    1u64 << (k as u64)
}

/// The position of the lowest set bit (64 for the empty bitboard).
pub open spec fn lowest(bb: u64) -> int {
    u64_trailing_zeros(bb) as int
}

/// `bb` holds exactly one bit.
pub open spec fn is_single(bb: u64) -> bool {
    bb != 0 && bb == bit(lowest(bb))
}

/// Every bit of `a` is a bit of `b`.
pub open spec fn subset(a: u64, b: u64) -> bool {
    forall|k: int| #[trigger] has_bit(a, k) ==> has_bit(b, k)
}

/// Every bit of `bb` lies below position `n`.
pub open spec fn below(bb: u64, n: int) -> bool {
    forall|k: int| #[trigger] has_bit(bb, k) ==> k < n
}

/// The number of set bits of `bb` below position `n`.
pub open spec fn pop_below(bb: u64, n: nat) -> nat
    decreases n,
{
    if n == 0 {
        0
    } else {
        pop_below(bb, (n - 1) as nat) + if has_bit(bb, n - 1) {
            1nat
        } else {
            0nat
        }
    }
}

/// The number of set bits of `bb`.
pub open spec fn pop(bb: u64) -> nat {
    pop_below(bb, 64)
}

proof fn bv_bit_facts(a: u64, b: u64, k: u64)
    by (bit_vector)
    requires
        k < 64,
    ensures
        ((a & b) >> k) & 1u64 == 1u64 <==> ((a >> k) & 1u64 == 1u64 && (b >> k) & 1u64 == 1u64),
        ((a | b) >> k) & 1u64 == 1u64 <==> ((a >> k) & 1u64 == 1u64 || (b >> k) & 1u64 == 1u64),
        ((a ^ b) >> k) & 1u64 == 1u64 <==> ((a >> k) & 1u64 == 1u64) != ((b >> k) & 1u64
            == 1u64),
        ((!a) >> k) & 1u64 == 1u64 <==> !((a >> k) & 1u64 == 1u64),
        (0u64 >> k) & 1u64 != 1u64,
{
}

proof fn bv_single_facts(k: u64, j: u64)
    by (bit_vector)
    requires
        k < 64,
        j < 64,
    ensures
        ((1u64 << k) >> j) & 1u64 == 1u64 <==> j == k,
        (1u64 << k) != 0,
{
}

proof fn bv_xor_zero(a: u64, b: u64)
    by (bit_vector)
    ensures
        a ^ b == 0u64 ==> a == b,
{
}

pub broadcast proof fn lemma_has_bit_and(a: u64, b: u64, k: int)
    ensures
        #[trigger] has_bit(a & b, k) == (has_bit(a, k) && has_bit(b, k)),
{
    if 0 <= k < 64 {
        bv_bit_facts(a, b, k as u64);
    }
}

pub broadcast proof fn lemma_has_bit_or(a: u64, b: u64, k: int)
    ensures
        #[trigger] has_bit(a | b, k) == (has_bit(a, k) || has_bit(b, k)),
{
    if 0 <= k < 64 {
        bv_bit_facts(a, b, k as u64);
    }
}

pub broadcast proof fn lemma_has_bit_xor(a: u64, b: u64, k: int)
    ensures
        #[trigger] has_bit(a ^ b, k) == (has_bit(a, k) != has_bit(b, k)),
{
    if 0 <= k < 64 {
        bv_bit_facts(a, b, k as u64);
    }
}

pub broadcast proof fn lemma_has_bit_not(a: u64, k: int)
    ensures
        #[trigger] has_bit(!a, k) == (0 <= k < 64 && !has_bit(a, k)),
{
    if 0 <= k < 64 {
        bv_bit_facts(a, a, k as u64);
    }
}

pub broadcast proof fn lemma_has_bit_zero(k: int)
    ensures
        !#[trigger] has_bit(0u64, k),
{
    if 0 <= k < 64 {
        bv_bit_facts(0, 0, k as u64);
    }
}

pub broadcast proof fn lemma_has_bit_single(k: int, j: int)
    requires
        0 <= k < 64,
    ensures
        #[trigger] has_bit(bit(k), j) == (j == k),
{
    if 0 <= j < 64 {
        bv_single_facts(k as u64, j as u64);
    }
}

pub broadcast group group_bits {
    lemma_has_bit_and,
    lemma_has_bit_or,
    lemma_has_bit_xor,
    lemma_has_bit_not,
    lemma_has_bit_zero,
    lemma_has_bit_single,
}

/// The algebra of exclusive or.
pub proof fn lemma_xor(a: u64, b: u64, c: u64)
    by (bit_vector)
    ensures
        a ^ 0u64 == a,
        0u64 ^ a == a,
        (a ^ b) ^ c == a ^ (b ^ c),
        a ^ b == b ^ a,
        a ^ a == 0u64,
{
}

/// Removing the lowest bit of a nonempty bitboard lowers its bit count by one; the empty bitboard
/// has no bits.
pub proof fn lemma_pop_lowest(a: u64)
    ensures
        a != 0 ==> pop(a ^ bit(lowest(a))) + 1 == pop(a),
        a == 0 <==> pop(a) == 0,
{
    broadcast use group_bits;

    if a != 0 {
        lemma_lowest(a);
        lemma_pop_remove(a, a ^ bit(lowest(a)), lowest(a));
        lemma_pop_bounds(a, 64);
    } else {
        lemma_pop_bounds(a, 0);
    }
}

/// Two bitboards with the same bits are equal.
pub proof fn lemma_bits_ext(a: u64, b: u64)
    requires
        forall|k: int| 0 <= k < 64 ==> #[trigger] has_bit(a, k) == has_bit(b, k),
    ensures
        a == b,
{
    let x = a ^ b;
    if x != 0 {
        axiom_u64_trailing_zeros(x);
        let t = u64_trailing_zeros(x) as int;
        lemma_has_bit_xor(a, b, t);
        assert(has_bit(a, t) == has_bit(b, t));
    }
    bv_xor_zero(a, b);
}

/// A bitboard is empty exactly when it has no bit set.
pub proof fn lemma_zero_iff(a: u64)
    ensures
        a == 0 <==> forall|k: int| !#[trigger] has_bit(a, k),
{
    broadcast use group_bits;

    if a != 0 {
        axiom_u64_trailing_zeros(a);
        assert(has_bit(a, lowest(a)));
    }
}

/// The facts about the lowest set bit of a nonempty bitboard.
pub proof fn lemma_lowest(a: u64)
    requires
        a != 0,
    ensures
        0 <= lowest(a) < 64,
        has_bit(a, lowest(a)),
        forall|j: int| 0 <= j < lowest(a) ==> !#[trigger] has_bit(a, j),
{
    axiom_u64_trailing_zeros(a);
    assert forall|j: int| 0 <= j < lowest(a) implies !#[trigger] has_bit(a, j) by {
        assert((a >> (j as u64)) & 1u64 == 0u64);
    }
}

/// The lowest bit of a single-bit bitboard is the bit it was made from.
pub proof fn lemma_lowest_of_bit(k: int)
    requires
        0 <= k < 64,
    ensures
        lowest(bit(k)) == k,
        is_single(bit(k)),
{
    broadcast use group_bits;

    bv_single_facts(k as u64, 0);
    lemma_lowest(bit(k));
}

/// A single-bit bitboard holds its lowest bit and nothing else.
pub proof fn lemma_single(a: u64)
    requires
        is_single(a),
    ensures
        0 <= lowest(a) < 64,
        forall|j: int| #[trigger] has_bit(a, j) == (j == lowest(a)),
{
    broadcast use group_bits;

    lemma_lowest(a);
}

/// A single-bit bitboard meets `x` exactly when `x` has its bit.
pub proof fn lemma_single_and(bb: u64, x: u64)
    requires
        is_single(bb),
    ensures
        (bb & x != 0) == has_bit(x, lowest(bb)),
        (x & bb != 0) == has_bit(x, lowest(bb)),
{
    broadcast use group_bits;

    lemma_single(bb);
    lemma_zero_iff(bb & x);
    lemma_zero_iff(x & bb);
    if bb & x != 0 {
        let k = choose|k: int| has_bit(bb & x, k);
    }
    if x & bb != 0 {
        let k = choose|k: int| has_bit(x & bb, k);
    }
    if has_bit(x, lowest(bb)) {
        assert(has_bit(bb & x, lowest(bb)));
        assert(has_bit(x & bb, lowest(bb)));
    }
}

/// A bitboard that lacks a bit of a bitboard holding it has fewer bits.
pub proof fn lemma_pop_strict(a: u64, b: u64, k: int)
    requires
        subset(a, b),
        has_bit(b, k),
        !has_bit(a, k),
    ensures
        pop(a) < pop(b),
{
    broadcast use group_bits;

    let c = b ^ bit(k);
    assert forall|j: int| #[trigger] has_bit(c, j) == (has_bit(b, j) && j != k) by {}
    lemma_pop_remove(b, c, k);
    assert(subset(a, c));
    lemma_pop_subset(a, c);
}

/// Removing one set bit lowers the bit count by one.
pub proof fn lemma_pop_remove(a: u64, b: u64, k: int)
    requires
        has_bit(a, k),
        forall|j: int| #[trigger] has_bit(b, j) == (has_bit(a, j) && j != k),
    ensures
        pop(a) == pop(b) + 1,
{
    lemma_pop_below_remove(a, b, k, 64);
}

proof fn lemma_pop_below_remove(a: u64, b: u64, k: int, n: nat)
    requires
        0 <= k < 64,
        forall|j: int| #[trigger] has_bit(b, j) == (has_bit(a, j) && j != k),
    ensures
        n <= k ==> pop_below(a, n) == pop_below(b, n),
        n > k && has_bit(a, k) ==> pop_below(a, n) == pop_below(b, n) + 1,
        n > k && !has_bit(a, k) ==> pop_below(a, n) == pop_below(b, n),
    decreases n,
{
    if n > 0 {
        lemma_pop_below_remove(a, b, k, (n - 1) as nat);
        assert(has_bit(b, n - 1) == (has_bit(a, n - 1) && n - 1 != k));
    }
}

/// A subset has no more bits than its superset.
pub proof fn lemma_pop_subset(a: u64, b: u64)
    requires
        subset(a, b),
    ensures
        pop(a) <= pop(b),
{
    lemma_pop_below_subset(a, b, 64);
}

proof fn lemma_pop_below_subset(a: u64, b: u64, n: nat)
    requires
        subset(a, b),
    ensures
        pop_below(a, n) <= pop_below(b, n),
    decreases n,
{
    if n > 0 {
        lemma_pop_below_subset(a, b, (n - 1) as nat);
        assert(has_bit(a, n - 1) ==> has_bit(b, n - 1));
    }
}

/// A bitboard whose bits lie below `n` has at most `n` bits, and one with a set bit has at least one.
pub proof fn lemma_pop_bounds(a: u64, n: nat)
    requires
        below(a, n as int),
        n <= 64,
    ensures
        pop(a) <= n,
        a != 0 ==> pop(a) >= 1,
{
    lemma_pop_below_bound(a, n, 64);
    if a != 0 {
        lemma_lowest(a);
        lemma_pop_below_pos(a, lowest(a), 64);
    }
}

proof fn lemma_pop_below_bound(a: u64, n: nat, m: nat)
    requires
        below(a, n as int),
    ensures
        pop_below(a, m) <= (if m <= n { m } else { n }),
    decreases m,
{
    if m > 0 {
        lemma_pop_below_bound(a, n, (m - 1) as nat);
        assert(has_bit(a, m - 1) ==> m - 1 < n);
    }
}

proof fn lemma_pop_below_pos(a: u64, k: int, m: nat)
    requires
        has_bit(a, k),
    ensures
        m > k ==> pop_below(a, m) >= 1,
    decreases m,
{
    if m > 0 && m > k {
        if m - 1 != k {
            lemma_pop_below_pos(a, k, (m - 1) as nat);
        }
    }
}

/// Pops the set bits of a bitboard one at a time, lowest first.
pub struct BitBoardIter {
    bb: BitBoard,
}

impl View for BitBoardIter {
    type V = u64;

    /// The bits that are still to come.
    closed spec fn view(&self) -> u64 {
        self.bb
    }
}

impl BitBoardIter {
    pub fn new(bb: BitBoard) -> (r: Self)
        ensures
            r@ == bb,
    {
        Self { bb }
    }

    /// Returns the lowest bit that is still to come, as a single-bit bitboard, and drops it.
    pub fn next(&mut self) -> (r: Option<BitBoard>)
        ensures
            old(self)@ == 0 ==> r is None && final(self)@ == 0,
            old(self)@ != 0 ==> r == Some(bit(lowest(old(self)@))) && 0 <= lowest(old(self)@) < 64
                && has_bit(old(self)@, lowest(old(self)@)) && final(self)@ == old(self)@ ^ bit(
                lowest(old(self)@),
            ),
    {
        if self.bb != 0 {
            proof {
                lemma_lowest(self.bb);
            }
            let k = self.bb.trailing_zeros();
            let b = 1u64 << k;
            self.bb = self.bb ^ b;
            Some(b)
        } else {
            None
        }
    }

    /// The number of bits still to come, as a lower and an upper bound.
    pub fn size_hint(&self) -> (r: (usize, Option<usize>))
        ensures
            r.0 == pop(self@),
            r.1 == Some(r.0),
    {
        let n = count_ones(self.bb) as usize;
        (n, Some(n))
    }
}

/// The number of set bits of `bb`.
pub fn count_ones(bb: BitBoard) -> (r: u32)
    ensures
        r == pop(bb),
        r <= 64,
{
    let mut n: u32 = 0;
    let mut k: u64 = 0;
    while k < 64
        invariant
            k <= 64,
            n == pop_below(bb, k as nat),
            n <= k,
        decreases 64 - k,
    {
        if (bb >> k) & 1 == 1 {
            n = n + 1;
        }
        k = k + 1;
    }
    n
}

/// The lowest set bit of a nonempty bitboard, as a single-bit bitboard.
pub fn lowest_bit(bb: BitBoard) -> (r: BitBoard)
    requires
        bb != 0,
    ensures
        r == bit(lowest(bb)),
        0 <= lowest(bb) < 64,
        has_bit(bb, lowest(bb)),
        is_single(r),
        lowest(r) == lowest(bb),
        forall|j: int| 0 <= j < lowest(bb) ==> !#[trigger] has_bit(bb, j),
        forall|j: int| #[trigger] has_bit(bb ^ r, j) == (has_bit(bb, j) && j != lowest(bb)),
        pop(bb ^ r) + 1 == pop(bb),
{
    proof {
        broadcast use group_bits;

        lemma_lowest(bb);
        lemma_lowest_of_bit(lowest(bb));
    }
    let k = bb.trailing_zeros();
    let r = 1u64 << k;
    proof {
        broadcast use group_bits;

        lemma_pop_remove(bb, bb ^ r, k as int);
    }
    r
}

/// The bit position of a single-bit bitboard.
pub fn bit_index(bb: BitBoard) -> (r: u32)
    requires
        bb != 0,
    ensures
        r == lowest(bb),
        r < 64,
        has_bit(bb, r as int),
{
    proof {
        lemma_lowest(bb);
    }
    bb.trailing_zeros()
}

/// The index of the hex that holds the lowest bit of `bb`.
pub fn to_index(bb: BitBoard) -> (r: usize)
    requires
        bb != 0,
    ensures
        r == lowest(bb) / 3,
        r < 22,
{
    (bit_index(bb) / 3) as usize
}

/// `bb` holds exactly one bit.
pub fn is_one_bit_set(bb: BitBoard) -> (r: bool)
    ensures
        r == is_single(bb),
{
    if bb == 0 {
        false
    } else {
        let k = bit_index(bb);
        bb == 1u64 << k
    }
}

} // verus!
