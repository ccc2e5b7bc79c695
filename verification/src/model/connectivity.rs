//! The extant hexes stay joined across edges: the starting positions are joined, and taking off
//! a hex that its neighbors let go keeps every two remaining hexes joined by a walk over extant
//! hexes, so no move splits the board. On such a board a side with pieces is stalemated exactly
//! when it has no legal move.
use vstd::prelude::*;

use crate::model::bitboard as bits;
use crate::model::board::{
    hex_extant, hexes_wf, lemma_bit_hex, lemma_cascade_removes, outcome_of, removable_then,
    removal_order, single_field, without, Board,
};
use crate::model::constants::{
    self, hex_all_neighbors, hex_mask_spec, hex_neighbor_spec, hex_touches, maybe_removable,
    removable_comb, start_hex, start_location,
};
use crate::model::tables::{
    self, all_neighbor_bits, hex_neighbor_bits, vertex_bits_black, vertex_bits_white, vertex_table,
};
use crate::model::{hex_index_of, opposite, Color, GameType, Move, Outcome};

verus! {

broadcast use bits::group_bits;

// ---------------------------------------------------------------------------------------------
// Walks over extant hexes
// ---------------------------------------------------------------------------------------------

/// `h` is a hex of the board and extant in `hexes`.
pub open spec fn on_board(hexes: u64, h: int) -> bool {
    0 <= h < 19 && hex_extant(hexes, h)
}

/// Step `i` of the walk `p` crosses an edge.
pub open spec fn step_ok(p: Seq<int>, i: int) -> bool {
    hex_touches(p[i], p[i + 1])
}

/// `p` is a walk over the extant hexes of `hexes`, each hex next to the one before across an edge.
pub open spec fn hex_walk(hexes: u64, p: Seq<int>) -> bool {
    &&& p.len() > 0
    &&& forall|i: int| 0 <= i < p.len() ==> on_board(hexes, #[trigger] p[i])
    &&& forall|i: int| 0 <= i < p.len() - 1 ==> #[trigger] step_ok(p, i)
}

/// A walk over the extant hexes of `hexes` leads from `a` to `b`.
pub open spec fn joined(hexes: u64, a: int, b: int) -> bool {
    exists|p: Seq<int>| #[trigger] hex_walk(hexes, p) && p[0] == a && p.last() == b
}

/// Every two extant hexes are joined by a walk over extant hexes.
pub open spec fn hexes_connected(hexes: u64) -> bool {
    forall|a: int, b: int|
        #![trigger joined(hexes, a, b)]
        on_board(hexes, a) && on_board(hexes, b) ==> joined(hexes, a, b)
}

/// Two walks, the second starting where the first ends, make one.
proof fn lemma_walk_concat(hexes: u64, d: Seq<int>, r: Seq<int>)
    requires
        hex_walk(hexes, d),
        hex_walk(hexes, r),
        d.last() == r[0],
    ensures
        hex_walk(hexes, d + r.drop_first()),
        (d + r.drop_first())[0] == d[0],
        (d + r.drop_first()).last() == r.last(),
{
    let q = d + r.drop_first();
    assert forall|i: int| 0 <= i < q.len() implies on_board(hexes, #[trigger] q[i]) by {
        if i < d.len() {
            assert(q[i] == d[i]);
        } else {
            assert(q[i] == r[i - d.len() + 1]);
        }
    }
    assert forall|i: int| 0 <= i < q.len() - 1 implies #[trigger] step_ok(q, i) by {
        if i < d.len() - 1 {
            assert(step_ok(d, i));
        } else if i == d.len() - 1 {
            assert(step_ok(r, 0));
        } else {
            assert(step_ok(r, i - d.len() + 1));
        }
    }
}

// ---------------------------------------------------------------------------------------------
// The geometry of the neighbors of a hex
// ---------------------------------------------------------------------------------------------

/// Two neighbors that come one after the other around a hex are neighbors of each other.
proof fn bv_next_neighbors_touch(h: u64, f: u64, g: u64, n: u64, m: u64)
    by (bit_vector)
    requires
        h < 19,
        f < 6,
        g == (f + 1) % 6,
        n < 19,
        m < 19,
        hex_neighbor_bits((6 * h + f) as u64) & (7u64 << (3u64 * n)) != 0,
        hex_neighbor_bits((6 * h + g) as u64) & (7u64 << (3u64 * m)) != 0,
    ensures
        all_neighbor_bits(n) & (7u64 << (3u64 * m)) != 0,
{
}

/// The neighbors of a hex on the board lie in one arc: between two of them that are two edges
/// apart, the one across the edge between is on the board too.
proof fn bv_neighbors_in_arc(h: u64, f: u64, g: u64, e: u64, n: u64, m: u64)
    by (bit_vector)
    requires
        h < 19,
        f < 6,
        g == (f + 1) % 6,
        e == (f + 2) % 6,
        n < 19,
        m < 19,
        hex_neighbor_bits((6 * h + f) as u64) & (7u64 << (3u64 * n)) != 0,
        hex_neighbor_bits((6 * h + e) as u64) & (7u64 << (3u64 * m)) != 0,
    ensures
        hex_neighbor_bits((6 * h + g) as u64) != 0,
{
}

/// No hex is its own neighbor, and a field across an edge lies on one hex and below bit 57.
proof fn bv_neighbor_fields(h: u64, f: u64, n: u64, m: u64)
    by (bit_vector)
    requires
        h < 19,
        f < 6,
        n < 19,
        m < 19,
    ensures
        all_neighbor_bits(h) & (7u64 << (3u64 * h)) == 0,
        hex_neighbor_bits((6 * h + f) as u64) & (7u64 << (3u64 * n)) != 0 && hex_neighbor_bits(
            (6 * h + f) as u64,
        ) & (7u64 << (3u64 * m)) != 0 ==> n == m,
        hex_neighbor_bits((6 * h + f) as u64) >> 57u64 == 0,
{
}

/// A set bit of a bitboard whose bits all lie below 57 lies below 57.
proof fn bv_bit_below(x: u64, k: u64)
    by (bit_vector)
    requires
        x >> 57u64 == 0,
        k < 64,
        (x >> k) & 1u64 == 1u64,
    ensures
        k < 57,
{
}

/// Edge `s` of hex `h` in the bit-vector form of the table.
proof fn lemma_slot_bits(h: int, s: int)
    requires
        0 <= h < 19,
        0 <= s < 6,
    ensures
        hex_neighbor_spec(h, s) == hex_neighbor_bits((6 * (h as u64) + (s as u64)) as u64),
{
    tables::lemma_hex_neighbor_as_bits((6 * h + s) as u64);
}

/// The field across each edge of `h` is one of the fields around `h`.
proof fn lemma_slot_in_all(h: int, s: int, k: int)
    requires
        0 <= s < 6,
        bits::has_bit(hex_neighbor_spec(h, s), k),
    ensures
        bits::has_bit(hex_all_neighbors(h), k),
{
}

/// The edges of a hex that combination `j` of `removable_comb` keeps.
pub open spec fn in_comb(j: int, s: int) -> bool {
    let f = j % 6;
    if j < 6 {
        s == f || s == (f + 1) % 6 || s == (f + 2) % 6
    } else if j < 12 {
        s == f || s == (f + 1) % 6
    } else {
        s == f
    }
}

/// The bits of combination `j` are the bits of the fields across the edges it keeps.
proof fn lemma_comb_bits(h: int, j: int, k: int)
    requires
        0 <= j < 18,
    ensures
        bits::has_bit(removable_comb(h, j), k) ==> exists|s: int|
            0 <= s < 6 && in_comb(j, s) && #[trigger] bits::has_bit(hex_neighbor_spec(h, s), k),
        forall|s: int|
            0 <= s < 6 && in_comb(j, s) && #[trigger] bits::has_bit(hex_neighbor_spec(h, s), k)
                ==> bits::has_bit(removable_comb(h, j), k),
{
    let f = j % 6;
    let g = (f + 1) % 6;
    let e = (f + 2) % 6;
    if bits::has_bit(removable_comb(h, j), k) {
        if bits::has_bit(hex_neighbor_spec(h, f), k) {
            assert(in_comb(j, f));
        } else if bits::has_bit(hex_neighbor_spec(h, g), k) {
            assert(in_comb(j, g));
        } else {
            assert(in_comb(j, e));
        }
    }
}

/// A neighbor of a removable hex that is extant lies across one of the edges that the
/// combination of its neighbors keeps.
proof fn lemma_neighbor_slot(hexes: u64, h: int, j: int, u: int) -> (s: int)
    requires
        hexes_wf(hexes),
        0 <= h < 19,
        0 <= j < 18,
        (hexes & hex_all_neighbors(h)) == removable_comb(h, j),
        on_board(hexes, u),
        hex_touches(h, u),
    ensures
        0 <= s < 6,
        in_comb(j, s),
        hex_neighbor_spec(h, s) & hex_mask_spec(u) != 0,
{
    bits::lemma_zero_iff(hex_all_neighbors(h) & hex_mask_spec(u));
    let k = choose|k: int| bits::has_bit(hex_all_neighbors(h) & hex_mask_spec(u), k);
    constants::lemma_hex_mask(u);
    assert(bits::has_bit(hex_mask_spec(u), k));
    lemma_bit_hex(hexes, k);
    assert(k / 3 == u);
    assert(bits::has_bit(hexes & hex_all_neighbors(h), k));
    lemma_comb_bits(h, j, k);
    let s = choose|s: int|
        0 <= s < 6 && in_comb(j, s) && #[trigger] bits::has_bit(hex_neighbor_spec(h, s), k);
    bits::lemma_zero_iff(hex_neighbor_spec(h, s) & hex_mask_spec(u));
    assert(bits::has_bit(hex_neighbor_spec(h, s) & hex_mask_spec(u), k));
    s
}

/// The hex across a kept edge of a removable hex is extant, and it is not the hex itself.
proof fn lemma_slot_hex(hexes: u64, h: int, j: int, g: int) -> (m: int)
    requires
        hexes_wf(hexes),
        0 <= h < 19,
        0 <= j < 18,
        (hexes & hex_all_neighbors(h)) == removable_comb(h, j),
        0 <= g < 6,
        in_comb(j, g),
        hex_neighbor_spec(h, g) != 0,
    ensures
        on_board(hexes, m),
        m != h,
        hex_neighbor_spec(h, g) & hex_mask_spec(m) != 0,
{
    let x = hex_neighbor_spec(h, g);
    bits::lemma_zero_iff(x);
    let k = choose|k: int| bits::has_bit(x, k);
    lemma_slot_bits(h, g);
    bv_neighbor_fields(h as u64, g as u64, 0, 0);
    bv_bit_below(x, k as u64);
    lemma_comb_bits(h, j, k);
    assert(bits::has_bit(removable_comb(h, j), k));
    assert(bits::has_bit(hexes & hex_all_neighbors(h), k));
    lemma_bit_hex(hexes, k);
    let m = k / 3;
    lemma_slot_in_all(h, g, k);
    constants::lemma_all_neighbors_as_bits(h);
    constants::lemma_hex_mask(h);
    assert(hex_all_neighbors(h) & hex_mask_spec(h) == 0);
    bits::lemma_zero_iff(hex_all_neighbors(h) & hex_mask_spec(h));
    assert(!bits::has_bit(hex_all_neighbors(h) & hex_mask_spec(h), k));
    assert(!bits::has_bit(hex_mask_spec(h), k));
    constants::lemma_hex_mask(m);
    assert(bits::has_bit(x & hex_mask_spec(m), k));
    bits::lemma_zero_iff(x & hex_mask_spec(m));
    m
}

/// No hex lies across an edge of itself.
proof fn lemma_no_self_touch(h: int)
    requires
        0 <= h < 19,
    ensures
        !hex_touches(h, h),
{
    constants::lemma_all_neighbors_as_bits(h);
    bv_neighbor_fields(h as u64, 0, 0, 0);
}

/// Two hexes across consecutive edges `f` and `f + 1` of hex `h` touch each other.
proof fn lemma_next_touch(h: int, f: int, n: int, m: int)
    requires
        0 <= h < 19,
        0 <= f < 6,
        0 <= n < 19,
        0 <= m < 19,
        hex_neighbor_spec(h, f) & hex_mask_spec(n) != 0,
        hex_neighbor_spec(h, (f + 1) % 6) & hex_mask_spec(m) != 0,
    ensures
        hex_touches(n, m),
{
    lemma_slot_bits(h, f);
    lemma_slot_bits(h, (f + 1) % 6);
    constants::lemma_all_neighbors_as_bits(n);
    constants::lemma_all_neighbors_as_bits(m);
    bv_next_neighbors_touch(h as u64, f as u64, ((f + 1) % 6) as u64, n as u64, m as u64);
}

// ---------------------------------------------------------------------------------------------
// Taking a hex off
// ---------------------------------------------------------------------------------------------

/// Hex `h` may go from `hexes` with its neighbors kept as combination `j`.
pub open spec fn removable_as(hexes: u64, h: int, j: int) -> bool {
    &&& hexes_wf(hexes)
    &&& 0 <= h < 19
    &&& hex_extant(hexes, h)
    &&& 0 <= j < 18
    &&& (hexes & hex_all_neighbors(h)) == removable_comb(h, j)
}

/// Two extant neighbors of a removable hex stay joined without it: they lie across kept edges,
/// which come in one arc of at most three.
proof fn lemma_detour(hexes: u64, h: int, j: int, u: int, w: int)
    requires
        removable_as(hexes, h, j),
        on_board(hexes, u),
        on_board(hexes, w),
        u != h,
        w != h,
        hex_touches(h, u),
        hex_touches(h, w),
    ensures
        joined(hexes & !hex_mask_spec(h), u, w),
{
    let h1 = hexes & !hex_mask_spec(h);
    lemma_cascade_removes(hexes, h);
    assert(on_board(h1, u));
    assert(on_board(h1, w));
    let su = lemma_neighbor_slot(hexes, h, j, u);
    let sw = lemma_neighbor_slot(hexes, h, j, w);
    let f = j % 6;
    let g = (f + 1) % 6;
    let e = (f + 2) % 6;
    if su == sw {
        lemma_slot_bits(h, su);
        constants::lemma_all_neighbors_as_bits(u);
        constants::lemma_all_neighbors_as_bits(w);
        bv_neighbor_fields(h as u64, su as u64, u as u64, w as u64);
        let p = seq![u];
        assert(p[0] == u);
        assert(hex_walk(h1, p));
    } else if sw == (su + 1) % 6 || su == (sw + 1) % 6 {
        if sw == (su + 1) % 6 {
            lemma_next_touch(h, su, u, w);
        } else {
            lemma_next_touch(h, sw, w, u);
            constants::lemma_hex_touches_symmetric(w, u);
        }
        let p = seq![u, w];
        assert(p[0] == u && p[1] == w);
        assert(step_ok(p, 0));
        assert(hex_walk(h1, p));
    } else {
        assert(j < 6);
        assert((su == f && sw == e) || (su == e && sw == f));
        let (a, b) = if su == f {
            (u, w)
        } else {
            (w, u)
        };
        lemma_slot_bits(h, f);
        lemma_slot_bits(h, g);
        lemma_slot_bits(h, e);
        constants::lemma_all_neighbors_as_bits(a);
        constants::lemma_all_neighbors_as_bits(b);
        bv_neighbors_in_arc(h as u64, f as u64, g as u64, e as u64, a as u64, b as u64);
        assert(in_comb(j, g));
        let m = lemma_slot_hex(hexes, h, j, g);
        assert(on_board(h1, m));
        lemma_next_touch(h, f, a, m);
        assert((g + 1) % 6 == e);
        lemma_next_touch(h, g, m, b);
        constants::lemma_hex_touches_symmetric(a, m);
        constants::lemma_hex_touches_symmetric(m, b);
        let p = seq![u, m, w];
        assert(p[0] == u && p[1] == m && p[2] == w);
        assert(step_ok(p, 0));
        assert(step_ok(p, 1));
        assert(hex_walk(h1, p));
    }
}

/// The walk from the `n`-th hex of a walk on is a walk.
proof fn lemma_walk_skip(hexes: u64, p: Seq<int>, n: int)
    requires
        hex_walk(hexes, p),
        0 <= n < p.len(),
    ensures
        hex_walk(hexes, p.skip(n)),
        p.skip(n)[0] == p[n],
        p.skip(n).last() == p.last(),
{
    let q = p.skip(n);
    assert forall|i: int| 0 <= i < q.len() implies on_board(hexes, #[trigger] q[i]) by {
        assert(q[i] == p[i + n]);
    }
    assert forall|i: int| 0 <= i < q.len() - 1 implies #[trigger] step_ok(q, i) by {
        assert(step_ok(p, i + n));
    }
}

/// A walk between two hexes other than `h` can go round `h` once `h` is taken off.
proof fn lemma_reroute(hexes: u64, h: int, j: int, p: Seq<int>) -> (q: Seq<int>)
    requires
        removable_as(hexes, h, j),
        hex_walk(hexes, p),
        p[0] != h,
        p.last() != h,
    ensures
        hex_walk(hexes & !hex_mask_spec(h), q),
        q[0] == p[0],
        q.last() == p.last(),
    decreases p.len(),
{
    let h1 = hexes & !hex_mask_spec(h);
    lemma_cascade_removes(hexes, h);
    assert(on_board(hexes, p[0]));
    if p.len() == 1 {
        let q = seq![p[0]];
        assert(q[0] == p[0]);
        assert(on_board(h1, p[0]));
        assert(hex_walk(h1, q));
        q
    } else if p[1] != h {
        lemma_walk_skip(hexes, p, 1);
        let r = lemma_reroute(hexes, h, j, p.skip(1));
        let d = seq![p[0], p[1]];
        assert(d[0] == p[0] && d[1] == p[1]);
        assert(on_board(hexes, p[1]));
        assert(on_board(h1, p[1]));
        assert(on_board(h1, p[0]));
        assert(step_ok(p, 0));
        assert(step_ok(d, 0));
        assert(hex_walk(h1, d));
        lemma_walk_concat(h1, d, r);
        d + r.drop_first()
    } else {
        assert(p.len() >= 3);
        assert(step_ok(p, 0));
        assert(step_ok(p, 1));
        assert(on_board(hexes, p[2]));
        lemma_no_self_touch(h);
        assert(p[2] != h);
        constants::lemma_hex_touches_symmetric(p[0], h);
        lemma_walk_skip(hexes, p, 2);
        let r = lemma_reroute(hexes, h, j, p.skip(2));
        lemma_detour(hexes, h, j, p[0], p[2]);
        let d = choose|d: Seq<int>| #[trigger] hex_walk(h1, d) && d[0] == p[0] && d.last() == p[2];
        lemma_walk_concat(h1, d, r);
        d + r.drop_first()
    }
}

/// Taking a hex off a well-formed hex bitboard leaves a well-formed one.
proof fn lemma_remove_wf(hexes: u64, h: int)
    requires
        hexes_wf(hexes),
        0 <= h < 19,
    ensures
        hexes_wf(hexes & !hex_mask_spec(h)),
{
    let h1 = hexes & !hex_mask_spec(h);
    constants::lemma_hex_mask(h);
    assert forall|k: int| #[trigger] bits::has_bit(h1, k) implies k < 57 by {
        assert(bits::has_bit(hexes, k));
    }
    assert forall|g: int| 0 <= g < 19 implies (#[trigger] hex_extant(h1, g) == bits::has_bit(
        h1,
        3 * g + 1,
    ) && hex_extant(h1, g) == bits::has_bit(h1, 3 * g + 2)) by {
        assert(hex_extant(hexes, g) == bits::has_bit(hexes, 3 * g + 1));
        assert(hex_extant(hexes, g) == bits::has_bit(hexes, 3 * g + 2));
        assert(bits::has_bit(hex_mask_spec(h), 3 * g) == (g == h));
        assert(bits::has_bit(hex_mask_spec(h), 3 * g + 1) == (g == h));
        assert(bits::has_bit(hex_mask_spec(h), 3 * g + 2) == (g == h));
    }
}

/// Taking off a hex that its neighbors let go (`maybe_removable`) keeps the extant hexes joined.
pub proof fn lemma_removal_keeps_connected(hexes: u64, h: int)
    requires
        hexes_wf(hexes),
        hexes_connected(hexes),
        0 <= h < 19,
        hex_extant(hexes, h),
        maybe_removable(hexes, h),
    ensures
        hexes_wf(hexes & !hex_mask_spec(h)),
        hexes_connected(hexes & !hex_mask_spec(h)),
{
    let h1 = hexes & !hex_mask_spec(h);
    lemma_remove_wf(hexes, h);
    lemma_cascade_removes(hexes, h);
    let j = choose|j: int|
        0 <= j < 18 && (hexes & hex_all_neighbors(h)) == #[trigger] removable_comb(h, j);
    assert forall|a: int, b: int| on_board(h1, a) && on_board(h1, b) implies #[trigger] joined(
        h1,
        a,
        b,
    ) by {
        assert(on_board(hexes, a) && a != h);
        assert(on_board(hexes, b) && b != h);
        assert(joined(hexes, a, b));
        let p = choose|p: Seq<int>| #[trigger] hex_walk(hexes, p) && p[0] == a && p.last() == b;
        let q = lemma_reroute(hexes, h, j, p);
        assert(hex_walk(h1, q) && q[0] == a && q.last() == b);
    }
}

/// Taking off, one after the other, hexes that are each removable when they go keeps the
/// extant hexes joined.
pub proof fn lemma_removals_keep_connected(hexes: u64, p: u64, q: u64, s: Seq<int>)
    requires
        hexes_wf(hexes),
        hexes_connected(hexes),
        forall|j: int|
            0 <= j < s.len() ==> removable_then(without(hexes, s.take(j)), p, q, #[trigger] s[j]),
    ensures
        hexes_wf(without(hexes, s)),
        hexes_connected(without(hexes, s)),
    decreases s.len(),
{
    if s.len() > 0 {
        let t = s.drop_last();
        assert forall|j: int| 0 <= j < t.len() implies removable_then(
            without(hexes, t.take(j)),
            p,
            q,
            #[trigger] t[j],
        ) by {
            assert(t.take(j) == s.take(j));
            assert(t[j] == s[j]);
        }
        lemma_removals_keep_connected(hexes, p, q, t);
        let n = s.len() - 1;
        assert(s.take(n) == t);
        assert(removable_then(without(hexes, s.take(n)), p, q, s[n]));
        lemma_removal_keeps_connected(without(hexes, t), s.last());
    }
}

/// Law: a move played on a well-formed board whose extant hexes are joined leaves them joined;
/// `apply_move` plays a move so (`played`), and so no move splits the board.
pub proof fn lemma_move_keeps_connected(before: Board, after: Board, mv: Move)
    requires
        before.wf(),
        hexes_connected(before.hex_bits()),
        after.played(before, mv),
    ensures
        hexes_connected(after.hex_bits()),
{
    match mv {
        Move::Move(from, to, c) => {
            let o = opposite(c);
            let moved = before.field_bits(c) ^ (from | to);
            let s = choose|s: Seq<int>|
                #[trigger] removal_order(
                    before.hex_bits(),
                    after.hex_bits(),
                    moved,
                    before.field_bits(o),
                    s,
                ) && (s.len() > 0 ==> s[0] == crate::model::board::hex_of(from));
            lemma_removals_keep_connected(before.hex_bits(), moved, before.field_bits(o), s);
        },
        Move::Exchange(bb, o) => {
            let c = opposite(o);
            let left = before.field_bits(o) ^ bb;
            let s = choose|s: Seq<int>|
                #[trigger] removal_order(
                    before.hex_bits(),
                    after.hex_bits(),
                    before.field_bits(c),
                    left,
                    s,
                ) && (s.len() > 0 ==> s[0] == crate::model::board::hex_of(bb));
            lemma_removals_keep_connected(before.hex_bits(), before.field_bits(c), left, s);
        },
    }
}

// ---------------------------------------------------------------------------------------------
// The starting positions
// ---------------------------------------------------------------------------------------------

/// A hex one step nearer the center hex (number 9); the center itself for the center.
pub open spec fn toward_center(h: u64) -> u64 {
    if h == 0u64 {
        4u64
    } else if h == 1u64 {
        5u64
    } else if h == 2u64 {
        5u64
    } else if h == 3u64 {
        4u64
    } else if h == 4u64 {
        9u64
    } else if h == 5u64 {
        9u64
    } else if h == 6u64 {
        5u64
    } else if h == 7u64 {
        8u64
    } else if h == 8u64 {
        9u64
    } else if h == 10u64 {
        9u64
    } else if h == 11u64 {
        10u64
    } else if h == 12u64 {
        13u64
    } else if h == 13u64 {
        9u64
    } else if h == 14u64 {
        9u64
    } else if h == 15u64 {
        14u64
    } else if h == 16u64 {
        13u64
    } else if h == 17u64 {
        13u64
    } else if h == 18u64 {
        14u64
    } else {
        9u64
    }
}

/// Each hex other than the center touches the hex one step nearer the center, which is the
/// center or touches it.
proof fn bv_toward_center(h: u64)
    by (bit_vector)
    requires
        h < 19,
        h != 9,
    ensures
        toward_center(h) < 19,
        all_neighbor_bits(h) & (7u64 << (3u64 * toward_center(h))) != 0,
        toward_center(h) == 9 || toward_center(toward_center(h)) == 9,
{
}

/// The hex nearer the center as an integer, with its facts.
proof fn lemma_toward_center(a: int) -> (t: int)
    requires
        0 <= a < 19,
        a != 9,
    ensures
        t == toward_center(a as u64),
        0 <= t < 19,
        hex_touches(a, t),
        hex_touches(t, a),
        t == 9 || toward_center(t as u64) == 9,
{
    bv_toward_center(a as u64);
    let t = toward_center(a as u64) as int;
    constants::lemma_all_neighbors_as_bits(a);
    constants::lemma_all_neighbors_as_bits(t);
    constants::lemma_hex_touches_symmetric(a, t);
    t
}

/// When the center is extant and each other extant hex has the hex nearer the center extant, every
/// extant hex is joined to the center, both ways.
proof fn lemma_walk_to_center(hexes: u64, a: int) -> (p: Seq<int>)
    requires
        on_board(hexes, 9),
        forall|x: int| #[trigger] on_board(hexes, x) && x != 9 ==> on_board(hexes, toward_center(x as u64) as int),
        on_board(hexes, a),
    ensures
        hex_walk(hexes, p),
        p[0] == a,
        p.last() == 9,
        hex_walk(hexes, p.reverse()),
{
    if a == 9 {
        let p = seq![9int];
        assert(p[0] == 9);
        assert(p.reverse() =~= p);
        p
    } else {
        let t = lemma_toward_center(a);
        if t == 9 {
            let p = seq![a, 9int];
            let r = p.reverse();
            assert(p[0] == a && p[1] == 9 && r[0] == 9 && r[1] == a);
            assert(step_ok(p, 0));
            assert(step_ok(r, 0));
            p
        } else {
            let u = lemma_toward_center(t);
            let p = seq![a, t, 9int];
            let r = p.reverse();
            assert(p[0] == a && p[1] == t && p[2] == 9);
            assert(r[0] == 9 && r[1] == t && r[2] == a);
            assert(step_ok(p, 0) && step_ok(p, 1));
            assert(step_ok(r, 0) && step_ok(r, 1));
            p
        }
    }
}

/// Such hexes are joined.
proof fn lemma_joined_through_center(hexes: u64)
    requires
        on_board(hexes, 9),
        forall|x: int| #[trigger] on_board(hexes, x) && x != 9 ==> on_board(hexes, toward_center(x as u64) as int),
    ensures
        hexes_connected(hexes),
{
    assert forall|a: int, b: int| on_board(hexes, a) && on_board(hexes, b) implies #[trigger] joined(
        hexes,
        a,
        b,
    ) by {
        let p = lemma_walk_to_center(hexes, a);
        let q = lemma_walk_to_center(hexes, b);
        let r = q.reverse();
        assert(r[0] == 9 && r.last() == b);
        lemma_walk_concat(hexes, p, r);
        assert(hex_walk(hexes, p + r.drop_first()));
    }
}

/// Law: at the start of a game the extant hexes are joined.
pub proof fn lemma_start_connected(b: Board, game_type: GameType, hexes_to_exchange: u8)
    requires
        b.is_start(game_type, hexes_to_exchange),
    ensures
        hexes_connected(b.hex_bits()),
{
    let hexes = b.hex_bits();
    match game_type {
        GameType::Laurentius => {
            assert(on_board(hexes, 9));
            assert forall|x: int| #[trigger] on_board(hexes, x) && x != 9 implies on_board(
                hexes,
                toward_center(x as u64) as int,
            ) by {
                let t = lemma_toward_center(x);
            }
        },
        GameType::Ocius => {
            let g = GameType::Ocius;
            assert(hex_index_of(start_location(g, 3).0, start_location(g, 3).1) == 9);
            assert(start_hex(g, 9));
            assert(on_board(hexes, 9));
            assert forall|x: int| #[trigger] on_board(hexes, x) && x != 9 implies on_board(
                hexes,
                toward_center(x as u64) as int,
            ) by {
                assert(start_hex(g, x));
                let i = choose|i: int|
                    0 <= i < 7 && #[trigger] hex_index_of(
                        start_location(g, i).0,
                        start_location(g, i).1,
                    ) == x;
                assert(x == 13 || x == 8 || x == 14 || x == 4 || x == 10 || x == 5);
                assert(toward_center(x as u64) == 9);
            }
        },
    }
    lemma_joined_through_center(hexes);
}

// ---------------------------------------------------------------------------------------------
// Stalemate
// ---------------------------------------------------------------------------------------------

/// The fields of one color on a hex share a vertex (the center of the hex), and of two hexes
/// across an edge, a field of each color on the one shares a vertex with a field of that color on
/// the other (at an end of the edge).
proof fn bv_vertex_reach(h: u64, a: u64, c: u64, n: u64)
    by (bit_vector)
    requires
        h < 19,
        a < 3,
        c < 3,
        a != c,
        n < 19,
    ensures
        (vertex_bits_white((3 * h + a) as u64) >> ((3 * h + c) as u64)) & 1u64 == 1u64,
        (vertex_bits_black((3 * h + a) as u64) >> ((3 * h + c) as u64)) & 1u64 == 1u64,
        all_neighbor_bits(h) & (7u64 << (3u64 * n)) != 0 ==> (vertex_bits_white((3 * h) as u64)
            | vertex_bits_white((3 * h + 1) as u64) | vertex_bits_white((3 * h + 2) as u64)) & (7u64 << (3u64 * n))
            != 0,
        all_neighbor_bits(h) & (7u64 << (3u64 * n)) != 0 ==> (vertex_bits_black((3 * h) as u64)
            | vertex_bits_black((3 * h + 1) as u64) | vertex_bits_black((3 * h + 2) as u64)) & (7u64 << (3u64 * n))
            != 0,
{
}

/// A piece of `color` on field `x` may move to field `y`: the piece is there, `y` is an empty field
/// on an extant hex, and the two share a vertex.
pub open spec fn step_between(b: Board, color: Color, x: int, y: int) -> bool {
    &&& 0 <= x < 57
    &&& 0 <= y < 57
    &&& bits::has_bit(b.field_bits(color), x)
    &&& bits::has_bit(b.hex_bits(), y)
    &&& !bits::has_bit(b.field_bits(color), y)
    &&& bits::has_bit(vertex_table(color, x as usize), y)
}

/// Two fields of a hex share a vertex.
proof fn lemma_same_hex_reach(color: Color, h: int, a: int, c: int)
    requires
        0 <= h < 19,
        0 <= a < 3,
        0 <= c < 3,
        a != c,
    ensures
        bits::has_bit(vertex_table(color, (3 * h + a) as usize), 3 * h + c),
{
    tables::lemma_tables_as_bits((3 * h + a) as u64);
    bv_vertex_reach(h as u64, a as u64, c as u64, 0);
}

/// Across an edge, a field of `color` on hex `h` shares a vertex with a field of `color` on `n`.
proof fn lemma_next_hex_reach(color: Color, h: int, n: int) -> (r: (int, int))
    requires
        0 <= h < 19,
        0 <= n < 19,
        hex_touches(h, n),
    ensures
        0 <= r.0 < 3,
        r.1 / 3 == n,
        0 <= r.1 < 57,
        bits::has_bit(vertex_table(color, (3 * h + r.0) as usize), r.1),
{
    constants::lemma_all_neighbors_as_bits(h);
    constants::lemma_all_neighbors_as_bits(n);
    bv_vertex_reach(h as u64, 0, 1, n as u64);
    tables::lemma_tables_as_bits((3 * h) as u64);
    tables::lemma_tables_as_bits((3 * h + 1) as u64);
    tables::lemma_tables_as_bits((3 * h + 2) as u64);
    let v0 = vertex_table(color, (3 * h) as usize);
    let v1 = vertex_table(color, (3 * h + 1) as usize);
    let v2 = vertex_table(color, (3 * h + 2) as usize);
    let m = hex_mask_spec(n);
    assert((v0 | v1 | v2) & m != 0);
    bits::lemma_zero_iff((v0 | v1 | v2) & m);
    let k = choose|k: int| bits::has_bit((v0 | v1 | v2) & m, k);
    constants::lemma_hex_mask(n);
    assert(bits::has_bit(m, k));
    let a = if bits::has_bit(v0, k) {
        0int
    } else if bits::has_bit(v1, k) {
        1int
    } else {
        2int
    };
    (a, k)
}

/// Along a walk from a hex that holds a piece of `color` to a hex with an empty field of `color`,
/// some piece of `color` can step to an empty field.
proof fn lemma_find_step(b: Board, color: Color, p: Seq<int>, x: int, e: int) -> (r: (int, int))
    requires
        b.wf(),
        hex_walk(b.hex_bits(), p),
        0 <= x < 57,
        x / 3 == p[0],
        bits::has_bit(b.field_bits(color), x),
        0 <= e < 57,
        e / 3 == p.last(),
        !bits::has_bit(b.field_bits(color), e),
    ensures
        step_between(b, color, r.0, r.1),
    decreases p.len(),
{
    let fields = b.field_bits(color);
    let h = p[0];
    assert(on_board(b.hex_bits(), h));
    lemma_bit_hex(b.hex_bits(), 3 * h);
    lemma_bit_hex(b.hex_bits(), 3 * h + 1);
    lemma_bit_hex(b.hex_bits(), 3 * h + 2);
    let xa = x - 3 * h;
    if !bits::has_bit(fields, 3 * h) || !bits::has_bit(fields, 3 * h + 1) || !bits::has_bit(
        fields,
        3 * h + 2,
    ) {
        let c = if !bits::has_bit(fields, 3 * h) {
            0int
        } else if !bits::has_bit(fields, 3 * h + 1) {
            1int
        } else {
            2int
        };
        lemma_same_hex_reach(color, h, xa, c);
        assert(3 * h + xa == x);
        (x, 3 * h + c)
    } else {
        if p.len() == 1 {
            assert(e == 3 * h || e == 3 * h + 1 || e == 3 * h + 2);
            assert(false);
        }
        assert(step_ok(p, 0));
        assert(on_board(b.hex_bits(), p[1]));
        let (a, k) = lemma_next_hex_reach(color, h, p[1]);
        lemma_bit_hex(b.hex_bits(), k);
        if !bits::has_bit(fields, k) {
            (3 * h + a, k)
        } else {
            lemma_walk_skip(b.hex_bits(), p, 1);
            lemma_find_step(b, color, p.skip(1), k, e)
        }
    }
}

/// Law: on a well-formed board whose extant hexes are joined and where both sides have pieces,
/// the side to move is stalemated (`outcome_of` gives `DrawStalemate`) exactly when it has no
/// legal move.
pub proof fn lemma_stalemate_iff_no_move(b: Board)
    requires
        b.wf(),
        hexes_connected(b.hex_bits()),
        b.field_bits(b.turn) != 0,
        b.field_bits(opposite(b.turn)) != 0,
    ensures
        (outcome_of(b) == Outcome::DrawStalemate) <==> (forall|mv: Move| !#[trigger] b.is_legal(mv)),
{
    let c = b.turn;
    let fields = b.field_bits(c);
    if outcome_of(b) == Outcome::DrawStalemate {
        assert forall|mv: Move| !#[trigger] b.is_legal(mv) by {
            if let Move::Move(from, to, color) = mv {
                if b.is_legal(mv) {
                    assert(bits::has_bit(fields, bits::lowest(to)));
                }
            }
        }
    } else if b.can_exchange_spec() {
        let o = opposite(c);
        let k = bits::lowest(b.field_bits(o));
        bits::lemma_lowest(b.field_bits(o));
        assert(bits::has_bit(b.hex_bits(), k));
        lemma_bit_hex(b.hex_bits(), k);
        bits::lemma_lowest_of_bit(k);
        let mv = Move::Exchange(bits::bit(k), o);
        assert(single_field(bits::bit(k)));
        assert(b.is_legal(mv));
    } else {
        assert(fields != b.hex_bits());
        if forall|k: int| 0 <= k < 64 ==> #[trigger] bits::has_bit(fields, k) == bits::has_bit(
            b.hex_bits(),
            k,
        ) {
            bits::lemma_bits_ext(fields, b.hex_bits());
        }
        let e = choose|k: int|
            0 <= k < 64 && #[trigger] bits::has_bit(fields, k) != bits::has_bit(b.hex_bits(), k);
        assert(bits::has_bit(b.hex_bits(), e));
        lemma_bit_hex(b.hex_bits(), e);
        let x = bits::lowest(fields);
        bits::lemma_lowest(fields);
        lemma_bit_hex(b.hex_bits(), x);
        assert(on_board(b.hex_bits(), x / 3));
        assert(on_board(b.hex_bits(), e / 3));
        assert(joined(b.hex_bits(), x / 3, e / 3));
        let p = choose|p: Seq<int>|
            #[trigger] hex_walk(b.hex_bits(), p) && p[0] == x / 3 && p.last() == e / 3;
        let (from, to) = lemma_find_step(b, c, p, x, e);
        bits::lemma_lowest_of_bit(from);
        bits::lemma_lowest_of_bit(to);
        let mv = Move::Move(bits::bit(from), bits::bit(to), c);
        assert(b.is_legal(mv));
    }
}

} // verus!
