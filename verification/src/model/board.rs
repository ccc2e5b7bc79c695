//! The board: where the pieces stand, which hexes are left, whose turn it is, and the rules that
//! change all of that.
use vstd::prelude::*;

use crate::model::bitboard::{self as bits, lowest_bit, to_index, BitBoard};
use crate::model::constants::{self, hex_field_neighbors, hex_mask, removable_hex_comb};
use crate::model::tables::{self, edge_neighbors, vertex_neighbors};
use crate::model::zobrist::{self, ZobristExt, ZobristHash};
use crate::model;
use crate::model::{
    Color, ColorMap, FieldCoord, GameType, HexCoord, Move, MoveAnnotated, Outcome,
};

verus! {

broadcast use bits::group_bits;

/*
    Board layout:
    The hex board uses an axial coordinate system with (0, 0) at the center. The x-axis slopes
    up and to the right, and the y-axis goes up and down.
    See http://www.redblobgames.com/grids/hexagons/#coordinates-axial for more info.
                                             ____
                                            /    \
                                       ____/  +y  \____
                                      /    \      /    \
                                     /      \____/  +x  \
                                     \      /    \      /
                                      \____/      \____/
                                      /    \      /    \
                                     /  -x  \____/      \
                                     \      /    \      /
                                      \____/  -y  \____/
                                           \      /
                                            \____/

    Field layout:
    Fields are numbered clockwise from the top. Even indicies are black, odd indicies are white.
                                          _________
                                         / \     / \
                                        /   \ 0 /   \
                                       /  5  \ /  1  \
                                      (-------*-------)
                                       \  4  / \  2  /
                                        \   / 3 \   /
                                         \_/_____\_/
    u64 Bitboard layout:

     MSB                                                                              LSB

     7 bits                            57 bits (19 groups of 3)
     +-----+  +-------------------------------------------------------------------------+
    [0000000][000 111 000 000 000 000 000 000 000 000 000 000 000 000 000 000 000 010 000]
     Unused   -+- -+-                 ||+-- Field 0           ||+-- Field 1       |+-- Piece on field
               |   +-- Extant hex     |+--- Field 2           |+--- Field 3       +--- No piece on field
               +------ Removed hex    +---- Field 4           +---- Field 5            (Field bitboards)
                      (Hex bitboard)  (Black field bitboard)  (White field bitboard)
*/

/// A struct tracking a player's piece and captured hex count. So named because these two numbers
/// are essential to a player's survival (i.e. vital signs).
#[derive(Clone, Copy, PartialEq, Eq, Structural)]
pub struct PlayerVitals {
    pub pieces: u8,
    pub hexes: u8,
}

#[derive(Clone, Copy, PartialEq, Eq, Structural)]
pub struct Board {
    pub fields: ColorMap<BitBoard>,
    pub hexes: BitBoard,
    pub turn: Color,
    pub vitals: ColorMap<PlayerVitals>,
    pub zobrist: ZobristHash,
    pub hexes_to_exchange: u8,
}

// ---------------------------------------------------------------------------------------------
// The model of the board
// ---------------------------------------------------------------------------------------------

/// Hex `h` is still on the board.
pub open spec fn hex_extant(hexes: u64, h: int) -> bool {
    bits::has_bit(hexes, 3 * h)
}

/// A bitboard of extant hexes is well formed: it only uses the 57 field bits, and each hex has
/// either all three of its bits or none.
pub open spec fn hexes_wf(hexes: u64) -> bool {
    &&& bits::below(hexes, 57)
    &&& forall|h: int|
        0 <= h < 19 ==> (#[trigger] hex_extant(hexes, h) == bits::has_bit(hexes, 3 * h + 1)
            && hex_extant(hexes, h) == bits::has_bit(hexes, 3 * h + 2))
}

/// In a well-formed hex bitboard, a field bit is set exactly when its hex is extant.
pub proof fn lemma_bit_hex(hexes: u64, k: int)
    requires
        hexes_wf(hexes),
    ensures
        bits::has_bit(hexes, k) == (0 <= k < 57 && hex_extant(hexes, k / 3)),
{
    if 0 <= k < 57 {
        let h = k / 3;
        assert(hex_extant(hexes, h) == bits::has_bit(hexes, 3 * h + 1));
        assert(k == 3 * h || k == 3 * h + 1 || k == 3 * h + 2);
    }
}

/// The number of extant hexes among the first `n`.
pub open spec fn count_extant(hexes: u64, n: nat) -> nat
    decreases n,
{
    if n == 0 {
        0
    } else {
        count_extant(hexes, (n - 1) as nat) + if hex_extant(hexes, n - 1) {
            1nat
        } else {
            0nat
        }
    }
}

/// The number of extant hexes.
pub open spec fn extant_count(hexes: u64) -> nat {
    count_extant(hexes, 19)
}

/// The extant fields across the edges of hex `n`: which of its neighbors are still there.
pub open spec fn neighborhood(hexes: u64, n: int) -> u64 {
    hexes & constants::hex_all_neighbors(n)
}

/// The cascade of hex removals is complete: every hex that is still there and whose neighbors
/// changed between `before` and `after` is, with the pieces `p` and `q`, not empty and removable.
pub open spec fn cascade_done(before: u64, after: u64, p: u64, q: u64) -> bool {
    forall|n: int|
        #![trigger neighborhood(after, n)]
        0 <= n < 19 && hex_extant(after, n) && neighborhood(before, n) != neighborhood(after, n)
            ==> !(hex_empty(p, q, n) && constants::maybe_removable(after, n))
}

/// Some field across an edge of hex `index` on hex `n` is in `seen`: the cascade has looked at
/// `n` from `index`.
pub open spec fn seen_from(seen: u64, n: int) -> bool {
    seen & constants::hex_mask_spec(n) != 0
}

proof fn bv_or_commutes(a: u64, b: u64)
    by (bit_vector)
    ensures
        a | b == b | a,
{
}

/// `cascade_done` does not depend on the order of the two sides.
proof fn lemma_cascade_done_swap(before: u64, after: u64, p: u64, q: u64)
    requires
        cascade_done(before, after, p, q),
    ensures
        cascade_done(before, after, q, p),
{
    assert forall|n: int|
        0 <= n < 19 && hex_extant(after, n) && neighborhood(before, n) != #[trigger] neighborhood(
            after,
            n,
        ) implies !(hex_empty(q, p, n) && constants::maybe_removable(after, n)) by {
        if hex_empty(q, p, n) {
            assert(hex_empty(p, q, n));
        }
    }
}

/// The hexes left after hex `index` is checked with the pieces `p` and `q` on the board: if it is
/// extant, empty and removable it is taken off, and then the fields across its edges that are
/// still extant are walked in turn, lowest first (`cascade_walk`), each checking its own hex the
/// same way.
pub open spec fn cascade(hexes: u64, p: u64, q: u64, index: int) -> u64
    decreases extant_count(hexes), 0nat, 0nat,
{
    if 0 <= index < 19 && hex_extant(hexes, index) && hex_empty(p, q, index)
        && constants::maybe_removable(hexes, index) {
        let h1 = hexes & !constants::hex_mask_spec(index);
        proof {
            lemma_cascade_removes(hexes, index);
        }
        cascade_walk(h1, p, q, h1 & constants::hex_all_neighbors(index))
    } else {
        hexes
    }
}

/// The walk of the cascade over the fields `rem`, lowest first: the hex of each field that is
/// still extant is checked by `cascade`.
pub open spec fn cascade_walk(hexes: u64, p: u64, q: u64, rem: u64) -> u64
    decreases extant_count(hexes), 1nat, bits::pop(rem),
{
    if rem == 0 {
        hexes
    } else {
        let kb = bits::lowest(rem);
        let n = kb / 3;
        let h2 = if hex_extant(hexes, n) {
            cascade(hexes, p, q, n) & hexes
        } else {
            hexes
        };
        proof {
            lemma_count_subset(h2, hexes, 19);
            bits::lemma_pop_lowest(rem);
        }
        cascade_walk(h2, p, q, rem ^ bits::bit(kb))
    }
}

/// Taking an extant hex off leaves one hex fewer.
pub proof fn lemma_cascade_removes(hexes: u64, index: int)
    requires
        0 <= index < 19,
        hex_extant(hexes, index),
    ensures
        extant_count(hexes & !constants::hex_mask_spec(index)) < extant_count(hexes),
        forall|h: int|
            0 <= h < 19 ==> #[trigger] hex_extant(hexes & !constants::hex_mask_spec(index), h)
                == (hex_extant(hexes, h) && h != index),
{
    constants::lemma_hex_mask(index);
    let h1 = hexes & !constants::hex_mask_spec(index);
    assert forall|h: int| 0 <= h < 19 implies #[trigger] hex_extant(h1, h) == (hex_extant(
        hexes,
        h,
    ) && h != index) by {
        assert(bits::has_bit(constants::hex_mask_spec(index), 3 * h) == (h == index));
    }
    lemma_count_remove(hexes, h1, index, 19);
}

/// The hex bitboard `hexes` with the hexes of `s` taken off, one after the other.
pub open spec fn without(hexes: u64, s: Seq<int>) -> u64
    decreases s.len(),
{
    if s.len() == 0 {
        hexes
    } else {
        without(hexes, s.drop_last()) & !constants::hex_mask_spec(s.last())
    }
}

/// Hex `h` can be removed from `hexes` with the pieces `p` and `q` on the board: it is there, no
/// piece stands on it, and its neighbors let it go.
pub open spec fn removable_then(hexes: u64, p: u64, q: u64, h: int) -> bool {
    &&& 0 <= h < 19
    &&& hex_extant(hexes, h)
    &&& hex_empty(p, q, h)
    &&& constants::maybe_removable(hexes, h)
}

/// Taking the hexes of `s` off `before` one after the other leaves `after`, and each of them was
/// removable, with the pieces `p` and `q` on the board, when it went.
pub open spec fn removal_order(before: u64, after: u64, p: u64, q: u64, s: Seq<int>) -> bool {
    &&& after == without(before, s)
    &&& forall|j: int|
        0 <= j < s.len() ==> removable_then(without(before, s.take(j)), p, q, #[trigger] s[j])
}

proof fn lemma_without_concat(a: u64, s: Seq<int>, t: Seq<int>)
    ensures
        without(a, s + t) == without(without(a, s), t),
    decreases t.len(),
{
    if t.len() == 0 {
        assert(s + t == s);
    } else {
        lemma_without_concat(a, s, t.drop_last());
        assert((s + t).drop_last() == s + t.drop_last());
        assert((s + t).last() == t.last());
    }
}

/// Two removal orders in a row make one.
proof fn lemma_removal_order_concat(
    a: u64,
    b: u64,
    c: u64,
    p: u64,
    q: u64,
    s: Seq<int>,
    t: Seq<int>,
)
    requires
        removal_order(a, b, p, q, s),
        removal_order(b, c, p, q, t),
    ensures
        removal_order(a, c, p, q, s + t),
{
    lemma_without_concat(a, s, t);
    assert forall|j: int| 0 <= j < (s + t).len() implies removable_then(
        without(a, (s + t).take(j)),
        p,
        q,
        #[trigger] (s + t)[j],
    ) by {
        if j < s.len() {
            assert((s + t).take(j) == s.take(j));
            assert((s + t)[j] == s[j]);
        } else {
            let j2 = j - s.len();
            assert((s + t).take(j) == s + t.take(j2));
            lemma_without_concat(a, s, t.take(j2));
            assert((s + t)[j] == t[j2]);
        }
    }
}

/// A removal order does not depend on which pieces are named first.
proof fn lemma_removal_order_swap(before: u64, after: u64, p: u64, q: u64, s: Seq<int>)
    requires
        removal_order(before, after, p, q, s),
    ensures
        removal_order(before, after, q, p, s),
{
    assert forall|j: int| 0 <= j < s.len() implies removable_then(
        without(before, s.take(j)),
        q,
        p,
        #[trigger] s[j],
    ) by {
        assert(removable_then(without(before, s.take(j)), p, q, s[j]));
        assert(hex_empty(p, q, s[j]));
    }
}

/// While the cascade walks the neighbors of a removed hex: every hex still there that has lost
/// a neighbor since `mid`, or that the walk has looked at (`seen`), is not empty and removable.
pub open spec fn cascade_inv(p: u64, q: u64, mid: u64, now: u64, seen: u64) -> bool {
    forall|n: int|
        #![trigger neighborhood(now, n)]
        0 <= n < 19 && hex_extant(now, n) && (neighborhood(mid, n) != neighborhood(now, n)
            || seen_from(seen, n)) ==> !(hex_empty(p, q, n) && constants::maybe_removable(now, n))
}

/// Looking at one more field `kb` keeps `cascade_inv`: its hex `kb / 3` was checked by a
/// recursive call (`called`), or is gone already.
proof fn lemma_cascade_step(
    p: u64,
    q: u64,
    mid: u64,
    s1: u64,
    s2: u64,
    seen1: u64,
    seen2: u64,
    kb: int,
    called: bool,
)
    requires
        hexes_wf(s1),
        hexes_wf(s2),
        bits::subset(s2, s1),
        0 <= kb < 57,
        forall|k: int| #[trigger] bits::has_bit(seen2, k) == (bits::has_bit(seen1, k) || k == kb),
        cascade_inv(p, q, mid, s1, seen1),
        called ==> hex_extant(s1, kb / 3) && cascade_done(s1, s2, p, q) && (hex_removed(
            s1,
            s2,
            kb / 3,
        ) == (hex_empty(p, q, kb / 3) && constants::maybe_removable(s1, kb / 3))) && (!(hex_empty(
            p,
            q,
            kb / 3,
        ) && constants::maybe_removable(s1, kb / 3)) ==> s2 == s1),
        !called ==> !hex_extant(s1, kb / 3) && s2 == s1,
    ensures
        cascade_inv(p, q, mid, s2, seen2),
{
    let n0 = kb / 3;
    assert forall|n: int|
        0 <= n < 19 && hex_extant(s2, n) && (neighborhood(mid, n) != #[trigger] neighborhood(s2, n)
            || seen_from(seen2, n)) implies !(hex_empty(p, q, n) && constants::maybe_removable(
        s2,
        n,
    )) by {
        lemma_bit_hex(s2, 3 * n);
        lemma_bit_hex(s1, 3 * n);
        assert(hex_extant(s1, n));
        if n == n0 {
            assert(called);
            assert(!hex_removed(s1, s2, n0));
            assert(s2 == s1);
        } else if neighborhood(s1, n) != neighborhood(s2, n) {
            assert(called);
        } else {
            constants::lemma_hex_mask(n);
            bits::lemma_zero_iff(seen1 & constants::hex_mask_spec(n));
            bits::lemma_zero_iff(seen2 & constants::hex_mask_spec(n));
            if seen_from(seen2, n) {
                let k = choose|k: int| bits::has_bit(seen2 & constants::hex_mask_spec(n), k);
                assert(k != kb);
                assert(bits::has_bit(seen1 & constants::hex_mask_spec(n), k));
            }
            assert(neighborhood(s1, n) == neighborhood(s2, n));
        }
    }
}

/// Once the cascade has looked at every neighbor of the removed hex `index`, it is complete.
proof fn lemma_cascade_finish(p: u64, q: u64, start: u64, mid: u64, fin: u64, index: int)
    requires
        0 <= index < 19,
        hexes_wf(start),
        hexes_wf(mid),
        hexes_wf(fin),
        bits::subset(fin, mid),
        forall|h: int|
            0 <= h < 19 ==> #[trigger] hex_extant(mid, h) == (hex_extant(start, h) && h != index),
        cascade_inv(p, q, mid, fin, mid & constants::hex_all_neighbors(index)),
    ensures
        cascade_done(start, fin, p, q),
{
    let init = mid & constants::hex_all_neighbors(index);
    assert forall|n: int|
        0 <= n < 19 && hex_extant(fin, n) && neighborhood(start, n) != #[trigger] neighborhood(
            fin,
            n,
        ) implies !(hex_empty(p, q, n) && constants::maybe_removable(fin, n)) by {
        lemma_bit_hex(fin, 3 * n);
        lemma_bit_hex(mid, 3 * n);
        if neighborhood(mid, n) == neighborhood(fin, n) {
            if !constants::hex_touches(n, index) {
                lemma_neighborhood_keeps(start, mid, index, n);
            }
            constants::lemma_hex_touches_symmetric(n, index);
            let nb = constants::hex_all_neighbors(index);
            constants::lemma_hex_mask(n);
            bits::lemma_zero_iff(nb & constants::hex_mask_spec(n));
            let k = choose|k: int| bits::has_bit(nb & constants::hex_mask_spec(n), k);
            assert(hex_extant(mid, n));
            lemma_bit_hex(mid, k);
            assert(bits::has_bit(init & constants::hex_mask_spec(n), k));
            bits::lemma_zero_iff(init & constants::hex_mask_spec(n));
            assert(seen_from(init, n));
        }
    }
}

/// Hex `h` lost a neighbor between `before` and `after`: a field across one of its edges was
/// there before and is gone after.
pub open spec fn lost_neighbor(before: u64, after: u64, h: int) -> bool {
    exists|k: int| #[trigger] bits::has_bit(neighborhood(before, h), k) && !bits::has_bit(after, k)
}

/// One more recursive step of the cascade keeps every hex it removed, but the first, connected
/// to the removals before it: each lost a neighbor.
proof fn lemma_lost_step(
    start: u64,
    mid: u64,
    s1: u64,
    s2: u64,
    index: int,
    kb: int,
    called: bool,
)
    requires
        0 <= index < 19,
        0 <= kb < 57,
        hexes_wf(start),
        hexes_wf(mid),
        hexes_wf(s1),
        hexes_wf(s2),
        hex_extant(start, index),
        forall|h: int|
            0 <= h < 19 ==> #[trigger] hex_extant(mid, h) == (hex_extant(start, h) && h != index),
        bits::subset(s1, mid),
        bits::subset(s2, s1),
        bits::has_bit(constants::hex_all_neighbors(index), kb),
        forall|h: int|
            #[trigger] hex_removed(start, s1, h) && h != index ==> lost_neighbor(start, s1, h),
        called ==> forall|h: int|
            #[trigger] hex_removed(s1, s2, h) && h != kb / 3 ==> lost_neighbor(s1, s2, h),
        !called ==> s2 == s1,
    ensures
        forall|h: int|
            #[trigger] hex_removed(start, s2, h) && h != index ==> lost_neighbor(start, s2, h),
{
    assert forall|h: int| #[trigger] hex_removed(start, s2, h) && h != index implies lost_neighbor(
        start,
        s2,
        h,
    ) by {
        lemma_bit_hex(s1, 3 * h);
        lemma_bit_hex(mid, 3 * h);
        lemma_bit_hex(start, 3 * h);
        if hex_removed(start, s1, h) {
            let k = choose|k: int| #[trigger]
                bits::has_bit(neighborhood(start, h), k) && !bits::has_bit(s1, k);
            assert(!bits::has_bit(s2, k));
        } else {
            assert(hex_removed(s1, s2, h));
            if h != kb / 3 {
                let k = choose|k: int| #[trigger]
                    bits::has_bit(neighborhood(s1, h), k) && !bits::has_bit(s2, k);
                assert(bits::has_bit(mid, k));
                lemma_bit_hex(mid, k);
                lemma_bit_hex(start, k);
                assert(bits::has_bit(neighborhood(start, h), k));
            } else {
                let nb = constants::hex_all_neighbors(index);
                constants::lemma_hex_mask(h);
                assert(bits::has_bit(nb & constants::hex_mask_spec(h), kb));
                bits::lemma_zero_iff(nb & constants::hex_mask_spec(h));
                constants::lemma_hex_touches_symmetric(index, h);
                let nh = constants::hex_all_neighbors(h);
                constants::lemma_hex_mask(index);
                bits::lemma_zero_iff(nh & constants::hex_mask_spec(index));
                let k = choose|k: int| bits::has_bit(nh & constants::hex_mask_spec(index), k);
                lemma_bit_hex(start, k);
                lemma_bit_hex(s2, k);
                lemma_bit_hex(mid, k);
                assert(!hex_extant(mid, index));
                assert(bits::has_bit(neighborhood(start, h), k));
                assert(!bits::has_bit(s2, k));
            }
        }
    }
}

/// Removing a hex that is not a neighbor of hex `n` leaves the neighbors of `n` as they were.
proof fn lemma_neighborhood_keeps(before: u64, after: u64, m: int, n: int)
    requires
        hexes_wf(before),
        hexes_wf(after),
        0 <= m < 19,
        0 <= n < 19,
        forall|h: int|
            0 <= h < 19 ==> #[trigger] hex_extant(after, h) == (hex_extant(before, h) && h != m),
        !constants::hex_touches(n, m),
    ensures
        neighborhood(before, n) == neighborhood(after, n),
{
    let nb = constants::hex_all_neighbors(n);
    constants::lemma_hex_mask(m);
    bits::lemma_zero_iff(nb & constants::hex_mask_spec(m));
    assert forall|k: int| 0 <= k < 64 implies #[trigger] bits::has_bit(neighborhood(before, n), k)
        == bits::has_bit(neighborhood(after, n), k) by {
        lemma_bit_hex(before, k);
        lemma_bit_hex(after, k);
        if 3 * m <= k < 3 * m + 3 && bits::has_bit(nb, k) {
            assert(bits::has_bit(nb & constants::hex_mask_spec(m), k));
        }
        if 0 <= k < 57 {
            assert(hex_extant(after, k / 3) == (hex_extant(before, k / 3) && k / 3 != m));
        }
    }
    bits::lemma_bits_ext(neighborhood(before, n), neighborhood(after, n));
}

/// Hex `h` was on the board `before` and is gone `after`.
pub open spec fn hex_removed(before: u64, after: u64, h: int) -> bool {
    0 <= h < 19 && hex_extant(before, h) && !hex_extant(after, h)
}

/// No piece of either color stands on hex `h`.
pub open spec fn hex_empty(white: u64, black: u64, h: int) -> bool {
    forall|k: int|
        #![trigger bits::has_bit(white, k)]
        #![trigger bits::has_bit(black, k)]
        3 * h <= k < 3 * h + 3 ==> !bits::has_bit(white, k) && !bits::has_bit(black, k)
}

/// Field `k` of `color` borders a hex that was removed between `before` and `after`.
pub open spec fn removed_neighbor(before: u64, after: u64, color: Color, k: int) -> bool {
    exists|h: int|
        #[trigger] hex_removed(before, after, h) && bits::has_bit(
            constants::hex_field_neighbors_spec(h, color),
            k,
        )
}

/// The piece of `them` on field `k` has no free edge neighbor: every extant field that shares an
/// edge with it holds a piece of the other side, whose pieces are `ours`.
pub open spec fn surrounded(ours: u64, hexes: u64, them: Color, k: int) -> bool {
    !ours & (hexes & tables::edge_table(them, k as usize)) == 0
}

/// `bb` is the bitboard of one field.
pub open spec fn single_field(bb: u64) -> bool {
    bits::is_single(bb) && bits::lowest(bb) < 57
}

/// The hex that holds the field of a single-field bitboard.
pub open spec fn hex_of(bb: u64) -> int {
    bits::lowest(bb) / 3
}

impl Board {
    /// This is the starting position of `game_type`, with `hexes_to_exchange` hexes to pay for an
    /// exchange: the pieces and hexes of the opening, nothing captured, white to move.
    pub open spec fn is_start(self, game_type: GameType, hexes_to_exchange: u8) -> bool {
        &&& self.turn == Color::White
        &&& self.hexes_to_exchange == hexes_to_exchange
        &&& forall|k: int| #[trigger]
            bits::has_bit(self.field_bits(Color::White), k) == constants::start_field(
                game_type,
                Color::White,
                k,
            )
        &&& forall|k: int| #[trigger]
            bits::has_bit(self.field_bits(Color::Black), k) == constants::start_field(
                game_type,
                Color::Black,
                k,
            )
        &&& forall|h: int|
            0 <= h < 19 ==> #[trigger] hex_extant(self.hex_bits(), h) == constants::start_hex(
                game_type,
                h,
            )
        &&& self.vitals.white.hexes == 0
        &&& self.vitals.black.hexes == 0
        &&& self.zobrist == zobrist::zobrist_spec(
            self.fields,
            ColorMap { white: 0, black: 0 },
            Color::White,
        )
    }

    /// The pieces of `color`.
    pub open spec fn field_bits(self, color: Color) -> u64 {
        self.fields.at(color)
    }

    /// The extant hexes, three bits each.
    pub open spec fn hex_bits(self) -> u64 {
        self.hexes
    }

    /// The layout is consistent: the hexes are well formed, every piece stands on an extant hex,
    /// and the piece counts are the numbers of pieces on the board.
    pub open spec fn layout_wf(self) -> bool {
        &&& hexes_wf(self.hex_bits())
        &&& bits::subset(self.field_bits(Color::White), self.hex_bits())
        &&& bits::subset(self.field_bits(Color::Black), self.hex_bits())
        &&& self.vitals.white.pieces == bits::pop(self.field_bits(Color::White))
        &&& self.vitals.black.pieces == bits::pop(self.field_bits(Color::Black))
    }

    /// The board is well formed: its layout is consistent, no more hexes are captured than were
    /// removed, and an exchange costs one or two hexes.
    pub open spec fn wf(self) -> bool {
        &&& self.layout_wf()
        &&& self.vitals.white.hexes + self.vitals.black.hexes + extant_count(self.hex_bits()) <= 19
        &&& (self.hexes_to_exchange == 1 || self.hexes_to_exchange == 2)
    }

    /// The two boards have the same pieces, turn, counts and hash (their hexes may differ).
    pub open spec fn same_pieces(self, other: Board) -> bool {
        &&& self.field_bits(Color::White) == other.field_bits(Color::White)
        &&& self.field_bits(Color::Black) == other.field_bits(Color::Black)
        &&& self.turn == other.turn
        &&& self.vitals == other.vitals
        &&& self.zobrist == other.zobrist
        &&& self.hexes_to_exchange == other.hexes_to_exchange
    }

    /// Hex `h` is empty and removable.
    pub open spec fn removable(self, h: int) -> bool {
        hex_empty(self.field_bits(Color::White), self.field_bits(Color::Black), h)
            && constants::maybe_removable(self.hex_bits(), h)
    }

    /// The side to move has collected enough hexes to exchange them for a piece.
    pub open spec fn can_exchange_spec(self) -> bool {
        self.vitals.at(self.turn).hexes >= self.hexes_to_exchange
    }

    /// The fields that a move names are fields of the board on extant hexes.
    pub open spec fn move_on_board(self, mv: Move) -> bool {
        match mv {
            Move::Move(from, to, _) => {
                &&& single_field(from)
                &&& single_field(to)
                &&& bits::has_bit(self.hex_bits(), bits::lowest(from))
                &&& bits::has_bit(self.hex_bits(), bits::lowest(to))
            },
            Move::Exchange(bb, _) => {
                &&& single_field(bb)
                &&& bits::has_bit(self.hex_bits(), bits::lowest(bb))
            },
        }
    }

    /// `mv` is a legal move. A piece of the side to move may move to an empty field of its color
    /// that shares a vertex with its field; a piece of the other side may be taken in exchange for
    /// captured hexes when the side to move has collected enough of them.
    pub open spec fn is_legal(self, mv: Move) -> bool {
        match mv {
            Move::Move(from, to, color) => {
                &&& color == self.turn
                &&& single_field(from)
                &&& single_field(to)
                &&& bits::has_bit(self.field_bits(color), bits::lowest(from))
                &&& bits::has_bit(self.hex_bits(), bits::lowest(to))
                &&& !bits::has_bit(self.field_bits(color), bits::lowest(to))
                &&& bits::has_bit(
                    tables::vertex_table(color, bits::lowest(from) as usize),
                    bits::lowest(to),
                )
            },
            Move::Exchange(bb, color) => {
                &&& self.can_exchange_spec()
                &&& color != self.turn
                &&& single_field(bb)
                &&& bits::has_bit(self.field_bits(color), bits::lowest(bb))
            },
        }
    }

    /// This board is what playing the legal move `mv` on `before` gives. The piece moves (or the
    /// exchanged piece leaves); then the hex it left, and in a cascade the hexes around removed
    /// hexes, are removed when empty and removable, until no hex whose neighbors changed is empty
    /// and removable (`cascade_done`), each hex removed after the first having lost a neighbor
    /// (`lost_neighbor`), in an order in which each hex was removable when it went, starting
    /// with the hex left (`removal_order`); the hexes left are exactly those of the depth-first
    /// walk `cascade`; then every piece of the other side that borders
    /// the field moved to or a removed hex and is surrounded is captured; hexes removed by a move
    /// are collected by the mover, an exchange costs `hexes_to_exchange` of them; and the turn
    /// passes.
    pub open spec fn played(self, before: Board, mv: Move) -> bool {
        match mv {
            Move::Move(from, to, c) => {
                let o = model::opposite(c);
                let moved = before.field_bits(c) ^ (from | to);
                let count = extant_count(before.hex_bits()) - extant_count(self.hex_bits());
                let h0 = before.vitals.at(c).hexes;
                let z = before.zobrist.toggled(from, c).toggled(to, c);
                &&& self.turn == o
                &&& self.field_bits(c) == moved
                &&& bits::subset(self.hex_bits(), before.hex_bits())
                &&& forall|h: int|
                    #[trigger] hex_removed(before.hex_bits(), self.hex_bits(), h) ==> hex_empty(
                        moved,
                        before.field_bits(o),
                        h,
                    )
                &&& hex_removed(before.hex_bits(), self.hex_bits(), hex_of(from)) == (hex_empty(
                    moved,
                    before.field_bits(o),
                    hex_of(from),
                ) && constants::maybe_removable(before.hex_bits(), hex_of(from)))
                &&& cascade_done(before.hex_bits(), self.hex_bits(), moved, before.field_bits(o))
                &&& forall|h: int|
                    #[trigger] hex_removed(before.hex_bits(), self.hex_bits(), h) && h != hex_of(
                        from,
                    ) ==> lost_neighbor(before.hex_bits(), self.hex_bits(), h)
                &&& exists|s: Seq<int>|
                    #[trigger] removal_order(
                        before.hex_bits(),
                        self.hex_bits(),
                        moved,
                        before.field_bits(o),
                        s,
                    ) && (s.len() > 0 ==> s[0] == hex_of(from))
                &&& self.hex_bits() == (if c == Color::White {
                    cascade(before.hex_bits(), moved, before.field_bits(o), hex_of(from))
                } else {
                    cascade(before.hex_bits(), before.field_bits(o), moved, hex_of(from))
                })
                &&& forall|k: int| #[trigger]
                    bits::has_bit(self.field_bits(o), k) == (bits::has_bit(before.field_bits(o), k)
                        && !((bits::has_bit(tables::edge_table(c, bits::lowest(to) as usize), k)
                        || removed_neighbor(before.hex_bits(), self.hex_bits(), o, k)) && surrounded(
                        moved,
                        self.hex_bits(),
                        o,
                        k,
                    )))
                &&& self.vitals.at(c).hexes == h0 + count
                &&& self.vitals.at(c).pieces == before.vitals.at(c).pieces
                &&& self.vitals.at(o).hexes == before.vitals.at(o).hexes
                &&& self.hexes_to_exchange == before.hexes_to_exchange
                &&& self.zobrist == (if count != 0 {
                    z.recounted(h0, (h0 + count) as u8, c)
                } else {
                    z
                }).switched()
            },
            Move::Exchange(bb, o) => {
                let c = model::opposite(o);
                let left = before.field_bits(o) ^ bb;
                let h0 = before.vitals.at(c).hexes;
                &&& self.turn == o
                &&& self.field_bits(c) == before.field_bits(c)
                &&& bits::subset(self.hex_bits(), before.hex_bits())
                &&& forall|h: int|
                    #[trigger] hex_removed(before.hex_bits(), self.hex_bits(), h) ==> hex_empty(
                        before.field_bits(c),
                        left,
                        h,
                    )
                &&& hex_removed(before.hex_bits(), self.hex_bits(), hex_of(bb)) == (hex_empty(
                    before.field_bits(c),
                    left,
                    hex_of(bb),
                ) && constants::maybe_removable(before.hex_bits(), hex_of(bb)))
                &&& cascade_done(before.hex_bits(), self.hex_bits(), before.field_bits(c), left)
                &&& forall|h: int|
                    #[trigger] hex_removed(before.hex_bits(), self.hex_bits(), h) && h != hex_of(bb)
                        ==> lost_neighbor(before.hex_bits(), self.hex_bits(), h)
                &&& exists|s: Seq<int>|
                    #[trigger] removal_order(
                        before.hex_bits(),
                        self.hex_bits(),
                        before.field_bits(c),
                        left,
                        s,
                    ) && (s.len() > 0 ==> s[0] == hex_of(bb))
                &&& self.hex_bits() == (if c == Color::White {
                    cascade(before.hex_bits(), before.field_bits(c), left, hex_of(bb))
                } else {
                    cascade(before.hex_bits(), left, before.field_bits(c), hex_of(bb))
                })
                &&& forall|k: int| #[trigger]
                    bits::has_bit(self.field_bits(o), k) == (bits::has_bit(left, k) && !(
                    removed_neighbor(before.hex_bits(), self.hex_bits(), o, k) && surrounded(
                        before.field_bits(c),
                        self.hex_bits(),
                        o,
                        k,
                    )))
                &&& self.vitals.at(c).hexes == h0 - before.hexes_to_exchange
                &&& self.vitals.at(c).pieces == before.vitals.at(c).pieces
                &&& self.vitals.at(o).hexes == before.vitals.at(o).hexes
                &&& self.hexes_to_exchange == before.hexes_to_exchange
                &&& self.zobrist == before.zobrist.recounted(
                    h0,
                    (h0 - before.hexes_to_exchange) as u8,
                    o,
                ).switched()
            },
        }
    }
}

// ---------------------------------------------------------------------------------------------
// Counting hexes
// ---------------------------------------------------------------------------------------------

/// At most `n` of the first `n` hexes are extant.
pub proof fn lemma_count_bound(hexes: u64, n: nat)
    ensures
        count_extant(hexes, n) <= n,
    decreases n,
{
    if n > 0 {
        lemma_count_bound(hexes, (n - 1) as nat);
    }
}

/// Removing one extant hex lowers the count of extant hexes by one.
pub proof fn lemma_count_remove(a: u64, b: u64, i: int, n: nat)
    requires
        hex_extant(a, i),
        forall|h: int| 0 <= h < 19 ==> #[trigger] hex_extant(b, h) == (hex_extant(a, h) && h != i),
        n <= 19,
        0 <= i < 19,
    ensures
        count_extant(b, n) + (if i < n {
            1int
        } else {
            0int
        }) == count_extant(a, n),
    decreases n,
{
    if n > 0 {
        lemma_count_remove(a, b, i, (n - 1) as nat);
        assert(hex_extant(b, n - 1) == (hex_extant(a, n - 1) && n - 1 != i));
    }
}

/// Fewer extant hexes count fewer.
pub proof fn lemma_count_subset(a: u64, b: u64, n: nat)
    requires
        bits::subset(a, b),
    ensures
        count_extant(a, n) <= count_extant(b, n),
    decreases n,
{
    if n > 0 {
        lemma_count_subset(a, b, (n - 1) as nat);
    }
}

/// What every move does to the board: the board only shrinks (no hex comes back and the number
/// of extant hexes never grows), the side that moves never loses a piece, the other side never
/// gains one, the cost of an exchange stays, and the turn passes to the other side.
pub proof fn lemma_move_shrinks_board(before: Board, after: Board, mv: Move)
    requires
        before.wf(),
        after.wf(),
        before.is_legal(mv),
        after.played(before, mv),
    ensures
        bits::subset(after.hex_bits(), before.hex_bits()),
        extant_count(after.hex_bits()) <= extant_count(before.hex_bits()),
        after.vitals.at(before.turn).pieces == before.vitals.at(before.turn).pieces,
        after.vitals.at(model::opposite(before.turn)).pieces <= before.vitals.at(
            model::opposite(before.turn),
        ).pieces,
        after.hexes_to_exchange == before.hexes_to_exchange,
        after.turn == model::opposite(before.turn),
{
    let o = model::opposite(before.turn);
    lemma_count_subset(after.hex_bits(), before.hex_bits(), 19);
    assert(bits::subset(after.field_bits(o), before.field_bits(o))) by {
        assert forall|k: int| #[trigger] bits::has_bit(after.field_bits(o), k) implies bits::has_bit(
            before.field_bits(o),
            k,
        ) by {
            match mv {
                Move::Move(_, _, _) => {},
                Move::Exchange(bb, _) => {
                    assert(bits::has_bit(before.field_bits(o) ^ bb, k));
                    bits::lemma_single(bb);
                },
            }
        }
    }
    bits::lemma_pop_subset(after.field_bits(o), before.field_bits(o));
}

/// What is left to capture on a board: the pieces of both sides and the fields of the extant
/// hexes. Every capture lowers it.
pub open spec fn remaining(b: Board) -> int {
    b.vitals.white.pieces + b.vitals.black.pieces + bits::pop(b.hexes)
}

impl Board {
    /// A piece of the side to move on field `p` stands alone on its hex, no piece of the other
    /// side is there, and the hex would be removable if empty: moving the piece off the hex
    /// captures the hex.
    pub open spec fn alone_on_removable_hex(self, p: int) -> bool {
        &&& constants::maybe_removable(self.hex_bits(), p / 3)
        &&& forall|k: int|
            3 * (p / 3) <= k < 3 * (p / 3) + 3 ==> !#[trigger] bits::has_bit(
                self.field_bits(model::opposite(self.turn)),
                k,
            ) && (bits::has_bit(self.field_bits(self.turn), k) ==> k == p)
    }

    /// Moving a piece of the side to move from field `f` to field `t` fills the last free field
    /// around the piece of the other side on field `k`: every other extant field that shares an
    /// edge with it holds a piece of the side to move, other than the one that moves.
    pub open spec fn fills_last_liberty(self, f: int, t: int, k: int) -> bool {
        let c = self.turn;
        let o = model::opposite(c);
        &&& bits::has_bit(self.field_bits(o), k)
        &&& bits::has_bit(tables::edge_table(o, k as usize), t)
        &&& forall|j: int|
            #[trigger] bits::has_bit(tables::edge_table(o, k as usize), j) && bits::has_bit(
                self.hex_bits(),
                j,
            ) && j != t ==> bits::has_bit(self.field_bits(c), j) && j != f
    }

    /// The move captures at once: an exchange takes a piece; a move either leaves its hex empty
    /// and removable, or fills the last free field around a piece of the other side.
    pub open spec fn takes_at_once(self, mv: Move) -> bool {
        match mv {
            Move::Exchange(_, _) => true,
            Move::Move(from, to, _) => {
                let f = bits::lowest(from);
                let t = bits::lowest(to);
                ||| self.alone_on_removable_hex(f) && t / 3 != f / 3
                ||| exists|k: int| #[trigger] self.fills_last_liberty(f, t, k)
            }
        }
    }
}

/// The components of a sequence of field coordinates.
pub open spec fn views_of(s: Seq<FieldCoord>) -> Seq<(int, int, int)> {
    s.map_values(|c: FieldCoord| c@)
}

/// The hex across side `d` of hex (x, y).
pub open spec fn hex_step(x: int, y: int, d: int) -> (int, int) {
    if d == 0 {
        (x, y + 1)
    } else if d == 1 {
        (x + 1, y)
    } else if d == 2 {
        (x + 1, y - 1)
    } else if d == 3 {
        (x, y - 1)
    } else if d == 4 {
        (x - 1, y)
    } else {
        (x - 1, y + 1)
    }
}

/// `s` without the entries equal to `c`, the others kept in order.
pub open spec fn without_field(s: Seq<(int, int, int)>, c: (int, int, int)) -> Seq<(int, int, int)>
    decreases s.len(),
{
    if s.len() == 0 {
        s
    } else if s.last() == c {
        without_field(s.drop_last(), c)
    } else {
        without_field(s.drop_last(), c).push(s.last())
    }
}

impl Board {
    /// The fields across the edges of field `c`, in order: the next field of its hex, the
    /// previous one, and the field across side `f` of the hex when that hex is on the board and
    /// extant.
    pub open spec fn edge_list(self, c: (int, int, int)) -> Seq<(int, int, int)> {
        let (x, y, f) = c;
        let n = hex_step(x, y, f);
        let base = seq![(x, y, (f + 1) % 6), (x, y, (f + 5) % 6)];
        if model::valid_hex(n.0, n.1) && hex_extant(self.hex_bits(), model::hex_index_of(n.0, n.1)) {
            base.push((n.0, n.1, (f + 3) % 6))
        } else {
            base
        }
    }

    /// The edge lists of the fields of `s`, one after the other.
    pub open spec fn edge_lists(self, s: Seq<(int, int, int)>) -> Seq<(int, int, int)>
        decreases s.len(),
    {
        if s.len() == 0 {
            s
        } else {
            self.edge_lists(s.drop_last()) + self.edge_list(s.last())
        }
    }

    /// The fields that share a vertex with field `c` and have its color: the edge neighbors of its
    /// edge neighbors, in turn, without `c` itself.
    pub open spec fn vertex_list(self, c: (int, int, int)) -> Seq<(int, int, int)> {
        without_field(self.edge_lists(self.edge_list(c)), c)
    }
}

/// The lone piece of the side to move on a removable hex with no piece of the other side can
/// capture the hex by moving off it.
#[verifier::spinoff_prover]
proof fn lemma_hex_capture_origin(b: Board, i: int, our_piece: u64, opp_piece: u64)
    requires
        0 <= i < 19,
        our_piece == b.field_bits(b.turn) & constants::hex_mask_spec(i),
        opp_piece == b.field_bits(model::opposite(b.turn)) & constants::hex_mask_spec(i),
        opp_piece == 0,
        bits::is_single(our_piece),
        constants::maybe_removable(b.hex_bits(), i),
    ensures
        b.alone_on_removable_hex(bits::lowest(our_piece)),
{
    bits::lemma_single(our_piece);
    constants::lemma_hex_mask(i);
    let p = bits::lowest(our_piece);
    assert(bits::has_bit(our_piece, p));
    assert(p / 3 == i);
    assert(constants::maybe_removable(b.hex_bits(), p / 3));
    assert forall|k: int|
        3 * (p / 3) <= k < 3 * (p / 3) + 3 implies !#[trigger] bits::has_bit(
        b.field_bits(model::opposite(b.turn)),
        k,
    ) && (bits::has_bit(b.field_bits(b.turn), k) ==> k == p) by {
        assert(!bits::has_bit(opp_piece, k));
        if bits::has_bit(b.field_bits(b.turn), k) {
            assert(bits::has_bit(our_piece, k));
        }
    }
}

proof fn lemma_takes_by_liberty(b: Board, from: u64, to: u64, c: Color, k: int)
    requires
        b.fills_last_liberty(bits::lowest(from), bits::lowest(to), k),
    ensures
        b.takes_at_once(Move::Move(from, to, c)),
{
    let mv = Move::Move(from, to, c);
    assert(mv->Move_0 == from && mv->Move_1 == to);
}

/// A move that captures at once takes a piece of the other side or a hex, and so lowers what is
/// left to capture.
pub proof fn lemma_capture_shrinks(before: Board, after: Board, mv: Move)
    requires
        before.wf(),
        after.wf(),
        before.is_legal(mv),
        after.played(before, mv),
        before.takes_at_once(mv),
    ensures
        after.vitals.at(model::opposite(before.turn)).pieces < before.vitals.at(
            model::opposite(before.turn),
        ).pieces || extant_count(after.hex_bits()) < extant_count(before.hex_bits()),
        remaining(after) < remaining(before),
{
    lemma_count_pop(before.hex_bits());
    lemma_count_pop(after.hex_bits());
    let c = before.turn;
    let o = model::opposite(c);
    lemma_move_shrinks_board(before, after, mv);
    bits::lemma_pop_subset(after.hex_bits(), before.hex_bits());
    assert(bits::subset(after.field_bits(o), before.field_bits(o))) by {
        assert forall|k: int| #[trigger] bits::has_bit(after.field_bits(o), k) implies bits::has_bit(
            before.field_bits(o),
            k,
        ) by {
            match mv {
                Move::Move(_, _, _) => {},
                Move::Exchange(bb, _) => {
                    assert(bits::has_bit(before.field_bits(o) ^ bb, k));
                    bits::lemma_single(bb);
                },
            }
        }
    }
    bits::lemma_pop_subset(after.field_bits(o), before.field_bits(o));
    match mv {
        Move::Exchange(bb, _) => {
            bits::lemma_single(bb);
            let e = bits::lowest(bb);
            assert(!bits::has_bit(after.field_bits(o), e));
            bits::lemma_pop_strict(after.field_bits(o), before.field_bits(o), e);
        },
        Move::Move(from, to, _) => {
            bits::lemma_single(from);
            bits::lemma_single(to);
            let f = bits::lowest(from);
            let t = bits::lowest(to);
            let moved = before.field_bits(c) ^ (from | to);
            if before.alone_on_removable_hex(f) && t / 3 != f / 3 {
                let h = f / 3;
                assert(hex_of(from) == h);
                assert(hex_empty(moved, before.field_bits(o), h)) by {
                    assert forall|k: int| 3 * h <= k < 3 * h + 3 implies !bits::has_bit(moved, k)
                        && !bits::has_bit(before.field_bits(o), k) by {
                        assert(!bits::has_bit(before.field_bits(o), k));
                        assert(k != t);
                    }
                }
                assert(bits::has_bit(before.hex_bits(), f));
                lemma_bit_hex(before.hex_bits(), f);
                assert(hex_removed(before.hex_bits(), after.hex_bits(), h));
                bits::lemma_pop_strict(after.hex_bits(), before.hex_bits(), 3 * h);
            } else {
                let k = choose|k: int| #[trigger] before.fills_last_liberty(f, t, k);
                assert(0 <= k < 57) by {
                    assert(bits::has_bit(before.hex_bits(), k));
                }
                assert(0 <= t < 57);
                tables::lemma_neighbors_symmetric(o, k, t);
                let surround = !moved & (after.hex_bits() & tables::edge_table(o, k as usize));
                assert forall|j: int| !#[trigger] bits::has_bit(surround, j) by {
                    if bits::has_bit(after.hex_bits(), j) && bits::has_bit(
                        tables::edge_table(o, k as usize),
                        j,
                    ) {
                        assert(bits::has_bit(before.hex_bits(), j));
                        assert(bits::has_bit(moved, j));
                    }
                }
                bits::lemma_zero_iff(surround);
                assert(surrounded(moved, after.hex_bits(), o, k));
                assert(!bits::has_bit(after.field_bits(o), k));
                bits::lemma_pop_strict(after.field_bits(o), before.field_bits(o), k);
            }
        },
    }
}

/// Three bits per extant hex.
pub proof fn lemma_count_pop(hexes: u64)
    requires
        hexes_wf(hexes),
    ensures
        bits::pop(hexes) == 3 * extant_count(hexes),
{
    lemma_count_pop_below(hexes, 19);
    lemma_pop_below_above(hexes, 57, 64);
}

proof fn lemma_count_pop_below(hexes: u64, n: nat)
    requires
        hexes_wf(hexes),
        n <= 19,
    ensures
        bits::pop_below(hexes, 3 * n) == 3 * count_extant(hexes, n),
    decreases n,
{
    if n > 0 {
        lemma_count_pop_below(hexes, (n - 1) as nat);
        let m = 3 * (n - 1);
        let b0: nat = if bits::has_bit(hexes, m) { 1 } else { 0 };
        let b1: nat = if bits::has_bit(hexes, m + 1) { 1 } else { 0 };
        let b2: nat = if bits::has_bit(hexes, m + 2) { 1 } else { 0 };
        assert(bits::pop_below(hexes, (m + 1) as nat) == bits::pop_below(hexes, m as nat) + b0);
        assert(bits::pop_below(hexes, (m + 2) as nat) == bits::pop_below(hexes, (m + 1) as nat)
            + b1);
        assert(bits::pop_below(hexes, (m + 3) as nat) == bits::pop_below(hexes, (m + 2) as nat)
            + b2);
        assert(hex_extant(hexes, n - 1) == bits::has_bit(hexes, 3 * (n - 1) + 1));
        assert(3 * n == m + 3);
    }
}

proof fn lemma_pop_below_above(hexes: u64, lo: nat, n: nat)
    requires
        bits::below(hexes, lo as int),
        lo <= n,
    ensures
        bits::pop_below(hexes, n) == bits::pop_below(hexes, lo),
    decreases n,
{
    if n > lo {
        lemma_pop_below_above(hexes, lo, (n - 1) as nat);
        assert(!bits::has_bit(hexes, n - 1));
    }
}

/// Taking the bits of an empty extant hex out of a well-formed hex bitboard leaves a well-formed
/// bitboard with one hex less, on which all pieces still stand.
proof fn lemma_remove_hex_bits(old_hexes: u64, new_hexes: u64, i: int, white: u64, black: u64)
    requires
        new_hexes == old_hexes & !constants::hex_mask_spec(i),
        0 <= i < 19,
        hexes_wf(old_hexes),
        hex_extant(old_hexes, i),
        bits::subset(white, old_hexes),
        bits::subset(black, old_hexes),
        hex_empty(white, black, i),
    ensures
        hexes_wf(new_hexes),
        bits::subset(new_hexes, old_hexes),
        bits::subset(white, new_hexes),
        bits::subset(black, new_hexes),
        forall|h: int|
            0 <= h < 19 ==> #[trigger] hex_extant(new_hexes, h) == (hex_extant(old_hexes, h) && h
                != i),
        extant_count(new_hexes) + 1 == extant_count(old_hexes),
{
    constants::lemma_hex_mask(i);
    assert forall|k: int| #[trigger]
        bits::has_bit(new_hexes, k) == (bits::has_bit(old_hexes, k) && !(3 * i <= k < 3 * i
            + 3)) by {}
    assert forall|h: int| 0 <= h < 19 implies #[trigger] hex_extant(new_hexes, h) == (hex_extant(
        old_hexes,
        h,
    ) && h != i) by {
        assert(bits::has_bit(new_hexes, 3 * h) == (bits::has_bit(old_hexes, 3 * h) && !(3 * i <= 3
            * h < 3 * i + 3)));
    }
    assert forall|h: int| 0 <= h < 19 implies (#[trigger] hex_extant(new_hexes, h)
        == bits::has_bit(new_hexes, 3 * h + 1) && hex_extant(new_hexes, h) == bits::has_bit(
        new_hexes,
        3 * h + 2,
    )) by {
        assert(hex_extant(old_hexes, h) == bits::has_bit(old_hexes, 3 * h + 1));
        assert(bits::has_bit(new_hexes, 3 * h + 1) == (bits::has_bit(old_hexes, 3 * h + 1) && h
            != i));
        assert(bits::has_bit(new_hexes, 3 * h + 2) == (bits::has_bit(old_hexes, 3 * h + 2) && h
            != i));
    }
    assert forall|k: int| #[trigger] bits::has_bit(white, k) implies bits::has_bit(new_hexes, k) by {
        assert(bits::has_bit(old_hexes, k));
        lemma_bit_hex(old_hexes, k);
        if 3 * i <= k < 3 * i + 3 {
            assert(!bits::has_bit(white, k));
        }
    }
    assert forall|k: int| #[trigger] bits::has_bit(black, k) implies bits::has_bit(new_hexes, k) by {
        assert(bits::has_bit(old_hexes, k));
        lemma_bit_hex(old_hexes, k);
        if 3 * i <= k < 3 * i + 3 {
            assert(!bits::has_bit(black, k));
        }
    }
    lemma_count_remove(old_hexes, new_hexes, i, 19);
}

// ---------------------------------------------------------------------------------------------
// Field and piece methods
// ---------------------------------------------------------------------------------------------

impl Board {
    /// Returns true if a hex has not been removed yet.
    ///
    /// > extant (adj.): Still in existence; not destroyed, lost, or extinct (The Free Dictionary)
    pub fn is_hex_extant(&self, index: usize) -> (r: bool)
        requires
            hexes_wf(self.hex_bits()),
            index < 19,
        ensures
            r == hex_extant(self.hex_bits(), index as int),
    {
        let m = hex_mask(index);
        let x = self.hexes & m;
        proof {
            bits::lemma_zero_iff(x);
            if x != 0 {
                let k = choose|k: int| bits::has_bit(x, k);
                lemma_bit_hex(self.hexes, k);
                assert(k / 3 == index);
            } else {
                assert(!bits::has_bit(x, 3 * index));
            }
        }
        x != 0
    }

    pub fn is_piece_on_bitboard(&self, bb: BitBoard, color: Color) -> (r: bool)
        requires
            bb & self.hex_bits() != 0,
        ensures
            r == (bb & self.field_bits(color) != 0),
            bits::is_single(bb) ==> r == bits::has_bit(self.field_bits(color), bits::lowest(bb)),
    {
        let r = bb & self.fields.get(color) != 0;
        proof {
            if bits::is_single(bb) {
                bits::lemma_single(bb);
                bits::lemma_zero_iff(bb & self.fields.at(color));
                if r {
                    let k = choose|k: int| bits::has_bit(bb & self.fields.at(color), k);
                    assert(k == bits::lowest(bb));
                } else {
                    assert(!bits::has_bit(bb & self.fields.at(color), bits::lowest(bb)));
                }
            }
        }
        r
    }

    fn toggle_field(&mut self, bb: BitBoard, color: Color)
        ensures
            final(self).field_bits(color) == old(self).field_bits(color) ^ bb,
            final(self).field_bits(model::opposite(color)) == old(self).field_bits(model::opposite(color)),
            final(self).hex_bits() == old(self).hex_bits(),
            final(self).turn == old(self).turn,
            final(self).vitals == old(self).vitals,
            final(self).zobrist == old(self).zobrist,
            final(self).hexes_to_exchange == old(self).hexes_to_exchange,
    {
        match color {
            Color::White => self.fields.white = self.fields.white ^ bb,
            Color::Black => self.fields.black = self.fields.black ^ bb,
        }
    }

    fn remove_piece(&mut self, bb: BitBoard, color: Color)
        requires
            old(self).layout_wf(),
            bits::is_single(bb),
            bits::has_bit(old(self).field_bits(color), bits::lowest(bb)),
        ensures
            final(self).layout_wf(),
            final(self).field_bits(color) == old(self).field_bits(color) ^ bb,
            forall|k: int| #[trigger]
                bits::has_bit(final(self).field_bits(color), k) == (bits::has_bit(
                    old(self).field_bits(color),
                    k,
                ) && k != bits::lowest(bb)),
            final(self).field_bits(model::opposite(color)) == old(self).field_bits(model::opposite(color)),
            final(self).hex_bits() == old(self).hex_bits(),
            final(self).turn == old(self).turn,
            final(self).vitals.at(color).pieces + 1 == old(self).vitals.at(color).pieces,
            final(self).vitals.at(color).hexes == old(self).vitals.at(color).hexes,
            final(self).vitals.at(model::opposite(color)) == old(self).vitals.at(model::opposite(color)),
            final(self).zobrist == old(self).zobrist,
            final(self).hexes_to_exchange == old(self).hexes_to_exchange,
    {
        proof {
            bits::lemma_single(bb);
            bits::lemma_pop_remove(
                self.fields.at(color),
                self.fields.at(color) ^ bb,
                bits::lowest(bb),
            );
        }
        self.toggle_field(bb, color);
        match color {
            Color::White => self.vitals.white.pieces = self.vitals.white.pieces - 1,
            Color::Black => self.vitals.black.pieces = self.vitals.black.pieces - 1,
        }
    }

    /// Removes the pieces of the side not to move that stand on `fields_to_check` and are
    /// surrounded.
    fn check_captures(&mut self, fields_to_check: BitBoard)
        requires
            old(self).layout_wf(),
        ensures
            final(self).layout_wf(),
            final(self).hex_bits() == old(self).hex_bits(),
            final(self).field_bits(old(self).turn) == old(self).field_bits(old(self).turn),
            forall|k: int| #[trigger]
                bits::has_bit(final(self).field_bits(model::opposite(old(self).turn)), k) == (bits::has_bit(
                    old(self).field_bits(model::opposite(old(self).turn)),
                    k,
                ) && !(bits::has_bit(fields_to_check, k) && surrounded(
                    old(self).field_bits(old(self).turn),
                    old(self).hex_bits(),
                    model::opposite(old(self).turn),
                    k,
                ))),
            final(self).turn == old(self).turn,
            final(self).vitals.at(old(self).turn) == old(self).vitals.at(old(self).turn),
            final(self).vitals.at(model::opposite(old(self).turn)).hexes == old(self).vitals.at(
                model::opposite(old(self).turn),
            ).hexes,
            final(self).zobrist == old(self).zobrist,
            final(self).hexes_to_exchange == old(self).hexes_to_exchange,
    {
        // fields_to_check must be a BitBoard for the opponent player (i.e. opposite of current turn)
        let us = self.turn;
        let them = us.switch();
        let check = fields_to_check & (self.hexes & self.fields.get(them));
        let mut rem = check;
        let ghost start = *self;
        while rem != 0
            invariant
                self.layout_wf(),
                self.hex_bits() == start.hex_bits(),
                self.field_bits(us) == start.field_bits(us),
                self.turn == us,
                them == model::opposite(us),
                self.vitals.at(us) == start.vitals.at(us),
                self.vitals.at(them).hexes == start.vitals.at(them).hexes,
                self.zobrist == start.zobrist,
                self.hexes_to_exchange == start.hexes_to_exchange,
                check == fields_to_check & (start.hex_bits() & start.field_bits(them)),
                bits::subset(rem, check),
                forall|k: int| #[trigger]
                    bits::has_bit(self.field_bits(them), k) == (bits::has_bit(
                        start.field_bits(them),
                        k,
                    ) && !(bits::has_bit(check, k) && !bits::has_bit(rem, k) && surrounded(
                        start.field_bits(us),
                        start.hex_bits(),
                        them,
                        k,
                    ))),
            decreases bits::pop(rem),
        {
            let bb = lowest_bit(rem);
            let ghost k = bits::lowest(rem);
            rem = rem ^ bb;
            let index = bits::bit_index(bb) as usize;
            proof {
                assert(bits::has_bit(check, k));
                assert(bits::has_bit(start.hex_bits(), k));
            }
            let neighbors = self.hexes & edge_neighbors(index, them);
            if !self.fields.get(us) & neighbors == 0 {
                proof {
                    assert(bits::has_bit(self.field_bits(them), k));
                }
                self.remove_piece(bb, them);
            }
        }
    }
}

// ---------------------------------------------------------------------------------------------
// Hex methods
// ---------------------------------------------------------------------------------------------

impl Board {
    /// A hex is removable (and must be removed) if it is empty and is "attached to the board by 3
    /// or less adjacent sides."
    fn is_hex_removable(&self, index: usize) -> (r: bool)
        requires
            self.layout_wf(),
            index < 19,
        ensures
            r == self.removable(index as int),
    {
        let m = hex_mask(index);
        let occupied = (self.fields.white | self.fields.black) & m;
        proof {
            bits::lemma_zero_iff(occupied);
            if occupied != 0 {
                let k = choose|k: int| bits::has_bit(occupied, k);
                assert(!hex_empty(self.fields.white, self.fields.black, index as int));
            } else {
                assert forall|k: int| 3 * index <= k < 3 * index + 3 implies !#[trigger] bits::has_bit(
                    self.fields.white,
                    k,
                ) && !bits::has_bit(self.fields.black, k) by {
                    assert(!bits::has_bit(occupied, k));
                }
            }
        }
        if occupied != 0 {
            return false;
        }
        self.is_hex_maybe_removable(index)
    }

    /// Assuming this hex is empty, would it be removable?
    fn is_hex_maybe_removable(&self, index: usize) -> (r: bool)
        requires
            index < 19,
        ensures
            r == constants::maybe_removable(self.hex_bits(), index as int),
    {
        // Combining colors here is okay because there won't be overlaps
        let hex = self.hexes & (hex_field_neighbors(index, Color::White) | hex_field_neighbors(
            index,
            Color::Black,
        ));

        // There are 18 combinations to check for each hex
        let mut j: usize = 0;
        while j < 18
            invariant
                index < 19,
                j <= 18,
                hex == self.hex_bits() & constants::hex_all_neighbors(index as int),
                forall|jj: int|
                    0 <= jj < j ==> hex != #[trigger] constants::removable_comb(index as int, jj),
            decreases 18 - j,
        {
            if hex == removable_hex_comb(index, j) {
                return true;
            }
            j = j + 1;
        }
        false
    }

    fn remove_hex(&mut self, index: usize) -> (r: bool)
        requires
            old(self).layout_wf(),
            index < 19,
            hex_extant(old(self).hex_bits(), index as int),
        ensures
            r == old(self).removable(index as int),
            final(self).same_pieces(*old(self)),
            !r ==> *final(self) == *old(self),
            r ==> {
                &&& final(self).layout_wf()
                &&& bits::subset(final(self).hex_bits(), old(self).hex_bits())
                &&& forall|h: int|
                    0 <= h < 19 ==> #[trigger] hex_extant(final(self).hex_bits(), h) == (hex_extant(
                        old(self).hex_bits(),
                        h,
                    ) && h != index)
                &&& extant_count(final(self).hex_bits()) + 1 == extant_count(old(self).hex_bits())
                &&& final(self).hex_bits() == old(self).hex_bits() & !constants::hex_mask_spec(
                    index as int,
                )
            },
    {
        let removable = self.is_hex_removable(index);

        if removable {
            let m = hex_mask(index);
            let ghost old_hexes = self.hexes;
            self.hexes = self.hexes & !m;
            proof {
                lemma_remove_hex_bits(old_hexes, self.hexes, index as int, self.fields.white, self.fields.black);
            }
        }
        removable
    }

    /// Removes hex `index` if it is removable, then checks the hexes around it in turn, so that
    /// removals cascade. Returns the number of hexes removed and the fields of the side not to move
    /// that border a removed hex and are still on the board: their pieces may now be captured.
    fn check_hexes(&mut self, index: usize) -> (r: (u8, BitBoard, Ghost<Seq<int>>))
        requires
            old(self).layout_wf(),
            index < 19,
            hex_extant(old(self).hex_bits(), index as int),
        ensures
            final(self).layout_wf(),
            final(self).same_pieces(*old(self)),
            bits::subset(final(self).hex_bits(), old(self).hex_bits()),
            r.0 + extant_count(final(self).hex_bits()) == extant_count(old(self).hex_bits()),
            forall|h: int|
                #[trigger] hex_removed(old(self).hex_bits(), final(self).hex_bits(), h) ==> hex_empty(
                    old(self).field_bits(Color::White),
                    old(self).field_bits(Color::Black),
                    h,
                ),
            hex_removed(old(self).hex_bits(), final(self).hex_bits(), index as int) == old(
                self,
            ).removable(index as int),
            !old(self).removable(index as int) ==> *final(self) == *old(self) && r.1 == 0,
            cascade_done(
                old(self).hex_bits(),
                final(self).hex_bits(),
                old(self).field_bits(Color::White),
                old(self).field_bits(Color::Black),
            ),
            forall|h: int|
                #[trigger] hex_removed(old(self).hex_bits(), final(self).hex_bits(), h) && h
                    != index ==> lost_neighbor(old(self).hex_bits(), final(self).hex_bits(), h),
            removal_order(
                old(self).hex_bits(),
                final(self).hex_bits(),
                old(self).field_bits(Color::White),
                old(self).field_bits(Color::Black),
                r.2@,
            ),
            r.2@.len() > 0 ==> r.2@[0] == index,
            final(self).hex_bits() == cascade(
                old(self).hex_bits(),
                old(self).field_bits(Color::White),
                old(self).field_bits(Color::Black),
                index as int,
            ),
            forall|k: int| #[trigger]
                bits::has_bit(r.1, k) == (bits::has_bit(final(self).hex_bits(), k)
                    && removed_neighbor(
                    old(self).hex_bits(),
                    final(self).hex_bits(),
                    model::opposite(old(self).turn),
                    k,
                )),
        decreases extant_count(old(self).hex_bits()),
    {
        let ghost start = *self;
        let mut remove_count: u8 = 0;
        let mut fields: BitBoard = 0;
        let ghost mut removed: Seq<int> = Seq::empty();

        if self.remove_hex(index) {
            remove_count = 1;
            let ghost mut order: Seq<int> = seq![index as int];
            proof {
                let one = seq![index as int];
                assert(one.take(0) =~= Seq::<int>::empty());
                assert(one.drop_last() =~= Seq::<int>::empty());
                assert(without(start.hex_bits(), Seq::<int>::empty()) == start.hex_bits());
                assert(without(start.hex_bits(), one) == without(start.hex_bits(), one.drop_last())
                    & !constants::hex_mask_spec(one.last()));
                assert(without(start.hex_bits(), one) == self.hex_bits());
                assert(removable_then(
                    without(start.hex_bits(), one.take(0)),
                    start.field_bits(Color::White),
                    start.field_bits(Color::Black),
                    one[0],
                ));
                assert(removal_order(
                    start.hex_bits(),
                    self.hex_bits(),
                    start.field_bits(Color::White),
                    start.field_bits(Color::Black),
                    order,
                ));
            }

            let our_neighbors = hex_field_neighbors(index, self.turn);
            let their_neighbors = hex_field_neighbors(index, self.turn.switch());
            let ghost mid = *self;
            let ghost them = model::opposite(self.turn);

            let mut rem = self.hexes & (our_neighbors | their_neighbors);
            let ghost init = rem;
            let ghost p = start.field_bits(Color::White);
            let ghost q = start.field_bits(Color::Black);
            proof {
                lemma_count_bound(start.hexes, 19);
                bv_or_commutes(
                    constants::hex_field_neighbors_spec(index as int, Color::White),
                    constants::hex_field_neighbors_spec(index as int, Color::Black),
                );
                assert(init == mid.hex_bits() & constants::hex_all_neighbors(index as int));
                assert(init & !init == 0) by (bit_vector);
                assert forall|n: int| !seen_from(init & !rem, n) by {
                    assert(0u64 & constants::hex_mask_spec(n) == 0) by (bit_vector);
                }
            }
            while rem != 0
                invariant
                    start == *old(self),
                    start.layout_wf(),
                    self.layout_wf(),
                    self.same_pieces(start),
                    them == model::opposite(start.turn),
                    bits::below(rem, 57),
                    bits::subset(self.hex_bits(), mid.hex_bits()),
                    mid.layout_wf(),
                    mid.same_pieces(start),
                    bits::subset(mid.hex_bits(), start.hex_bits()),
                    forall|h: int|
                        0 <= h < 19 ==> #[trigger] hex_extant(mid.hex_bits(), h) == (hex_extant(
                            start.hex_bits(),
                            h,
                        ) && h != index),
                    hex_extant(start.hex_bits(), index as int),
                    index < 19,
                    1 <= remove_count,
                    remove_count + extant_count(self.hex_bits()) == extant_count(start.hex_bits()),
                    extant_count(start.hex_bits()) <= 19,
                    forall|h: int|
                        #[trigger] hex_removed(start.hex_bits(), self.hex_bits(), h) ==> hex_empty(
                            start.field_bits(Color::White),
                            start.field_bits(Color::Black),
                            h,
                        ),
                    forall|k: int|
                        #[trigger] bits::has_bit(self.hex_bits(), k) ==> (bits::has_bit(fields, k)
                            == removed_neighbor(mid.hex_bits(), self.hex_bits(), them, k)),
                    init == mid.hex_bits() & constants::hex_all_neighbors(index as int),
                    bits::subset(rem, init),
                    p == start.field_bits(Color::White),
                    q == start.field_bits(Color::Black),
                    cascade_inv(p, q, mid.hex_bits(), self.hex_bits(), init & !rem),
                    forall|h: int|
                        #[trigger] hex_removed(start.hex_bits(), self.hex_bits(), h) && h != index
                            ==> lost_neighbor(start.hex_bits(), self.hex_bits(), h),
                    removal_order(start.hex_bits(), self.hex_bits(), p, q, order),
                    order.len() > 0,
                    order[0] == index,
                    cascade_walk(self.hex_bits(), p, q, rem) == cascade_walk(
                        mid.hex_bits(),
                        p,
                        q,
                        init,
                    ),
                decreases bits::pop(rem),
            {
                let neighbor = lowest_bit(rem);
                let ghost rem1 = rem;
                let ghost kb = bits::lowest(rem);
                let ghost h0 = self.hex_bits();
                rem = rem ^ neighbor;
                let n = to_index(neighbor);
                proof {
                    assert(bits::has_bit(init, kb));
                    assert forall|k: int| #[trigger] bits::has_bit(init & !rem, k) == (
                    bits::has_bit(init & !rem1, k) || k == kb) by {}
                }
                if self.is_hex_extant(n) {
                    let ghost s1 = *self;
                    let (c, f, sub) = self.check_hexes(n);
                    proof {
                        assert(s1.field_bits(Color::White) == p);
                        assert(s1.field_bits(Color::Black) == q);
                        let t = sub@;
                        lemma_removal_order_concat(
                            start.hex_bits(),
                            s1.hex_bits(),
                            self.hex_bits(),
                            p,
                            q,
                            order,
                            t,
                        );
                        order = order + t;
                        lemma_check_hexes_step(start, mid, s1, *self, fields, f, them);
                        lemma_cascade_step(
                            p,
                            q,
                            mid.hex_bits(),
                            s1.hex_bits(),
                            self.hex_bits(),
                            init & !rem1,
                            init & !rem,
                            kb,
                            true,
                        );
                        lemma_lost_step(
                            start.hex_bits(),
                            mid.hex_bits(),
                            s1.hex_bits(),
                            self.hex_bits(),
                            index as int,
                            kb,
                            true,
                        );
                    }
                    proof {
                        let h2 = cascade(h0, p, q, kb / 3) & h0;
                        assert forall|k: int| 0 <= k < 64 implies #[trigger] bits::has_bit(
                            h2,
                            k,
                        ) == bits::has_bit(self.hex_bits(), k) by {
                            if bits::has_bit(self.hex_bits(), k) {
                                assert(bits::has_bit(h0, k));
                            }
                        }
                        bits::lemma_bits_ext(h2, self.hex_bits());
                        assert(cascade_walk(h0, p, q, rem1) == cascade_walk(h2, p, q, rem));
                    }
                    remove_count = remove_count + c;
                    fields = fields | f;
                } else {
                    proof {
                        lemma_cascade_step(
                            p,
                            q,
                            mid.hex_bits(),
                            self.hex_bits(),
                            self.hex_bits(),
                            init & !rem1,
                            init & !rem,
                            kb,
                            false,
                        );
                        lemma_lost_step(
                            start.hex_bits(),
                            mid.hex_bits(),
                            self.hex_bits(),
                            self.hex_bits(),
                            index as int,
                            kb,
                            false,
                        );
                    }
                }
            }

            // Add in the opponent's neighbors, excluding those on hexes that have been removed
            let ghost fields0 = fields;
            fields = fields | their_neighbors;
            fields = fields & self.hexes;
            proof {
                assert(init & !0u64 == init) by (bit_vector);
                lemma_cascade_finish(p, q, start.hex_bits(), mid.hex_bits(), self.hex_bits(), index as int);
                lemma_check_hexes_done(start, mid, *self, index as int, fields0, fields, them);
                assert(!hex_extant(mid.hex_bits(), index as int));
                assert(!hex_extant(self.hex_bits(), index as int));
            }
            proof {
                removed = order;
            }
        } else {
            proof {
                assert(without(start.hex_bits(), Seq::<int>::empty()) == start.hex_bits());

                assert forall|k: int| #[trigger]
                    bits::has_bit(fields, k) == (bits::has_bit(self.hex_bits(), k)
                        && removed_neighbor(start.hex_bits(), self.hex_bits(), model::opposite(start.turn), k)) by {
                    if removed_neighbor(start.hex_bits(), self.hex_bits(), model::opposite(start.turn), k) {
                        let h = choose|h: int| #[trigger]
                            hex_removed(start.hex_bits(), self.hex_bits(), h) && bits::has_bit(
                                constants::hex_field_neighbors_spec(h, model::opposite(start.turn)),
                                k,
                            );
                    }
                }
            }
        }
        (remove_count, fields, Ghost(removed))
    }
}

/// One step of the cascade in `check_hexes`: the board went from `s1` to `s2` by a recursive
/// call that returned the fields `f`, and the accumulated fields absorb them.
proof fn lemma_check_hexes_step(
    start: Board,
    mid: Board,
    s1: Board,
    s2: Board,
    fields: u64,
    f: u64,
    them: Color,
)
    requires
        bits::subset(s1.hex_bits(), mid.hex_bits()),
        bits::subset(s2.hex_bits(), s1.hex_bits()),
        bits::subset(mid.hex_bits(), start.hex_bits()),
        hexes_wf(s1.hex_bits()),
        hexes_wf(s2.hex_bits()),
        hexes_wf(mid.hex_bits()),
        hexes_wf(start.hex_bits()),
        forall|h: int|
            #[trigger] hex_removed(start.hex_bits(), s1.hex_bits(), h) ==> hex_empty(
                start.field_bits(Color::White),
                start.field_bits(Color::Black),
                h,
            ),
        forall|h: int|
            #[trigger] hex_removed(s1.hex_bits(), s2.hex_bits(), h) ==> hex_empty(
                s1.field_bits(Color::White),
                s1.field_bits(Color::Black),
                h,
            ),
        s1.same_pieces(start),
        forall|k: int|
            #[trigger] bits::has_bit(s1.hex_bits(), k) ==> (bits::has_bit(fields, k)
                == removed_neighbor(mid.hex_bits(), s1.hex_bits(), them, k)),
        forall|k: int| #[trigger]
            bits::has_bit(f, k) == (bits::has_bit(s2.hex_bits(), k) && removed_neighbor(
                s1.hex_bits(),
                s2.hex_bits(),
                them,
                k,
            )),
    ensures
        forall|h: int|
            #[trigger] hex_removed(start.hex_bits(), s2.hex_bits(), h) ==> hex_empty(
                start.field_bits(Color::White),
                start.field_bits(Color::Black),
                h,
            ),
        forall|k: int|
            #[trigger] bits::has_bit(s2.hex_bits(), k) ==> (bits::has_bit(fields | f, k)
                == removed_neighbor(mid.hex_bits(), s2.hex_bits(), them, k)),
{
    assert forall|h: int| #[trigger] hex_removed(start.hex_bits(), s2.hex_bits(), h) implies hex_empty(
        start.field_bits(Color::White),
        start.field_bits(Color::Black),
        h,
    ) by {
        if hex_extant(s1.hex_bits(), h) {
            assert(hex_removed(s1.hex_bits(), s2.hex_bits(), h));
        } else {
            assert(hex_removed(start.hex_bits(), s1.hex_bits(), h));
        }
    }
    assert forall|k: int| #[trigger] bits::has_bit(s2.hex_bits(), k) implies (bits::has_bit(
        fields | f,
        k,
    ) == removed_neighbor(mid.hex_bits(), s2.hex_bits(), them, k)) by {
        assert(bits::has_bit(s1.hex_bits(), k));
        if removed_neighbor(mid.hex_bits(), s2.hex_bits(), them, k) {
            let h = choose|h: int| #[trigger]
                hex_removed(mid.hex_bits(), s2.hex_bits(), h) && bits::has_bit(
                    constants::hex_field_neighbors_spec(h, them),
                    k,
                );
            if hex_extant(s1.hex_bits(), h) {
                assert(hex_removed(s1.hex_bits(), s2.hex_bits(), h));
            } else {
                assert(hex_removed(mid.hex_bits(), s1.hex_bits(), h));
            }
        }
        if removed_neighbor(mid.hex_bits(), s1.hex_bits(), them, k) {
            let h = choose|h: int| #[trigger]
                hex_removed(mid.hex_bits(), s1.hex_bits(), h) && bits::has_bit(
                    constants::hex_field_neighbors_spec(h, them),
                    k,
                );
            lemma_bit_hex(s1.hex_bits(), 3 * h);
            lemma_bit_hex(s2.hex_bits(), 3 * h);
            assert(hex_removed(mid.hex_bits(), s2.hex_bits(), h));
        }
        if removed_neighbor(s1.hex_bits(), s2.hex_bits(), them, k) {
            let h = choose|h: int| #[trigger]
                hex_removed(s1.hex_bits(), s2.hex_bits(), h) && bits::has_bit(
                    constants::hex_field_neighbors_spec(h, them),
                    k,
                );
            lemma_bit_hex(s1.hex_bits(), 3 * h);
            lemma_bit_hex(mid.hex_bits(), 3 * h);
            assert(hex_removed(mid.hex_bits(), s2.hex_bits(), h));
        }
    }
}

/// The end of the cascade in `check_hexes`: the fields bordering the hexes removed after the
/// first one, together with those bordering the first one, are those bordering any removed hex.
proof fn lemma_check_hexes_done(
    start: Board,
    mid: Board,
    s: Board,
    i: int,
    fields0: u64,
    fields: u64,
    them: Color,
)
    requires
        0 <= i < 19,
        hex_extant(start.hex_bits(), i),
        forall|h: int|
            0 <= h < 19 ==> #[trigger] hex_extant(mid.hex_bits(), h) == (hex_extant(
                start.hex_bits(),
                h,
            ) && h != i),
        bits::subset(s.hex_bits(), mid.hex_bits()),
        hexes_wf(s.hex_bits()),
        hexes_wf(mid.hex_bits()),
        fields == (fields0 | constants::hex_field_neighbors_spec(i, them)) & s.hex_bits(),
        forall|k: int|
            #[trigger] bits::has_bit(s.hex_bits(), k) ==> (bits::has_bit(fields0, k)
                == removed_neighbor(mid.hex_bits(), s.hex_bits(), them, k)),
    ensures
        forall|k: int| #[trigger]
            bits::has_bit(fields, k) == (bits::has_bit(s.hex_bits(), k) && removed_neighbor(
                start.hex_bits(),
                s.hex_bits(),
                them,
                k,
            )),
{
    assert forall|k: int| #[trigger]
        bits::has_bit(fields, k) == (bits::has_bit(s.hex_bits(), k) && removed_neighbor(
            start.hex_bits(),
            s.hex_bits(),
            them,
            k,
        )) by {
        if bits::has_bit(s.hex_bits(), k) {
            if removed_neighbor(start.hex_bits(), s.hex_bits(), them, k) {
                let h = choose|h: int| #[trigger]
                    hex_removed(start.hex_bits(), s.hex_bits(), h) && bits::has_bit(
                        constants::hex_field_neighbors_spec(h, them),
                        k,
                    );
                if h != i {
                    assert(hex_removed(mid.hex_bits(), s.hex_bits(), h));
                }
            }
            if removed_neighbor(mid.hex_bits(), s.hex_bits(), them, k) {
                let h = choose|h: int| #[trigger]
                    hex_removed(mid.hex_bits(), s.hex_bits(), h) && bits::has_bit(
                        constants::hex_field_neighbors_spec(h, them),
                        k,
                    );
                assert(hex_removed(start.hex_bits(), s.hex_bits(), h));
            }
            if bits::has_bit(constants::hex_field_neighbors_spec(i, them), k) {
                lemma_bit_hex(s.hex_bits(), 3 * i);
                lemma_bit_hex(mid.hex_bits(), 3 * i);
                assert(hex_removed(start.hex_bits(), s.hex_bits(), i));
            }
        }
    }
}


/// Moving a piece from a field it holds to an empty field on an extant hex keeps it on the board
/// and keeps the piece count.
proof fn lemma_move_bits(fields: u64, hexes: u64, from: u64, to: u64)
    requires
        single_field(from),
        single_field(to),
        bits::has_bit(fields, bits::lowest(from)),
        !bits::has_bit(fields, bits::lowest(to)),
        bits::has_bit(hexes, bits::lowest(to)),
        bits::subset(fields, hexes),
    ensures
        bits::subset(fields ^ (from | to), hexes),
        bits::pop(fields ^ (from | to)) == bits::pop(fields),
        forall|k: int| #[trigger]
            bits::has_bit(fields ^ (from | to), k) == ((bits::has_bit(fields, k) && k
                != bits::lowest(from)) || k == bits::lowest(to)),
{
    bits::lemma_single(from);
    bits::lemma_single(to);
    let lf = bits::lowest(from);
    let lt = bits::lowest(to);
    let moved = fields ^ (from | to);
    let b = fields ^ from;
    bits::lemma_pop_remove(fields, b, lf);
    bits::lemma_pop_remove(moved, b, lt);
}

/// What `check_captures` leaves of the pieces of the side not to move, stated over the candidate
/// fields without the extant-hex filter: a piece of that side always stands on an extant hex.
proof fn lemma_capture_candidates(
    theirs: u64,
    hexes_before: u64,
    hexes_after: u64,
    ours: u64,
    them: Color,
    check: u64,
    extra: u64,
)
    requires
        hexes_wf(hexes_before),
        hexes_wf(hexes_after),
        bits::subset(theirs, hexes_before),
        forall|h: int|
            #[trigger] hex_removed(hexes_before, hexes_after, h) ==> hex_empty(ours, theirs, h),
        forall|k: int| #[trigger]
            bits::has_bit(check, k) == (bits::has_bit(hexes_after, k) && removed_neighbor(
                hexes_before,
                hexes_after,
                them,
                k,
            )),
    ensures
        forall|k: int|
            bits::has_bit(theirs, k) ==> (#[trigger] bits::has_bit(check | extra, k) == (
            bits::has_bit(extra, k) || removed_neighbor(hexes_before, hexes_after, them, k))),
{
    assert forall|k: int| bits::has_bit(theirs, k) implies (#[trigger] bits::has_bit(
        check | extra,
        k,
    ) == (bits::has_bit(extra, k) || removed_neighbor(hexes_before, hexes_after, them, k))) by {
        lemma_bit_hex(hexes_before, k);
        lemma_bit_hex(hexes_after, k);
        if !hex_extant(hexes_after, k / 3) {
            assert(hex_removed(hexes_before, hexes_after, k / 3));
            assert(3 * (k / 3) <= k < 3 * (k / 3) + 3);
        }
    }
}

// ---------------------------------------------------------------------------------------------
// Moves
// ---------------------------------------------------------------------------------------------

impl Board {
    pub fn can_exchange(&self) -> (r: bool)
        ensures
            r == self.can_exchange_spec(),
    {
        self.vitals.get(self.turn).hexes >= self.hexes_to_exchange
    }

    /// The fields that `mv` names are fields of the board on extant hexes: see `move_on_board`.
    pub fn is_move_on_board(&self, mv: &Move) -> (r: bool)
        ensures
            r == self.move_on_board(*mv),
    {
        match *mv {
            Move::Move(from, to, _) => {
                if bits::is_one_bit_set(from) && bits::is_one_bit_set(to) {
                    let a = bits::bit_index(from);
                    let b = bits::bit_index(to);
                    a < 57 && b < 57 && (self.hexes >> a as u64) & 1 == 1
                        && (self.hexes >> b as u64) & 1 == 1
                } else {
                    false
                }
            },
            Move::Exchange(bb, _) => {
                if bits::is_one_bit_set(bb) {
                    let a = bits::bit_index(bb);
                    a < 57 && (self.hexes >> a as u64) & 1 == 1
                } else {
                    false
                }
            },
        }
    }

    /// The test `can_apply_move` makes: a move of a piece of the side to move to a field that
    /// shares a vertex with its field and holds no piece of its color, or an exchange, which the
    /// side to move can pay for, of a piece of the other side.
    pub open spec fn applicable(self, mv: Move) -> bool {
        match mv {
            Move::Move(from, to, color) => {
                &&& color == self.turn
                &&& to & tables::vertex_table(color, bits::lowest(from) as usize) != 0
                &&& from & self.field_bits(color) != 0
                &&& !(to & self.field_bits(color) != 0)
            },
            Move::Exchange(bb, color) => {
                &&& self.can_exchange_spec()
                &&& color != self.turn
                &&& bb & self.field_bits(color) != 0
            },
        }
    }

    /// The fields that `can_apply_move` reads lie on extant hexes: the origin of a move of the
    /// side to move to a field at one of its vertices, and then, if the origin holds a piece of
    /// that color, the destination; the piece of an exchange that the side to move can pay for.
    pub open spec fn fields_read_extant(self, mv: Move) -> bool {
        match mv {
            Move::Move(from, to, color) => color == self.turn && to & tables::vertex_table(
                color,
                bits::lowest(from) as usize,
            ) != 0 ==> from & self.hex_bits() != 0 && (from & self.field_bits(color) != 0 ==> to
                & self.hex_bits() != 0),
            Move::Exchange(bb, color) => self.can_exchange_spec() && color != self.turn ==> bb
                & self.hex_bits() != 0,
        }
    }

    /// Whether `mv` may be played (`applicable`); for a move whose fields are fields of the board
    /// on extant hexes this is exactly `is_legal`.
    pub fn can_apply_move(&self, mv: &Move) -> (r: bool)
        requires
            self.wf(),
            *mv matches Move::Move(from, _, _) ==> from != 0 && bits::lowest(from) < 57,
            self.fields_read_extant(*mv),
        ensures
            r == self.applicable(*mv),
            self.move_on_board(*mv) ==> r == self.is_legal(*mv),
    {
        proof {
            if self.move_on_board(*mv) {
                match *mv {
                    Move::Move(from, to, color) => {
                        bits::lemma_single_and(from, self.field_bits(color));
                        bits::lemma_single_and(to, self.field_bits(color));
                        bits::lemma_single_and(
                            to,
                            tables::vertex_table(color, bits::lowest(from) as usize),
                        );
                    },
                    Move::Exchange(bb, color) => {
                        bits::lemma_single_and(bb, self.field_bits(color));
                    },
                }
            }
        }
        match *mv {
            Move::Move(from, to, color) => {
                let vertex_neighbors = vertex_neighbors(bits::bit_index(from) as usize, color);
                color == self.turn && (to & vertex_neighbors != 0) && self.is_piece_on_bitboard(
                    from,
                    color,
                ) && !self.is_piece_on_bitboard(to, color)
            },
            Move::Exchange(bb, color) => {
                self.can_exchange() && color != self.turn && self.is_piece_on_bitboard(bb, color)
            },
        }
    }

    pub fn apply_move(&mut self, mv: &Move)
        requires
            old(self).wf(),
            old(self).is_legal(*mv),
        ensures
            final(self).wf(),
            final(self).played(*old(self), *mv),
            *final(self) == after_move(*old(self), *mv),
    {
        let ghost before = *self;
        proof {
            lemma_count_bound(before.hexes, 19);
        }
        match *mv {
            Move::Move(from, to, color) => {
                proof {
                    lemma_move_bits(self.fields.at(color), self.hexes, from, to);
                    bits::lemma_single(from);
                    lemma_bit_hex(self.hexes, bits::lowest(from));
                }
                self.toggle_field(from | to, color);
                self.zobrist.toggle_field(from, color);
                self.zobrist.toggle_field(to, color);
                let ghost s1 = *self;

                let (capture_count, fields_to_check, order) = self.check_hexes(to_index(from));
                let ghost s2 = *self;
                let ghost check = fields_to_check;
                proof {
                    if color == Color::Black {
                        lemma_removal_order_swap(
                            s1.hex_bits(),
                            s2.hex_bits(),
                            s1.field_bits(Color::White),
                            s1.field_bits(Color::Black),
                            order@,
                        );
                        lemma_cascade_done_swap(
                            s1.hex_bits(),
                            s2.hex_bits(),
                            s1.field_bits(Color::White),
                            s1.field_bits(Color::Black),
                        );
                    }
                }
                let edge = edge_neighbors(bits::bit_index(to) as usize, color);
                let fields_to_check = fields_to_check | edge;
                proof {
                    lemma_capture_candidates(
                        s2.fields.at(model::opposite(color)),
                        s1.hexes,
                        s2.hexes,
                        s2.fields.at(color),
                        model::opposite(color),
                        check,
                        edge,
                    );
                }
                self.check_captures(fields_to_check);

                if capture_count != 0 {
                    let h0 = self.vitals.get(color).hexes;
                    self.zobrist.set_hex_count(h0, h0 + capture_count, color);
                    match color {
                        Color::White => self.vitals.white.hexes = h0 + capture_count,
                        Color::Black => self.vitals.black.hexes = h0 + capture_count,
                    }
                }
            },
            Move::Exchange(bb, color) => {
                proof {
                    bits::lemma_single(bb);
                    lemma_bit_hex(self.hexes, bits::lowest(bb));
                }
                self.remove_piece(bb, color);
                let us = self.turn;
                let h0 = self.vitals.get(us).hexes;
                self.zobrist.set_hex_count(h0, h0 - self.hexes_to_exchange, color);
                match us {
                    Color::White => self.vitals.white.hexes = h0 - self.hexes_to_exchange,
                    Color::Black => self.vitals.black.hexes = h0 - self.hexes_to_exchange,
                }
                let ghost s1 = *self;

                // Players don't collect hexes removed due to an exchange
                let (_, fields_to_check, order) = self.check_hexes(to_index(bb));
                let ghost s2 = *self;
                proof {
                    if us == Color::Black {
                        lemma_removal_order_swap(
                            s1.hex_bits(),
                            s2.hex_bits(),
                            s1.field_bits(Color::White),
                            s1.field_bits(Color::Black),
                            order@,
                        );
                        lemma_cascade_done_swap(
                            s1.hex_bits(),
                            s2.hex_bits(),
                            s1.field_bits(Color::White),
                            s1.field_bits(Color::Black),
                        );
                    }
                }
                proof {
                    lemma_capture_candidates(
                        s2.fields.at(color),
                        s1.hexes,
                        s2.hexes,
                        s2.fields.at(us),
                        color,
                        fields_to_check,
                        0,
                    );
                }
                self.check_captures(fields_to_check);
            },
        }
        self.turn = self.turn.switch();
        self.zobrist.switch_turn();
        proof {
            assert(self.wf() && self.played(before, *mv));
            let a = after_move(before, *mv);
            lemma_played_unique(before, *self, a, *mv);
        }
    }
}


/// The fields of `mv` are single fields of the board (they may lie on removed hexes).
pub open spec fn fields_named(mv: Move) -> bool {
    match mv {
        Move::Move(from, to, _) => single_field(from) && single_field(to),
        Move::Exchange(bb, _) => single_field(bb),
    }
}

/// For a move that names single fields, when the fields that `can_apply_move` reads lie on
/// extant hexes, its test is legality.
pub proof fn lemma_applicable_legal(b: Board, mv: Move)
    requires
        fields_named(mv),
        b.fields_read_extant(mv),
    ensures
        b.applicable(mv) == b.is_legal(mv),
{
    match mv {
        Move::Move(from, to, color) => {
            bits::lemma_single_and(from, b.hex_bits());
            bits::lemma_single_and(to, b.hex_bits());
            bits::lemma_single_and(from, b.field_bits(color));
            bits::lemma_single_and(to, b.field_bits(color));
            bits::lemma_single_and(to, tables::vertex_table(color, bits::lowest(from) as usize));
        },
        Move::Exchange(bb, color) => {
            bits::lemma_single_and(bb, b.hex_bits());
            bits::lemma_single_and(bb, b.field_bits(color));
        },
    }
}

/// A move whose fields are fields of the board on extant hexes can be tested by
/// `can_apply_move`.
pub proof fn lemma_on_board_readable(b: Board, mv: Move)
    requires
        b.move_on_board(mv),
    ensures
        b.fields_read_extant(mv),
        mv matches Move::Move(from, _, _) ==> from != 0 && bits::lowest(from) < 57,
{
    match mv {
        Move::Move(from, to, _) => {
            bits::lemma_single_and(from, b.hex_bits());
            bits::lemma_single_and(to, b.hex_bits());
        },
        Move::Exchange(bb, _) => {
            bits::lemma_single_and(bb, b.hex_bits());
        },
    }
}

/// Playing a legal move gives one board: two well-formed boards that are both what playing `mv`
/// on `before` gives are the same board.
pub proof fn lemma_played_unique(before: Board, a: Board, b: Board, mv: Move)
    requires
        before.wf(),
        before.is_legal(mv),
        a.wf(),
        b.wf(),
        a.played(before, mv),
        b.played(before, mv),
    ensures
        a == b,
{
    let c = before.turn;
    let o = model::opposite(c);
    assert(a.hex_bits() == b.hex_bits());
    assert forall|k: int| 0 <= k < 64 implies #[trigger] bits::has_bit(a.field_bits(o), k)
        == bits::has_bit(b.field_bits(o), k) by {
        assert(bits::has_bit(a.field_bits(o), k) == bits::has_bit(a.field_bits(o), k));
        assert(bits::has_bit(b.field_bits(o), k) == bits::has_bit(b.field_bits(o), k));
    }
    bits::lemma_bits_ext(a.field_bits(o), b.field_bits(o));
    assert(a.field_bits(c) == b.field_bits(c));
    assert(a.fields == b.fields) by {
        match c {
            Color::White => {},
            Color::Black => {},
        }
    }
    assert(a.vitals.at(o).pieces == b.vitals.at(o).pieces);
    assert(a.vitals == b.vitals) by {
        match c {
            Color::White => {
                assert(a.vitals.white == b.vitals.white);
                assert(a.vitals.black == b.vitals.black);
            },
            Color::Black => {
                assert(a.vitals.white == b.vitals.white);
                assert(a.vitals.black == b.vitals.black);
            },
        }
    }
}

/// The board that playing the legal move `mv` on `before` gives (see `played`).
pub open spec fn after_move(before: Board, mv: Move) -> Board {
    choose|a: Board| a.wf() && a.played(before, mv)
}

/// The bit of the field a move starts from (for an exchange, the field of the exchanged piece).
pub open spec fn origin_of(mv: Move) -> int {
    match mv {
        Move::Move(from, _, _) => bits::lowest(from),
        Move::Exchange(bb, _) => bits::lowest(bb),
    }
}

/// The bit of the field a move goes to (none for an exchange).
pub open spec fn dest_of(mv: Move) -> int {
    match mv {
        Move::Move(_, to, _) => bits::lowest(to),
        Move::Exchange(_, _) => -1,
    }
}

/// The move moves a piece (rather than exchanging one).
pub open spec fn is_step(mv: Move) -> bool {
    match mv {
        Move::Move(_, _, _) => true,
        Move::Exchange(_, _) => false,
    }
}

/// The order in which `generate_moves` lists moves: the moves of pieces by the field they start
/// from, then by the field they go to, and after them the exchanges by the field of the piece
/// taken.
pub open spec fn listed_before(a: Move, b: Move) -> bool {
    if is_step(a) && is_step(b) {
        origin_of(a) < origin_of(b) || (origin_of(a) == origin_of(b) && dest_of(a) < dest_of(b))
    } else if is_step(a) {
        true
    } else if is_step(b) {
        false
    } else {
        origin_of(a) < origin_of(b)
    }
}

/// The moves of `s` come in the order of `listed_before`.
pub open spec fn in_listing_order(s: Seq<Move>) -> bool {
    forall|i: int, j: int| 0 <= i < j < s.len() ==> listed_before(#[trigger] s[i], #[trigger] s[j])
}

impl Board {
    /// All legal moves, each once: the moves of the pieces of the side to move, lowest origin
    /// first, then the exchanges.
    pub fn generate_moves(&self) -> (r: Vec<Move>)
        requires
            self.wf(),
            self.field_bits(self.turn) != 0,
        ensures
            forall|mv: Move| r@.contains(mv) <==> self.is_legal(mv),
            r@.no_duplicates(),
            in_listing_order(r@),
    {
        let turn = self.turn;
        let fields = self.fields.get(turn);
        let hexes = self.hexes;
        let opp_color = turn.switch();
        let opp_fields = if self.can_exchange() {
            self.fields.get(opp_color)
        } else {
            0
        };

        let mut moves: Vec<Move> = Vec::new();
        let mut origins = fields;
        while origins != 0
            invariant
                self.wf(),
                turn == self.turn,
                fields == self.field_bits(turn),
                hexes == self.hex_bits(),
                bits::subset(origins, fields),
                forall|j: int|
                    0 <= j < moves@.len() ==> {
                        &&& self.is_legal(#[trigger] moves@[j])
                        &&& is_step(moves@[j])
                        &&& !bits::has_bit(origins, origin_of(moves@[j]))
                    },
                forall|mv: Move|
                    self.is_legal(mv) && is_step(mv) && !bits::has_bit(origins, origin_of(mv))
                        ==> #[trigger] moves@.contains(mv),
                moves@.no_duplicates(),
                in_listing_order(moves@),
                forall|j: int, b: int|
                    0 <= j < moves@.len() && #[trigger] bits::has_bit(origins, b) ==> origin_of(
                        #[trigger] moves@[j],
                    ) < b,
            decreases bits::pop(origins),
        {
            let origin = lowest_bit(origins);
            let ghost k = bits::lowest(origins);
            let ghost before_origins = origins;
            origins = origins ^ origin;
            let ghost prefix = moves@;
            proof {
                assert(bits::has_bit(fields, k));
                assert(bits::has_bit(hexes, k));
                assert(bits::has_bit(before_origins, k));
                assert forall|j: int| 0 <= j < prefix.len() implies origin_of(#[trigger] prefix[j])
                    < k by {
                    assert(bits::has_bit(before_origins, k));
                    assert(moves@[j] == prefix[j]);
                }
                bits::lemma_lowest(before_origins);
            }
            let mut dests = vertex_neighbors(bits::bit_index(origin) as usize, turn) & (!fields
                & hexes);
            let ghost all_dests = dests;
            while dests != 0
                invariant
                    self.wf(),
                    turn == self.turn,
                    fields == self.field_bits(turn),
                    hexes == self.hex_bits(),
                    0 <= k < 57,
                    origin == bits::bit(k),
                    bits::is_single(origin),
                    bits::lowest(origin) == k,
                    bits::has_bit(fields, k),
                    bits::has_bit(before_origins, k),
                    forall|j: int| #[trigger]
                        bits::has_bit(origins, j) == (bits::has_bit(before_origins, j) && j != k),
                    all_dests == tables::vertex_table(turn, k as usize) & (!fields & hexes),
                    bits::subset(dests, all_dests),
                    prefix.len() <= moves@.len(),
                    forall|j: int| 0 <= j < prefix.len() ==> #[trigger] moves@[j] == prefix[j],
                    forall|j: int|
                        0 <= j < prefix.len() ==> {
                            &&& self.is_legal(#[trigger] prefix[j])
                            &&& is_step(prefix[j])
                            &&& !bits::has_bit(before_origins, origin_of(prefix[j]))
                        },
                    forall|j: int|
                        prefix.len() <= j < moves@.len() ==> {
                            &&& self.is_legal(#[trigger] moves@[j])
                            &&& is_step(moves@[j])
                            &&& origin_of(moves@[j]) == k
                            &&& bits::has_bit(all_dests, dest_of(moves@[j]))
                            &&& !bits::has_bit(dests, dest_of(moves@[j]))
                        },
                    forall|mv: Move|
                        self.is_legal(mv) && is_step(mv) && !bits::has_bit(
                            before_origins,
                            origin_of(mv),
                        ) ==> #[trigger] prefix.contains(mv),
                    forall|mv: Move|
                        self.is_legal(mv) && is_step(mv) && origin_of(mv) == k && bits::has_bit(
                            all_dests,
                            dest_of(mv),
                        ) && !bits::has_bit(dests, dest_of(mv)) ==> #[trigger] moves@.contains(mv),
                    moves@.no_duplicates(),
                    in_listing_order(moves@),
                    forall|j: int| 0 <= j < prefix.len() ==> origin_of(#[trigger] prefix[j]) < k,
                    forall|b: int| #[trigger] bits::has_bit(origins, b) ==> k < b,
                    forall|j: int, b: int|
                        prefix.len() <= j < moves@.len() && #[trigger] bits::has_bit(dests, b)
                            ==> dest_of(#[trigger] moves@[j]) < b,
                decreases bits::pop(dests),
            {
                let dest = lowest_bit(dests);
                let ghost d = bits::lowest(dests);
                let ghost dests0 = dests;
                dests = dests ^ dest;
                proof {
                    assert(bits::has_bit(all_dests, d));
                    assert(bits::has_bit(hexes, d));
                    lemma_bit_hex(hexes, d);
                }
                let mv = Move::Move(origin, dest, turn);
                let ghost old_moves = moves@;
                proof {
                    bits::lemma_lowest(dests0);
                    assert(self.is_legal(mv));
                    assert(!moves@.contains(mv)) by {
                        if moves@.contains(mv) {
                            let j = choose|j: int| 0 <= j < moves@.len() && moves@[j] == mv;
                            if j < prefix.len() {
                                assert(moves@[j] == prefix[j]);
                            }
                        }
                    }
                }
                moves.push(mv);
                proof {
                    assert forall|m: Move|
                        self.is_legal(m) && is_step(m) && origin_of(m) == k && bits::has_bit(
                            all_dests,
                            dest_of(m),
                        ) && !bits::has_bit(dests, dest_of(m)) implies #[trigger] moves@.contains(
                        m,
                    ) by {
                        if dest_of(m) == d {
                            match m {
                                Move::Move(f, t, c) => {
                                    bits::lemma_single(f);
                                    bits::lemma_single(t);
                                    assert(m == mv);
                                    assert(moves@[moves@.len() - 1] == mv);
                                },
                                Move::Exchange(_, _) => {},
                            }
                        } else {
                            assert(old_moves.contains(m));
                            let j = choose|j: int| 0 <= j < old_moves.len() && old_moves[j] == m;
                            assert(moves@[j] == m);
                        }
                    }
                    assert forall|m: Move|
                        self.is_legal(m) && is_step(m) && !bits::has_bit(
                            before_origins,
                            origin_of(m),
                        ) implies #[trigger] prefix.contains(m) by {}
                    assert forall|a: int, b: int|
                        0 <= a < b < moves@.len() implies listed_before(
                        #[trigger] moves@[a],
                        #[trigger] moves@[b],
                    ) by {
                        if b == moves@.len() - 1 {
                            assert(moves@[b] == mv);
                            if a < prefix.len() {
                                assert(moves@[a] == prefix[a]);
                                assert(is_step(prefix[a]));
                            } else {
                                assert(moves@[a] == old_moves[a]);
                                assert(bits::has_bit(dests0, d));
                                assert(dest_of(old_moves[a]) < d);
                            }
                        } else {
                            assert(moves@[a] == old_moves[a]);
                            assert(moves@[b] == old_moves[b]);
                        }
                    }
                    assert forall|j: int, b: int|
                        prefix.len() <= j < moves@.len() && #[trigger] bits::has_bit(dests, b)
                            implies dest_of(#[trigger] moves@[j]) < b by {
                        assert(bits::has_bit(dests0, b));
                        if j < old_moves.len() {
                            assert(moves@[j] == old_moves[j]);
                        } else {
                            assert(moves@[j] == mv);
                            assert(b != d);
                        }
                    }
                }
            }
            proof {
                assert forall|j: int, b: int|
                    0 <= j < moves@.len() && #[trigger] bits::has_bit(origins, b) implies origin_of(
                    #[trigger] moves@[j],
                ) < b by {
                    if j < prefix.len() {
                        assert(moves@[j] == prefix[j]);
                    }
                }
                assert forall|mv: Move|
                    self.is_legal(mv) && is_step(mv) && !bits::has_bit(origins, origin_of(mv))
                        implies #[trigger] moves@.contains(mv) by {
                    if origin_of(mv) == k {
                        match mv {
                            Move::Move(f, t, c) => {
                                assert(bits::has_bit(all_dests, dest_of(mv)));
                            },
                            Move::Exchange(_, _) => {},
                        }
                    } else {
                        assert(prefix.contains(mv));
                        let j = choose|j: int| 0 <= j < prefix.len() && prefix[j] == mv;
                        assert(moves@[j] == mv);
                    }
                }
            }
        }

        let mut exchanged = opp_fields;
        let ghost steps = moves@;
        while exchanged != 0
            invariant
                self.wf(),
                turn == self.turn,
                opp_color == model::opposite(turn),
                opp_fields == (if self.can_exchange_spec() {
                    self.field_bits(opp_color)
                } else {
                    0
                }),
                bits::subset(exchanged, opp_fields),
                steps.len() <= moves@.len(),
                forall|j: int| 0 <= j < steps.len() ==> #[trigger] moves@[j] == steps[j],
                forall|j: int|
                    0 <= j < steps.len() ==> self.is_legal(#[trigger] steps[j]) && is_step(
                        steps[j],
                    ),
                forall|mv: Move| self.is_legal(mv) && is_step(mv) ==> #[trigger] steps.contains(mv),
                forall|j: int|
                    steps.len() <= j < moves@.len() ==> {
                        &&& self.is_legal(#[trigger] moves@[j])
                        &&& !is_step(moves@[j])
                        &&& !bits::has_bit(exchanged, origin_of(moves@[j]))
                    },
                forall|mv: Move|
                    self.is_legal(mv) && !is_step(mv) && !bits::has_bit(exchanged, origin_of(mv))
                        ==> #[trigger] moves@.contains(mv),
                moves@.no_duplicates(),
                in_listing_order(moves@),
                forall|j: int, b: int|
                    steps.len() <= j < moves@.len() && #[trigger] bits::has_bit(exchanged, b)
                        ==> origin_of(#[trigger] moves@[j]) < b,
            decreases bits::pop(exchanged),
        {
            let e = lowest_bit(exchanged);
            let ghost k = bits::lowest(exchanged);
            let ghost exchanged0 = exchanged;
            exchanged = exchanged ^ e;
            proof {
                bits::lemma_lowest(exchanged0);
            }
            let mv = Move::Exchange(e, opp_color);
            let ghost old_moves = moves@;
            proof {
                assert(bits::has_bit(opp_fields, k));
                assert(self.is_legal(mv));
                assert(!moves@.contains(mv)) by {
                    if moves@.contains(mv) {
                        let j = choose|j: int| 0 <= j < moves@.len() && moves@[j] == mv;
                        if j < steps.len() {
                            assert(moves@[j] == steps[j]);
                        }
                    }
                }
            }
            moves.push(mv);
            proof {
                assert forall|m: Move|
                    self.is_legal(m) && !is_step(m) && !bits::has_bit(exchanged, origin_of(m))
                        implies #[trigger] moves@.contains(m) by {
                    if origin_of(m) == k {
                        match m {
                            Move::Exchange(b, c) => {
                                bits::lemma_single(b);
                                assert(m == mv);
                                assert(moves@[moves@.len() - 1] == mv);
                            },
                            Move::Move(_, _, _) => {},
                        }
                    } else {
                        assert(old_moves.contains(m));
                        let j = choose|j: int| 0 <= j < old_moves.len() && old_moves[j] == m;
                        assert(moves@[j] == m);
                    }
                }
                assert forall|m: Move| self.is_legal(m) && is_step(m) implies #[trigger] moves@.contains(
                    m,
                ) by {
                    assert(steps.contains(m));
                    let j = choose|j: int| 0 <= j < steps.len() && steps[j] == m;
                    assert(moves@[j] == m);
                }
                assert forall|a: int, b: int|
                    0 <= a < b < moves@.len() implies listed_before(
                    #[trigger] moves@[a],
                    #[trigger] moves@[b],
                ) by {
                    if b == moves@.len() - 1 {
                        assert(moves@[b] == mv);
                        if a < steps.len() {
                            assert(moves@[a] == steps[a]);
                            assert(is_step(steps[a]));
                        } else {
                            assert(moves@[a] == old_moves[a]);
                            assert(bits::has_bit(exchanged0, k));
                        }
                    } else {
                        assert(moves@[a] == old_moves[a]);
                        assert(moves@[b] == old_moves[b]);
                    }
                }
                assert forall|j: int, b: int|
                    steps.len() <= j < moves@.len() && #[trigger] bits::has_bit(exchanged, b)
                        implies origin_of(#[trigger] moves@[j]) < b by {
                    assert(bits::has_bit(exchanged0, b));
                    if j < old_moves.len() {
                        assert(moves@[j] == old_moves[j]);
                    } else {
                        assert(moves@[j] == mv);
                        bits::lemma_single(e);
                        assert(b != k);
                    }
                }
            }
        }
        proof {
            assert forall|mv: Move| moves@.contains(mv) implies self.is_legal(mv) by {
                let j = choose|j: int| 0 <= j < moves@.len() && moves@[j] == mv;
                if j < steps.len() {
                    assert(moves@[j] == steps[j]);
                }
            }
            assert forall|mv: Move| self.is_legal(mv) implies moves@.contains(mv) by {
                if is_step(mv) {
                    assert(steps.contains(mv));
                    let j = choose|j: int| 0 <= j < steps.len() && steps[j] == mv;
                    assert(moves@[j] == mv);
                } else {
                    match mv {
                        Move::Exchange(b, c) => {
                            assert(bits::has_bit(opp_fields, origin_of(mv)));
                        },
                        Move::Move(_, _, _) => {},
                    }
                }
            }
        }
        moves
    }
}


/// The result of a game on this board, not counting threefold repetition: a side without pieces
/// has lost; a side that can neither move (every field of its color is taken) nor exchange is
/// stalemated; with one piece each and too few hexes left and collected for either side to ever
/// afford an exchange, neither side can capture, which is a draw.
pub open spec fn outcome_of(b: Board) -> Outcome {
    let fields = b.field_bits(b.turn);
    let wh = b.vitals.white.hexes;
    let bh = b.vitals.black.hexes;
    let most = if wh >= bh {
        wh
    } else {
        bh
    };
    if fields == 0 {
        Outcome::Win(model::opposite(b.turn))
    } else if fields == b.hex_bits() && !b.can_exchange_spec() {
        Outcome::DrawStalemate
    } else if b.vitals.white.pieces == 1 && b.vitals.black.pieces == 1 && extant_count(b.hex_bits())
        + most - 1 < b.hexes_to_exchange {
        Outcome::DrawInsufficientMaterial
    } else {
        Outcome::InProgress
    }
}

/// Law: what decides the outcome of a board, side by side. The side to move has lost when it has
/// no piece left; with a piece it is stalemated when every field of its color on an extant hex
/// holds one of its pieces and it cannot exchange. Otherwise the game is drawn for want of
/// material exactly when each side has one piece and neither side could ever collect enough hexes
/// for an exchange: for each side, the extant hexes and the hexes it holds, less one, are fewer
/// than an exchange costs. Every other board is in progress.
pub proof fn lemma_outcome_cases(b: Board)
    ensures
        (outcome_of(b) == Outcome::Win(model::opposite(b.turn))) <==> b.field_bits(b.turn) == 0,
        outcome_of(b) != Outcome::Win(b.turn),
        (outcome_of(b) == Outcome::DrawStalemate) <==> (b.field_bits(b.turn) != 0 && b.field_bits(
            b.turn,
        ) == b.hex_bits() && !b.can_exchange_spec()),
        (outcome_of(b) == Outcome::DrawInsufficientMaterial) <==> {
            &&& b.field_bits(b.turn) != 0
            &&& !(b.field_bits(b.turn) == b.hex_bits() && !b.can_exchange_spec())
            &&& b.vitals.white.pieces == 1
            &&& b.vitals.black.pieces == 1
            &&& forall|c: Color|
                extant_count(b.hex_bits()) + #[trigger] b.vitals.at(c).hexes - 1
                    < b.hexes_to_exchange
        },
        outcome_of(b) != Outcome::DrawThreefoldRepetition,
{
    let e = extant_count(b.hex_bits());
    assert(b.vitals.at(Color::White).hexes == b.vitals.white.hexes);
    assert(b.vitals.at(Color::Black).hexes == b.vitals.black.hexes);
    if b.vitals.white.pieces == 1 && b.vitals.black.pieces == 1 && e + b.vitals.white.hexes - 1
        < b.hexes_to_exchange && e + b.vitals.black.hexes - 1 < b.hexes_to_exchange {
        assert forall|c: Color| e + #[trigger] b.vitals.at(c).hexes - 1 < b.hexes_to_exchange by {
            match c {
                Color::White => {},
                Color::Black => {},
            }
        }
    }
}

/// The sequence of field coordinates lists the bits of `bb`, lowest first, as fields of `color`.
pub open spec fn lists_fields(s: Seq<FieldCoord>, bb: u64, color: Color) -> bool {
    &&& s.len() == bits::pop(bb)
    &&& forall|j: int|
        0 <= j < s.len() ==> #[trigger] s[j].spec_color() == color && bits::has_bit(
            bb,
            s[j].index(),
        )
    &&& forall|i: int, j: int| 0 <= i < j < s.len() ==> s[i].index() < s[j].index()
}

/// The sequence of hex coordinates lists the hexes removed between `before` and `after`, lowest
/// index first.
pub open spec fn lists_removed_hexes(s: Seq<HexCoord>, before: u64, after: u64) -> bool {
    &&& forall|j: int| 0 <= j < s.len() ==> #[trigger] hex_removed(before, after, s[j].index())
    &&& forall|h: int| #[trigger] hex_removed(before, after, h) ==> exists|j: int|
        0 <= j < s.len() && s[j].index() == h
    &&& forall|i: int, j: int| 0 <= i < j < s.len() ==> s[i].index() < s[j].index()
}

impl Board {
    pub fn pieces(&self, color: Color) -> (r: u8)
        ensures
            r == self.vitals.at(color).pieces,
    {
        self.vitals.get(color).pieces
    }

    pub fn hexes(&self, color: Color) -> (r: u8)
        ensures
            r == self.vitals.at(color).hexes,
    {
        self.vitals.get(color).hexes
    }

    // This function does NOT consider draw by threefold repetition because move history is not
    // the concern of Board. See Model or the search for that.
    pub fn outcome(&self) -> (r: Outcome)
        requires
            self.wf(),
        ensures
            r == outcome_of(*self),
    {
        let fields = self.fields.get(self.turn);

        if fields == 0 {
            // No more pieces left
            Outcome::Win(self.turn.switch())
        } else if fields == self.hexes && !self.can_exchange() {
            // There are no empty fields to move to and we can't exchange
            Outcome::DrawStalemate
        } else {
            let wp = self.pieces(Color::White);
            let bp = self.pieces(Color::Black);
            let wh = self.hexes(Color::White);
            let bh = self.hexes(Color::Black);
            let most = if wh >= bh {
                wh
            } else {
                bh
            };

            // If neither side can capture the other's pieces, the game is drawn
            if wp == 1 && bp == 1 {
                proof {
                    lemma_count_pop(self.hexes);
                    bits::lemma_pop_lowest(self.fields.white);
                    if self.fields.white != 0 {
                        bits::lemma_lowest(self.fields.white);
                        let k = bits::lowest(self.fields.white);
                        assert(bits::has_bit(self.hexes, k));
                        bits::lemma_pop_bounds(self.hexes, 64);
                    }
                    lemma_count_bound(self.hexes, 19);
                }
                let extant = (bits::count_ones(self.hexes) / 3) as u8;
                if extant + most - 1 < self.hexes_to_exchange {
                    return Outcome::DrawInsufficientMaterial;
                }
            }
            Outcome::InProgress
        }
    }

    /// Applies a `Move` and returns it as a `MoveAnnotated`, that is, holding `Vec`s of the pieces
    /// and hexes removed by playing the move.
    pub fn annotated_apply_move(&mut self, mv: &Move) -> (r: MoveAnnotated)
        requires
            old(self).wf(),
            old(self).is_legal(*mv),
        ensures
            final(self).wf(),
            final(self).played(*old(self), *mv),
            *final(self) == after_move(*old(self), *mv),
            r.mv == *mv,
            lists_fields(
                r.removed_pieces@,
                old(self).field_bits(model::opposite(old(self).turn)) ^ final(self).field_bits(
                    model::opposite(old(self).turn),
                ),
                model::opposite(old(self).turn),
            ),
            lists_removed_hexes(r.removed_hexes@, old(self).hex_bits(), final(self).hex_bits()),
    {
        let opp_color = self.turn.switch();
        let old_opp_fields = self.fields.get(opp_color);
        let old_hexes = self.hexes;

        self.apply_move(mv);

        let captured = old_opp_fields ^ self.fields.get(opp_color);
        proof {
            assert(bits::below(captured, 57)) by {
                assert forall|k: int| #[trigger] bits::has_bit(captured, k) implies k < 57 by {
                    lemma_bit_hex(old_hexes, k);
                    assert(bits::has_bit(old_opp_fields, k) || bits::has_bit(
                        self.fields.at(opp_color),
                        k,
                    ));
                }
            }
        }
        let captured_pieces = fields_of_bitboard(captured, opp_color);
        let removed_hexes = removed_hexes_between(old_hexes, self.hexes);
        mv.annotate(captured_pieces, removed_hexes)
    }
}

/// The fields of the bits of `bb`, lowest first.
fn fields_of_bitboard(bb: BitBoard, color: Color) -> (r: Vec<FieldCoord>)
    requires
        bits::below(bb, 57),
    ensures
        lists_fields(r@, bb, color),
{
    let mut r: Vec<FieldCoord> = Vec::new();
    let mut rem = bb;
    proof {
        bits::lemma_pop_subset(rem, bb);
    }
    while rem != 0
        invariant
            bits::below(bb, 57),
            bits::subset(rem, bb),
            r@.len() + bits::pop(rem) == bits::pop(bb),
            forall|j: int|
                0 <= j < r@.len() ==> #[trigger] r@[j].spec_color() == color && bits::has_bit(
                    bb,
                    r@[j].index(),
                ) && !bits::has_bit(rem, r@[j].index()),
            forall|i: int, j: int| 0 <= i < j < r@.len() ==> r@[i].index() < r@[j].index(),
            forall|j: int, k: int|
                #![trigger r@[j], bits::has_bit(rem, k)]
                0 <= j < r@.len() && bits::has_bit(rem, k) ==> r@[j].index() < k,
        decreases bits::pop(rem),
    {
        let b = lowest_bit(rem);
        let ghost l = bits::lowest(rem);
        rem = rem ^ b;
        proof {
            assert(bits::has_bit(bb, l));
        }
        let c = FieldCoord::from_bitboard(b, color);
        r.push(c);
    }
    proof {
        bits::lemma_pop_lowest(rem);
    }
    r
}

/// The hexes extant in `before` and removed in `after`, lowest index first.
#[verifier::spinoff_prover]
fn removed_hexes_between(before: BitBoard, after: BitBoard) -> (r: Vec<HexCoord>)
    requires
        hexes_wf(before),
        hexes_wf(after),
    ensures
        lists_removed_hexes(r@, before, after),
{
    let mut r: Vec<HexCoord> = Vec::new();
    let mut h: u8 = 0;
    while h < 19
        invariant
            h <= 19,
            hexes_wf(before),
            hexes_wf(after),
            forall|j: int|
                0 <= j < r@.len() ==> #[trigger] hex_removed(before, after, r@[j].index())
                    && r@[j].index() < h,
            forall|g: int|
                #[trigger] hex_removed(before, after, g) && g < h ==> exists|j: int|
                    0 <= j < r@.len() && r@[j].index() == g,
            forall|i: int, j: int| 0 <= i < j < r@.len() ==> r@[i].index() < r@[j].index(),
        decreases 19 - h,
    {
        let mask = hex_mask(h as usize);
        let was = before & mask != 0;
        let still = after & mask != 0;
        proof {
            bits::lemma_zero_iff(before & mask);
            bits::lemma_zero_iff(after & mask);
            if was {
                let k = choose|k: int| bits::has_bit(before & mask, k);
                lemma_bit_hex(before, k);
            } else {
                assert(!bits::has_bit(before & mask, 3 * h));
            }
            if still {
                let k = choose|k: int| bits::has_bit(after & mask, k);
                lemma_bit_hex(after, k);
            } else {
                assert(!bits::has_bit(after & mask, 3 * h));
            }
        }
        let ghost old_r = r@;
        if was && !still {
            let c = HexCoord::from_index(h);
            r.push(c);
            proof {
                assert(r@[r@.len() - 1].index() == h);
                assert(hex_extant(before, h as int));
                assert(!hex_extant(after, h as int));
                assert(hex_removed(before, after, h as int));
            }
        }
        proof {
            assert forall|j: int| 0 <= j < r@.len() implies #[trigger] hex_removed(
                before,
                after,
                r@[j].index(),
            ) && r@[j].index() < h + 1 by {
                if j < old_r.len() {
                    assert(r@[j] == old_r[j]);
                    assert(hex_removed(before, after, old_r[j].index()));
                }
            }
            assert forall|i: int, j: int| 0 <= i < j < r@.len() implies r@[i].index()
                < r@[j].index() by {
                assert(r@[i] == old_r[i]);
                if j < old_r.len() {
                    assert(r@[j] == old_r[j]);
                } else {
                    assert(hex_removed(before, after, old_r[i].index()));
                }
            }
            assert forall|g: int| #[trigger]
                hex_removed(before, after, g) && g < h + 1 implies exists|j: int|
                0 <= j < r@.len() && r@[j].index() == g by {
                if g < h {
                    let j = choose|j: int| 0 <= j < old_r.len() && old_r[j].index() == g;
                    assert(r@[j] == old_r[j]);
                } else {
                    assert(r@[r@.len() - 1].index() == h);
                }
            }
        }
        h = h + 1;
    }
    r
}


/// The place of hex (x, y) in the order in which `extant_hexes` visits the hexes.
pub open spec fn visit_rank(c: (int, int)) -> int {
    choose|v: int| 0 <= v < 19 && hex_visit_order(v) == c
}

/// The order in which `extant_hexes` visits the hexes: the two hexes (1, 1) and (-1, -1), then
/// columns 0, 1 and 2 from the bottom up to the middle row, each hex followed by its mirror image
/// through the center.
pub open spec fn hex_visit_order(i: int) -> (int, int) {
    if i == 0 {
        (1, 1)
    } else if i == 1 {
        (-1, -1)
    } else if i == 2 {
        (0, -2)
    } else if i == 3 {
        (0, 2)
    } else if i == 4 {
        (0, -1)
    } else if i == 5 {
        (0, 1)
    } else if i == 6 {
        (0, 0)
    } else if i == 7 {
        (1, -2)
    } else if i == 8 {
        (-1, 2)
    } else if i == 9 {
        (1, -1)
    } else if i == 10 {
        (-1, 1)
    } else if i == 11 {
        (1, 0)
    } else if i == 12 {
        (-1, 0)
    } else if i == 13 {
        (2, -2)
    } else if i == 14 {
        (-2, 2)
    } else if i == 15 {
        (2, -1)
    } else if i == 16 {
        (-2, 1)
    } else if i == 17 {
        (2, 0)
    } else {
        (-2, 0)
    }
}

/// Every hex is visited once by `hex_visit_order`.
proof fn lemma_hex_visit_order(h: int)
    requires
        0 <= h < 19,
    ensures
        exists|i: int|
            0 <= i < 19 && #[trigger] model::hex_index_of(hex_visit_order(i).0, hex_visit_order(i).1) == h,
        forall|i: int, j: int|
            0 <= i < j < 19 ==> #[trigger] hex_visit_order(i) != #[trigger] hex_visit_order(j),
        forall|i: int|
            0 <= i < 19 ==> #[trigger] model::valid_hex(
                hex_visit_order(i).0,
                hex_visit_order(i).1,
            ),
{
    let i = if h == 0 {
        2int
    } else if h == 1 {
        7
    } else if h == 2 {
        13
    } else if h == 3 {
        1
    } else if h == 4 {
        4
    } else if h == 5 {
        9
    } else if h == 6 {
        15
    } else if h == 7 {
        18
    } else if h == 8 {
        12
    } else if h == 9 {
        6
    } else if h == 10 {
        11
    } else if h == 11 {
        17
    } else if h == 12 {
        16
    } else if h == 13 {
        10
    } else if h == 14 {
        5
    } else if h == 15 {
        0
    } else if h == 16 {
        14
    } else if h == 17 {
        8
    } else {
        3
    };
    assert(model::hex_index_of(hex_visit_order(i).0, hex_visit_order(i).1) == h);
}

fn hex_visit(i: usize) -> (r: (i8, i8))
    requires
        i < 19,
    ensures
        r.0 == hex_visit_order(i as int).0,
        r.1 == hex_visit_order(i as int).1,
{
    match i {
        0 => (1, 1),
        1 => (-1, -1),
        2 => (0, -2),
        3 => (0, 2),
        4 => (0, -1),
        5 => (0, 1),
        6 => (0, 0),
        7 => (1, -2),
        8 => (-1, 2),
        9 => (1, -1),
        10 => (-1, 1),
        11 => (1, 0),
        12 => (-1, 0),
        13 => (2, -2),
        14 => (-2, 2),
        15 => (2, -1),
        16 => (-2, 1),
        17 => (2, 0),
        _ => (-2, 0),
    }
}

impl Board {
    pub fn is_piece_on_field(&self, coord: FieldCoord) -> (r: bool)
        requires
            bits::has_bit(self.hex_bits(), coord.index()),
        ensures
            r == bits::has_bit(self.field_bits(coord.spec_color()), coord.index()),
    {
        let bb = coord.to_bitboard();
        proof {
            bits::lemma_single_and(bb, self.hexes);
        }
        self.is_piece_on_bitboard(bb, coord.color())
    }

    /// The hex at `coord`, if that is a hex of the board and it is extant.
    fn try_hex(&self, coord: (i8, i8)) -> (r: Option<HexCoord>)
        requires
            hexes_wf(self.hex_bits()),
        ensures
            r is Some <==> model::valid_hex(coord.0 as int, coord.1 as int) && hex_extant(
                self.hex_bits(),
                model::hex_index_of(coord.0 as int, coord.1 as int),
            ),
            r matches Some(h) ==> h@ == (coord.0 as int, coord.1 as int),
    {
        if let Some(coord) = HexCoord::try_new(coord.0, coord.1) {
            if self.is_hex_extant(coord.to_index()) {
                return Some(coord);
            }
        }
        None
    }

    /// Return the coordinates of the hexes that have not been removed yet, in the order of
    /// `hex_visit_order`.
    ///
    /// > extant (adj.): Still in existence; not destroyed, lost, or extinct (The Free Dictionary)
    pub fn extant_hexes(&self) -> (r: Vec<HexCoord>)
        requires
            hexes_wf(self.hex_bits()),
        ensures
            forall|j: int| 0 <= j < r@.len() ==> hex_extant(self.hex_bits(), #[trigger] r@[j].index()),
            forall|h: int|
                0 <= h < 19 && #[trigger] hex_extant(self.hex_bits(), h) ==> exists|j: int|
                    0 <= j < r@.len() && r@[j].index() == h,
            r@.no_duplicates(),
            forall|j: int|
                0 <= j < r@.len() ==> 0 <= #[trigger] visit_rank(r@[j]@) < 19 && hex_visit_order(
                    visit_rank(r@[j]@),
                ) == r@[j]@,
            forall|a: int, b: int|
                0 <= a < b < r@.len() ==> visit_rank(#[trigger] r@[a]@) < visit_rank(
                    #[trigger] r@[b]@,
                ),
    {
        let mut coords: Vec<HexCoord> = Vec::new();
        let ghost mut pos: Seq<int> = Seq::empty();
        let mut i: usize = 0;
        proof {
            lemma_hex_visit_order(0);
        }
        while i < 19
            invariant
                i <= 19,
                hexes_wf(self.hex_bits()),
                pos.len() == coords@.len(),
                forall|j: int|
                    #![trigger coords@[j]]
                    0 <= j < coords@.len() ==> hex_extant(self.hex_bits(), coords@[j].index())
                        && coords@[j]@ == hex_visit_order(pos[j]),
                forall|j: int| 0 <= j < pos.len() ==> 0 <= #[trigger] pos[j] < i,
                forall|a: int, b: int| 0 <= a < b < pos.len() ==> pos[a] < pos[b],
                forall|v: int|
                    0 <= v < i && hex_extant(
                        self.hex_bits(),
                        #[trigger] model::hex_index_of(hex_visit_order(v).0, hex_visit_order(v).1),
                    ) ==> exists|j: int| 0 <= j < coords@.len() && pos[j] == v,
                forall|a: int, b: int|
                    0 <= a < b < 19 ==> #[trigger] hex_visit_order(a) != #[trigger] hex_visit_order(b),
            decreases 19 - i,
        {
            let xy = hex_visit(i);
            let ghost old_coords = coords@;
            let ghost old_pos = pos;
            if let Some(hex) = self.try_hex(xy) {
                coords.push(hex);
                proof {
                    pos = pos.push(i as int);
                }
            }
            proof {
                assert forall|v: int|
                    0 <= v < i + 1 && hex_extant(
                        self.hex_bits(),
                        #[trigger] model::hex_index_of(hex_visit_order(v).0, hex_visit_order(v).1),
                    ) implies exists|j: int| 0 <= j < coords@.len() && pos[j] == v by {
                    if v < i {
                        let j = choose|j: int| 0 <= j < old_coords.len() && old_pos[j] == v;
                        assert(pos[j] == old_pos[j]);
                    } else {
                        assert(pos[pos.len() - 1] == v);
                    }
                }
                assert forall|a: int, b: int| 0 <= a < b < pos.len() implies pos[a] < pos[b] by {
                    assert(pos[a] == old_pos[a]);
                    assert(coords@[a] == old_coords[a]);
                    if b < old_pos.len() {
                        assert(pos[b] == old_pos[b]);
                    }
                }
                assert forall|j: int| 0 <= j < pos.len() implies 0 <= #[trigger] pos[j] < i + 1 by {
                    if j < old_pos.len() {
                        assert(pos[j] == old_pos[j]);
                    }
                }
                assert forall|j: int|
                    #![trigger coords@[j]]
                    0 <= j < coords@.len() implies hex_extant(self.hex_bits(), coords@[j].index())
                        && coords@[j]@ == hex_visit_order(pos[j]) by {
                    if j < old_coords.len() {
                        assert(coords@[j] == old_coords[j]);
                        assert(pos[j] == old_pos[j]);
                        assert(hex_extant(self.hex_bits(), old_coords[j].index()));
                    } else {
                        assert(pos[j] == i);
                        assert(coords@[j]@ == (xy.0 as int, xy.1 as int));
                        assert(hex_visit_order(i as int) == (xy.0 as int, xy.1 as int));
                    }
                }
            }
            i = i + 1;
        }
        proof {
            assert forall|h: int|
                0 <= h < 19 && #[trigger] hex_extant(self.hex_bits(), h) implies exists|j: int|
                0 <= j < coords@.len() && coords@[j].index() == h by {
                lemma_hex_visit_order(h);
                let v = choose|v: int|
                    0 <= v < 19 && #[trigger] model::hex_index_of(hex_visit_order(v).0, hex_visit_order(v).1)
                        == h;
                let j = choose|j: int| 0 <= j < coords@.len() && pos[j] == v;
                assert(coords@[j]@ == hex_visit_order(v));
            }
            assert forall|a: int, b: int| 0 <= a < b < coords@.len() implies coords@[a] != coords@[b] by {
                if coords@[a] == coords@[b] {
                    assert(coords@[a]@ == coords@[b]@);
                    assert(hex_visit_order(pos[a]) != hex_visit_order(pos[b]));
                }
            }
            assert forall|j: int| 0 <= j < coords@.len() implies #[trigger] visit_rank(coords@[j]@)
                == pos[j] by {
                assert(0 <= pos[j] < 19 && hex_visit_order(pos[j]) == coords@[j]@);
                let v = visit_rank(coords@[j]@);
                if v != pos[j] {
                    assert(hex_visit_order(v) != hex_visit_order(pos[j]));
                }
            }
        }
        coords
    }

    /// The fields a piece on `field` can move to, leaving out the removed hexes but not the
    /// occupied fields; none if there is no piece on `field`.
    pub fn available_moves_for_piece(&self, field: FieldCoord) -> (r: Vec<FieldCoord>)
        requires
            self.wf(),
            bits::has_bit(self.hex_bits(), field.index()),
        ensures
            bits::has_bit(self.field_bits(field.spec_color()), field.index()) ==> lists_fields(
                r@,
                self.hex_bits() & tables::vertex_table(field.spec_color(), field.index() as usize),
                field.spec_color(),
            ),
            !bits::has_bit(self.field_bits(field.spec_color()), field.index()) ==> r@.len() == 0,
    {
        if self.is_piece_on_field(field) {
            let color = field.color();
            let bb = field.to_bitboard();
            let vertex_neighbors = self.hexes & vertex_neighbors(bits::bit_index(bb) as usize, color);
            fields_of_bitboard(vertex_neighbors, color)
        } else {
            Vec::new()
        }
    }

    /// Return fields that share an edge with the given field. These fields are always the
    /// opposite color of the given field. If all of a piece's edge neighbors are occupied, that
    /// piece might be capturable. They are listed as `edge_list` gives them: the two on the same
    /// hex, then the one across the side of the hex when that hex is extant.
    pub fn get_field_edge_neighbors(&self, coord: FieldCoord) -> (r: Vec<FieldCoord>)
        requires
            self.wf(),
        ensures
            views_of(r@) == self.edge_list(coord@),
    {
        proof {
            use_type_invariant(coord);
        }
        let x = coord.x();
        let y = coord.y();
        let f = coord.f();
        let mut v: Vec<FieldCoord> = Vec::new();
        // There are always two edge neighbors on the same hex as the given field
        v.push(FieldCoord::new(x, y, (f + 1) % 6));
        v.push(FieldCoord::new(x, y, (f + 5) % 6));
        let (nx, ny) = if f == 0 {
            (x, y + 1)
        } else if f == 1 {
            (x + 1, y)
        } else if f == 2 {
            (x + 1, y - 1)
        } else if f == 3 {
            (x, y - 1)
        } else if f == 4 {
            (x - 1, y)
        } else {
            (x - 1, y + 1)
        };
        if HexCoord::is_valid_coord(nx, ny) {
            let hex = HexCoord::new(nx, ny);
            if self.is_hex_extant(hex.to_index()) {
                v.push(hex.to_field((f + 3) % 6));
            }
        }
        proof {
            assert(views_of(v@) =~= self.edge_list(coord@));
        }
        v
    }

    /// Return fields that share a vertex with the given field and have the same color as the
    /// given field. Pieces can move to fields that are vertex neighbors of the field they are on.
    /// A field's vertex neighbors are the edge neighbors of its edge neighbors, in turn, leaving
    /// out the field itself (`vertex_list`).
    pub fn get_field_vertex_neighbors(&self, coord: FieldCoord) -> (r: Vec<FieldCoord>)
        requires
            self.wf(),
        ensures
            views_of(r@) == self.vertex_list(coord@),
    {
        let edges = self.get_field_edge_neighbors(coord);
        let ghost ev = views_of(edges@);
        let mut out: Vec<FieldCoord> = Vec::new();
        let mut i: usize = 0;
        proof {
            assert(ev.take(0) =~= Seq::<(int, int, int)>::empty());
        }
        while i < edges.len()
            invariant
                self.wf(),
                i <= edges.len(),
                ev == views_of(edges@),
                ev == self.edge_list(coord@),
                views_of(out@) == without_field(self.edge_lists(ev.take(i as int)), coord@),
            decreases edges.len() - i,
        {
            let sub = self.get_field_edge_neighbors(edges[i]);
            let ghost done = self.edge_lists(ev.take(i as int));
            let ghost sv = views_of(sub@);
            let mut j: usize = 0;
            proof {
                assert(sv.take(0) =~= Seq::<(int, int, int)>::empty());
                assert(done + sv.take(0) =~= done);
            }
            while j < sub.len()
                invariant
                    j <= sub.len(),
                    sv == views_of(sub@),
                    views_of(out@) == without_field(done + sv.take(j as int), coord@),
                decreases sub.len() - j,
            {
                let n = sub[j];
                let ghost before = out@;
                proof {
                    assert((done + sv.take(j as int + 1)).drop_last() =~= done + sv.take(j as int));
                    assert((done + sv.take(j as int + 1)).last() == n@);
                }
                if n != coord {
                    out.push(n);
                    proof {
                        if n@ == coord@ {
                            n.lemma_view_eq(coord);
                        }
                        assert(views_of(out@) =~= views_of(before).push(n@));
                    }
                } else {
                    proof {
                        assert(n@ == coord@);
                    }
                }
                j = j + 1;
            }
            proof {
                assert(sv.take(sv.len() as int) =~= sv);
                assert(ev.take(i as int + 1).drop_last() =~= ev.take(i as int));
                assert(ev.take(i as int + 1).last() == ev[i as int]);
                assert(ev[i as int] == edges@[i as int]@);
            }
            i = i + 1;
        }
        proof {
            assert(ev.take(ev.len() as int) =~= ev);
        }
        out
    }

    /// A piece stands on `from`, none on `to`, and `to` shares a vertex with `from`.
    pub fn can_move_piece(&self, from: FieldCoord, to: FieldCoord) -> (r: bool)
        requires
            self.wf(),
            bits::has_bit(self.hex_bits(), from.index()),
            bits::has_bit(self.hex_bits(), to.index()),
        ensures
            r == (bits::has_bit(self.field_bits(from.spec_color()), from.index())
                && !bits::has_bit(self.field_bits(to.spec_color()), to.index())
                && from.spec_color() == to.spec_color() && bits::has_bit(
                tables::vertex_table(from.spec_color(), from.index() as usize),
                to.index(),
            )),
    {
        let color = from.color();
        let vertex = vertex_neighbors(bits::bit_index(from.to_bitboard()) as usize, color);
        let to_bb = to.to_bitboard();
        proof {
            bits::lemma_single_and(to_bb, vertex);
        }
        self.is_piece_on_field(from) && !self.is_piece_on_field(to) && color == to.color() && (
        to_bb & vertex != 0)
    }

    /// Moves the piece on `from` to `to`, without any of the consequences of a move: no hex is
    /// removed, nothing is captured and the turn does not pass.
    pub fn move_piece(&mut self, from: FieldCoord, to: FieldCoord)
        requires
            old(self).wf(),
            bits::has_bit(old(self).field_bits(from.spec_color()), from.index()),
            bits::has_bit(old(self).hex_bits(), to.index()),
            !bits::has_bit(old(self).field_bits(to.spec_color()), to.index()),
            from.spec_color() == to.spec_color(),
            bits::has_bit(tables::vertex_table(from.spec_color(), from.index() as usize), to.index()),
        ensures
            final(self).wf(),
            final(self).field_bits(from.spec_color()) == old(self).field_bits(from.spec_color())
                ^ (from.to_bitboard_spec() | to.to_bitboard_spec()),
            final(self).field_bits(model::opposite(from.spec_color())) == old(self).field_bits(
                model::opposite(from.spec_color()),
            ),
            final(self).hex_bits() == old(self).hex_bits(),
            final(self).turn == old(self).turn,
            final(self).vitals == old(self).vitals,
            final(self).hexes_to_exchange == old(self).hexes_to_exchange,
    {
        let color = from.color();
        let f = from.to_bitboard();
        let t = to.to_bitboard();
        proof {
            lemma_move_bits(self.fields.at(color), self.hexes, f, t);
        }
        self.toggle_field(f | t, color);
    }
}


// Public methods
impl Board {
    /// Create a new board with the starting position of `game_type`.
    pub fn new(game_type: GameType, hexes_to_exchange: u8) -> (r: Self)
        requires
            hexes_to_exchange == 1 || hexes_to_exchange == 2,
        ensures
            r.wf(),
            r.is_start(game_type, hexes_to_exchange),
    {
        let fields = constants::generate_start_fields(game_type);
        let hexes = constants::generate_start_hexes(game_type);
        proof {
            assert forall|k: int| #[trigger] bits::has_bit(fields.white, k) implies bits::has_bit(
                hexes,
                k,
            ) by {
                lemma_start_field_on_start_hex(game_type, Color::White, k);
                lemma_start_hex_bits(hexes, k);
            }
            assert forall|k: int| #[trigger] bits::has_bit(fields.black, k) implies bits::has_bit(
                hexes,
                k,
            ) by {
                lemma_start_field_on_start_hex(game_type, Color::Black, k);
                lemma_start_hex_bits(hexes, k);
            }
            bits::lemma_pop_bounds(fields.white, 57);
            bits::lemma_pop_bounds(fields.black, 57);
            lemma_count_bound(hexes, 19);
        }
        let vitals = ColorMap::new(
            PlayerVitals { pieces: bits::count_ones(fields.white) as u8, hexes: 0 },
            PlayerVitals { pieces: bits::count_ones(fields.black) as u8, hexes: 0 },
        );
        Self {
            fields,
            hexes,
            turn: Color::White,
            vitals,
            zobrist: zobrist::new(fields, ColorMap::new(0, 0), Color::White),
            hexes_to_exchange,
        }
    }
}

/// A starting piece stands on a starting hex.
proof fn lemma_start_field_on_start_hex(game: GameType, color: Color, k: int)
    requires
        constants::start_field(game, color, k),
    ensures
        0 <= k < 57,
        constants::start_hex(game, k / 3),
{
    let i = choose|i: int|
        0 <= i < constants::start_location_count(game) && #[trigger] constants::location_has_field(
            game,
            i,
            color,
            k,
        );
    let (x, y, f1, f2) = constants::start_location(game, i);
    assert(model::valid_field(x, y, f1) && model::valid_field(x, y, f2));
    model::lemma_hex_index_roundtrip(0, x, y);
    assert(k / 3 == model::hex_index_of(x, y));
}

/// The bits of a hex bitboard whose hexes are whole.
proof fn lemma_start_hex_bits(hexes: u64, k: int)
    requires
        bits::below(hexes, 57),
        forall|h: int|
            0 <= h < 19 ==> #[trigger] bits::has_bit(hexes, 3 * h + 1) == bits::has_bit(hexes, 3 * h),
        forall|h: int|
            0 <= h < 19 ==> #[trigger] bits::has_bit(hexes, 3 * h + 2) == bits::has_bit(hexes, 3 * h),
        0 <= k < 57,
    ensures
        bits::has_bit(hexes, k) == bits::has_bit(hexes, 3 * (k / 3)),
{
    let h = k / 3;
    assert(bits::has_bit(hexes, 3 * h + 1) == bits::has_bit(hexes, 3 * h));
    assert(bits::has_bit(hexes, 3 * h + 2) == bits::has_bit(hexes, 3 * h));
}


/// The exchanges, by `o`'s opponent, of the pieces of `o` on the fields of `rem`, lowest first.
pub open spec fn exchange_seq(rem: u64, o: Color) -> Seq<Move>
    decreases bits::pop(rem),
{
    if rem == 0 {
        Seq::empty()
    } else {
        proof {
            bits::lemma_pop_lowest(rem);
        }
        let k = bits::lowest(rem);
        seq![Move::Exchange(bits::bit(k), o)] + exchange_seq(rem ^ bits::bit(k), o)
    }
}

/// The moves of the pieces of `c` on the fields of `rem`, lowest first, to `to`.
pub open spec fn origin_seq(rem: u64, to: u64, c: Color) -> Seq<Move>
    decreases bits::pop(rem),
{
    if rem == 0 {
        Seq::empty()
    } else {
        proof {
            bits::lemma_pop_lowest(rem);
        }
        let k = bits::lowest(rem);
        seq![Move::Move(bits::bit(k), to, c)] + origin_seq(rem ^ bits::bit(k), to, c)
    }
}

/// The moves of the piece of `c` on `from` to the fields of `rem`, lowest first.
pub open spec fn dest_seq(rem: u64, from: u64, c: Color) -> Seq<Move>
    decreases bits::pop(rem),
{
    if rem == 0 {
        Seq::empty()
    } else {
        proof {
            bits::lemma_pop_lowest(rem);
        }
        let k = bits::lowest(rem);
        seq![Move::Move(from, bits::bit(k), c)] + dest_seq(rem ^ bits::bit(k), from, c)
    }
}

impl Board {
    /// The moves that fill the last free field along the edges of the piece of the other side on
    /// field `k`: when exactly one extant field along its edges holds no piece of the side to
    /// move, the moves to it of the pieces of the side to move at its vertices that are not
    /// themselves along the edges of `k`, lowest origin first.
    pub open spec fn liberty_moves(self, k: int) -> Seq<Move> {
        let c = self.turn;
        let edges = tables::edge_table(model::opposite(c), k as usize) & self.hex_bits();
        let free = edges & !self.field_bits(c);
        if bits::is_single(free) {
            origin_seq(
                tables::vertex_table(c, bits::lowest(free) as usize) & self.field_bits(c) & !edges,
                free,
                c,
            )
        } else {
            Seq::empty()
        }
    }

    /// The `liberty_moves` against the pieces of the other side on the fields of `rem`, lowest
    /// first.
    pub open spec fn liberty_seq(self, rem: u64) -> Seq<Move>
        decreases bits::pop(rem),
    {
        if rem == 0 {
            Seq::empty()
        } else {
            proof {
                bits::lemma_pop_lowest(rem);
            }
            let k = bits::lowest(rem);
            self.liberty_moves(k) + self.liberty_seq(rem ^ bits::bit(k))
        }
    }

    /// The moves that take the hex of the piece of the side to move on field `p`: to each extant
    /// field at its vertices off its hex and without a piece of the side to move, lowest first.
    pub open spec fn hex_moves(self, p: int) -> Seq<Move> {
        let c = self.turn;
        let hex = constants::hex_mask_spec(p / 3);
        dest_seq(
            tables::vertex_table(c, p as usize) & (!hex & !self.field_bits(c) & self.hex_bits()),
            bits::bit(p),
            c,
        )
    }

    /// The `hex_moves` of the pieces of the side to move on the fields of `rem`, lowest first.
    pub open spec fn hex_seq(self, rem: u64) -> Seq<Move>
        decreases bits::pop(rem),
    {
        if rem == 0 {
            Seq::empty()
        } else {
            proof {
                bits::lemma_pop_lowest(rem);
            }
            let k = bits::lowest(rem);
            self.hex_moves(k) + self.hex_seq(rem ^ bits::bit(k))
        }
    }

    /// The pieces of the other side that the capture search exchanges for the hexes below `i`:
    /// the piece on each hex for which `exchange_hex` holds.
    pub open spec fn exchange_bits(self, i: int) -> u64
        decreases i,
    {
        if i <= 0 {
            0
        } else {
            self.exchange_bits(i - 1) | if self.exchange_hex(i - 1) {
                self.field_bits(model::opposite(self.turn)) & constants::hex_mask_spec(i - 1)
            } else {
                0
            }
        }
    }

    /// The pieces of the side to move on the hexes below `i` that the capture search moves to
    /// take their hex: the lone piece of each extant hex that may be removable and holds no piece
    /// of the other side.
    pub open spec fn origin_bits(self, i: int) -> u64
        decreases i,
    {
        if i <= 0 {
            0
        } else {
            let h = i - 1;
            let hex = constants::hex_mask_spec(h);
            let ours = self.field_bits(self.turn) & hex;
            self.origin_bits(i - 1) | if hex_extant(self.hex_bits(), h)
                && constants::maybe_removable(self.hex_bits(), h) && self.field_bits(
                model::opposite(self.turn),
            ) & hex == 0 && bits::is_single(ours) {
                ours
            } else {
                0
            }
        }
    }

    /// The list of the capture search, in order: the exchanges, lowest field first; then for
    /// each piece of the other side, lowest first, its `liberty_moves`; then for each piece of
    /// the side to move that can take its hex, lowest first, its `hex_moves`.
    pub open spec fn capture_seq(self) -> Seq<Move> {
        exchange_seq(self.exchange_bits(19), model::opposite(self.turn)) + self.liberty_seq(
            self.field_bits(model::opposite(self.turn)),
        ) + self.hex_seq(self.origin_bits(19))
    }
}

/// A sequence with one more item holds what it held and that item.
proof fn lemma_contains_push(s: Seq<Move>, x: Move)
    ensures
        forall|mv: Move| #[trigger] s.push(x).contains(mv) == (s.contains(mv) || mv == x),
{
    assert forall|mv: Move| #[trigger] s.push(x).contains(mv) == (s.contains(mv) || mv == x) by {
        if s.contains(mv) {
            let j = choose|j: int| 0 <= j < s.len() && s[j] == mv;
            assert(s.push(x)[j] == mv);
        }
        if mv == x {
            assert(s.push(x)[s.len() as int] == x);
        }
        if s.push(x).contains(mv) {
            let j = choose|j: int| 0 <= j < s.len() + 1 && s.push(x)[j] == mv;
            if j < s.len() {
                assert(s[j] == mv);
            }
        }
    }
}

/// `mv` is the exchange, by `o`'s opponent, of a piece of `o` on a field that `picked` holds and
/// `rem` does not.
spec fn exchange_done(mv: Move, o: Color, picked: u64, rem: u64) -> bool {
    match mv {
        Move::Exchange(bb, col) => col == o && bits::is_single(bb) && bits::has_bit(
            picked,
            bits::lowest(bb),
        ) && !bits::has_bit(rem, bits::lowest(bb)),
        Move::Move(_, _, _) => false,
    }
}

/// `mv` moves a piece of `c` to `dest` from a field that `all` holds and `rem` does not.
spec fn origin_done(mv: Move, c: Color, dest: u64, all: u64, rem: u64) -> bool {
    match mv {
        Move::Move(from, to, col) => col == c && bits::is_single(from) && to == dest
            && bits::has_bit(all, bits::lowest(from)) && !bits::has_bit(rem, bits::lowest(from)),
        Move::Exchange(_, _) => false,
    }
}

/// `mv` moves the piece of `c` on `origin` to a field that `all` holds and `rem` does not.
spec fn dest_done(mv: Move, c: Color, origin: u64, all: u64, rem: u64) -> bool {
    match mv {
        Move::Move(from, to, col) => col == c && from == origin && bits::is_single(to)
            && bits::has_bit(all, bits::lowest(to)) && !bits::has_bit(rem, bits::lowest(to)),
        Move::Exchange(_, _) => false,
    }
}

impl Board {
    /// The capture search lists the exchange of the piece of the other side on field `e`: it is
    /// the lone piece on a hex `i` for which `exchange_hex` holds.
    pub open spec fn exchange_piece(self, i: int, e: int) -> bool {
        self.exchange_hex(i) && bits::has_bit(
            self.field_bits(model::opposite(self.turn)) & constants::hex_mask_spec(i),
            e,
        )
    }

    /// Field `e` passes the test that the capture search makes for hex `i`: every extant field
    /// along an edge of `e` holds a piece of the side to move or lies on hex `i`, so that the
    /// piece of the other side on `e` is surrounded once hex `i` is gone.
    pub open spec fn exchange_test(self, i: int, e: int) -> bool {
        let edges = tables::edge_table(model::opposite(self.turn), e as usize) & self.hex_bits();
        edges & !(self.field_bits(self.turn) | constants::hex_mask_spec(i)) == 0
    }

    /// Exchanging the piece of the other side on hex `i` captures the hex and with it another
    /// piece: the hex is extant and may be removable, the side to move can pay for an exchange
    /// and has no piece on the hex, the other side has exactly one piece there, and some piece of
    /// the other side next to the hex passes `exchange_test`.
    pub open spec fn exchange_hex(self, i: int) -> bool {
        let o = model::opposite(self.turn);
        let hex = constants::hex_mask_spec(i);
        let cands = constants::hex_field_neighbors_spec(i, o) & self.field_bits(o);
        &&& 0 <= i < 19
        &&& hex_extant(self.hex_bits(), i)
        &&& constants::maybe_removable(self.hex_bits(), i)
        &&& self.can_exchange_spec()
        &&& self.field_bits(self.turn) & hex == 0
        &&& bits::is_single(self.field_bits(o) & hex)
        &&& exists|x: int| #[trigger] bits::has_bit(cands, x) && self.exchange_test(i, x)
    }

    /// The move from field `f` to field `t` that the capture search lists against the piece of
    /// the other side on field `k`: `t` is the one extant field along an edge of `k` without a
    /// piece of the side to move, and `f` holds a piece of the side to move at a vertex of `t`
    /// and is not itself along an edge of `k`.
    pub open spec fn liberty_pick(self, k: int, f: int, t: int) -> bool {
        let c = self.turn;
        let edges = tables::edge_table(model::opposite(c), k as usize) & self.hex_bits();
        let free = edges & !self.field_bits(c);
        &&& bits::has_bit(self.field_bits(model::opposite(c)), k)
        &&& bits::is_single(free)
        &&& bits::lowest(free) == t
        &&& bits::has_bit(tables::vertex_table(c, t as usize) & self.field_bits(c) & !edges, f)
    }

    /// Field `f` holds the only piece on its hex, a piece of the side to move, and the hex is
    /// extant, may be removable and holds no piece of the other side.
    pub open spec fn hex_origin(self, f: int) -> bool {
        let c = self.turn;
        let hex = constants::hex_mask_spec(f / 3);
        &&& 0 <= f < 57
        &&& bits::has_bit(self.field_bits(c), f)
        &&& hex_extant(self.hex_bits(), f / 3)
        &&& constants::maybe_removable(self.hex_bits(), f / 3)
        &&& self.field_bits(model::opposite(c)) & hex == 0
        &&& bits::is_single(self.field_bits(c) & hex)
    }

    /// The move from field `f` to field `t` that the capture search lists to take the hex of `f`:
    /// `f` is a `hex_origin`, and `t` is an extant field at a vertex of `f`, off its hex and
    /// without a piece of the side to move.
    pub open spec fn hex_pick(self, f: int, t: int) -> bool {
        let c = self.turn;
        let hex = constants::hex_mask_spec(f / 3);
        &&& self.hex_origin(f)
        &&& bits::has_bit(
            tables::vertex_table(c, f as usize) & (!hex & !self.field_bits(c) & self.hex_bits()),
            t,
        )
    }

    /// The capture search lists the exchange `mv`.
    pub open spec fn exchange_listed(self, mv: Move) -> bool {
        match mv {
            Move::Exchange(bb, col) => col == model::opposite(self.turn) && bits::is_single(bb)
                && exists|i: int| #[trigger] self.exchange_piece(i, bits::lowest(bb)),
            Move::Move(_, _, _) => false,
        }
    }

    /// The capture search lists the move `mv` against the piece of the other side on a field
    /// that `done` holds.
    pub open spec fn liberty_listed(self, mv: Move, done: u64) -> bool {
        match mv {
            Move::Move(from, to, col) => col == self.turn && bits::is_single(from)
                && bits::is_single(to) && exists|k: int|
                bits::has_bit(done, k) && #[trigger] self.liberty_pick(
                    k,
                    bits::lowest(from),
                    bits::lowest(to),
                ),
            Move::Exchange(_, _) => false,
        }
    }

    /// The capture search lists the move `mv` of a piece on a field that `done` holds, to take
    /// its hex.
    pub open spec fn hex_listed(self, mv: Move, done: u64) -> bool {
        match mv {
            Move::Move(from, to, col) => col == self.turn && bits::is_single(from)
                && bits::is_single(to) && bits::has_bit(done, bits::lowest(from)) && self.hex_pick(
                bits::lowest(from),
                bits::lowest(to),
            ),
            Move::Exchange(_, _) => false,
        }
    }

    /// The capture search (`generate_captures`) lists `mv`.
    pub open spec fn capture_listed(self, mv: Move) -> bool {
        ||| self.exchange_listed(mv)
        ||| self.liberty_listed(mv, !0u64)
        ||| self.hex_listed(mv, !0u64)
    }
}

impl Board {
    /// Moves that capture right away, for the quiescence search: exchanges that also capture a
    /// hex (and with it another piece), moves that surround a piece of the other side, and moves
    /// that leave a removable hex empty. Every move listed is legal. The list is `capture_seq`,
    /// in its order and with its repetitions.
    pub fn generate_captures(&self) -> (r: Vec<Move>)
        requires
            self.wf(),
        ensures
            forall|j: int| 0 <= j < r@.len() ==> self.is_legal(#[trigger] r@[j]),
            forall|j: int| 0 <= j < r@.len() ==> self.takes_at_once(#[trigger] r@[j]),
            forall|mv: Move| #[trigger] r@.contains(mv) == self.capture_listed(mv),
            r@ == self.capture_seq(),
            forall|mv: Move|
                self.is_legal(mv) && mv is Move && #[trigger] self.takes_at_once(mv)
                    ==> r@.contains(mv),
    {
        let hexes = self.hexes;
        let can_exchange = self.can_exchange();

        let our_color = self.turn;
        let our_fields = self.fields.get(our_color);

        let opp_color = self.turn.switch();
        let opp_fields = self.fields.get(opp_color);

        // A bitboard of pieces that can be moved to capture a hex.
        let mut hex_capture_pieces: BitBoard = 0;

        // By exchanging these pieces, we capture a hex, which also captures another opponent piece.
        // This does not consider "hex capture chains" where removing the first hex doesn't capture
        // an opponent piece, but causes another hex to be captured, which captures a piece. That
        // would be too hard to check for and is rare. So, we ignore some potential captures, but
        // also examine less quiescence nodes in the long run, which is (hopefully) an net gain.
        let mut exchange_captures: BitBoard = 0;

        let mut i: usize = 0;
        while i < 19
            invariant
                self.wf(),
                i <= 19,
                hexes == self.hex_bits(),
                our_color == self.turn,
                our_fields == self.field_bits(our_color),
                opp_color == model::opposite(our_color),
                opp_fields == self.field_bits(opp_color),
                can_exchange == self.can_exchange_spec(),
                bits::subset(hex_capture_pieces, our_fields),
                forall|p: int| #[trigger]
                    bits::has_bit(hex_capture_pieces, p) ==> self.alone_on_removable_hex(p),
                bits::subset(exchange_captures, opp_fields),
                !can_exchange ==> exchange_captures == 0,
                forall|e: int|
                    #![trigger bits::has_bit(exchange_captures, e)]
                    bits::has_bit(exchange_captures, e) == exists|h: int|
                        0 <= h < i && #[trigger] self.exchange_piece(h, e),
                forall|p: int| #[trigger]
                    bits::has_bit(hex_capture_pieces, p) == (p / 3 < i && self.hex_origin(p)),
                exchange_captures == self.exchange_bits(i as int),
                hex_capture_pieces == self.origin_bits(i as int),
            decreases 19 - i,
        {
            let hex = hex_mask(i);
            let ghost ec0 = exchange_captures;
            let ghost hc0 = hex_capture_pieces;
            let ghost ii = i as int;
            if self.is_hex_extant(i) && self.is_hex_maybe_removable(i) {
                let opp_piece = opp_fields & hex;
                let our_piece = our_fields & hex;

                if can_exchange && our_piece == 0 && bits::is_one_bit_set(opp_piece) {
                    let ghost cands0 = constants::hex_field_neighbors_spec(ii, opp_color)
                        & opp_fields;
                    let mut candidates = hex_field_neighbors(i, opp_color) & opp_fields;
                    while candidates != 0
                        invariant_except_break
                            exchange_captures == ec0,
                            forall|j: int| #[trigger]
                                bits::has_bit(cands0, j) && !bits::has_bit(candidates, j)
                                    ==> !self.exchange_test(ii, j),
                        invariant
                            self.wf(),
                            i < 19,
                            ii == i,
                            hexes == self.hex_bits(),
                            our_color == self.turn,
                            our_fields == self.field_bits(our_color),
                            opp_color == model::opposite(our_color),
                            opp_fields == self.field_bits(opp_color),
                            hex == constants::hex_mask_spec(ii),
                            opp_piece == opp_fields & hex,
                            hex_extant(hexes, ii),
                            constants::maybe_removable(hexes, ii),
                            self.can_exchange_spec(),
                            our_fields & hex == 0,
                            bits::is_single(opp_fields & hex),
                            cands0 == constants::hex_field_neighbors_spec(ii, opp_color) & opp_fields,
                            bits::subset(candidates, cands0),
                            bits::subset(exchange_captures, opp_fields),
                            bits::subset(ec0, opp_fields),
                            bits::below(opp_fields, 57),
                        ensures
                            bits::subset(exchange_captures, opp_fields),
                            exchange_captures == if self.exchange_hex(ii) {
                                ec0 | opp_piece
                            } else {
                                ec0
                            },
                            forall|e: int| #[trigger]
                                bits::has_bit(exchange_captures, e) == (bits::has_bit(ec0, e)
                                    || self.exchange_piece(ii, e)),
                        decreases bits::pop(candidates),
                    {
                        let candidate = lowest_bit(candidates);
                        let ghost es = bits::lowest(candidates);
                        candidates = candidates ^ candidate;
                        let edge_neighbors = edge_neighbors(bits::bit_index(candidate) as usize, opp_color) & hexes;
                        if edge_neighbors & !(our_fields | hex) == 0 {
                            // Exchanging the piece on the hex removes the hex, and the piece next
                            // to it is then surrounded.
                            exchange_captures = exchange_captures | opp_piece;
                            proof {
                                assert(self.exchange_test(ii, es));
                                assert(bits::has_bit(cands0, es));
                                assert(self.exchange_hex(ii));
                            }
                            break;
                        }
                    }
                }

                if opp_piece == 0 && bits::is_one_bit_set(our_piece) {
                    proof {
                        lemma_hex_capture_origin(*self, i as int, our_piece, opp_piece);
                    }
                    hex_capture_pieces = hex_capture_pieces | our_piece;
                }
            }
            proof {
                assert(ec0 | 0u64 == ec0) by (bit_vector);
                assert(hc0 | 0u64 == hc0) by (bit_vector);
                constants::lemma_hex_mask(ii);
                assert forall|e: int| #[trigger]
                    bits::has_bit(exchange_captures, e) == (bits::has_bit(ec0, e)
                        || self.exchange_piece(ii, e)) by {
                    if !bits::has_bit(exchange_captures, e) && !bits::has_bit(ec0, e) {
                    }
                }
                assert forall|p: int| #[trigger]
                    bits::has_bit(hex_capture_pieces, p) == (bits::has_bit(hc0, p) || (p / 3 == ii
                        && self.hex_origin(p))) by {
                    if p / 3 == ii && 0 <= p {
                        assert(bits::has_bit(constants::hex_mask_spec(ii), p));
                    }
                    if bits::has_bit(hex_capture_pieces, p) && !bits::has_bit(hc0, p) {
                        bits::lemma_single(our_fields & hex);
                    }
                    if p / 3 == ii && self.hex_origin(p) {
                        bits::lemma_single(our_fields & hex);
                    }
                }
                assert forall|e: int|
                    #![trigger bits::has_bit(exchange_captures, e)]
                    bits::has_bit(exchange_captures, e) == exists|h: int|
                        0 <= h < ii + 1 && #[trigger] self.exchange_piece(h, e) by {
                    if bits::has_bit(exchange_captures, e) {
                        if bits::has_bit(ec0, e) {
                            let h = choose|h: int| 0 <= h < ii && #[trigger] self.exchange_piece(h, e);
                            assert(0 <= h < ii + 1 && self.exchange_piece(h, e));
                        } else {
                            assert(0 <= ii < ii + 1 && self.exchange_piece(ii, e));
                        }
                    }
                    if exists|h: int| 0 <= h < ii + 1 && #[trigger] self.exchange_piece(h, e) {
                        let h = choose|h: int| 0 <= h < ii + 1 && #[trigger] self.exchange_piece(h, e);
                        if h < ii {
                            assert(bits::has_bit(ec0, e));
                        }
                    }
                }
            }
            i = i + 1;
        }

        let mut moves: Vec<Move> = Vec::new();
        proof {
            assert forall|mv: Move| #[trigger]
                moves@.contains(mv) == exchange_done(mv, opp_color, exchange_captures, exchange_captures)
                by {
                if let Move::Exchange(bb, _) = mv {
                    if bits::has_bit(exchange_captures, bits::lowest(bb)) {
                    }
                }
            }
        }

        let mut rem = exchange_captures;
        proof {
            assert(moves@ + exchange_seq(rem, opp_color) =~= exchange_seq(rem, opp_color));
        }
        while rem != 0
            invariant
                self.wf(),
                opp_color == model::opposite(self.turn),
                opp_fields == self.field_bits(opp_color),
                can_exchange == self.can_exchange_spec(),
                bits::subset(rem, exchange_captures),
                bits::subset(exchange_captures, opp_fields),
                !can_exchange ==> rem == 0,
                bits::below(opp_fields, 57),
                forall|j: int| 0 <= j < moves@.len() ==> self.is_legal(#[trigger] moves@[j]),
                forall|j: int| 0 <= j < moves@.len() ==> self.takes_at_once(#[trigger] moves@[j]),
                forall|mv: Move| #[trigger]
                    moves@.contains(mv) == exchange_done(mv, opp_color, exchange_captures, rem),
                moves@ + exchange_seq(rem, opp_color) == exchange_seq(exchange_captures, opp_color),
            decreases bits::pop(rem),
        {
            let opp_piece = lowest_bit(rem);
            let ghost k = bits::lowest(rem);
            let ghost before = moves@;
            let ghost rem0 = rem;
            rem = rem ^ opp_piece;
            moves.push(Move::Exchange(opp_piece, opp_color));
            proof {
                assert(exchange_seq(rem0, opp_color) == seq![Move::Exchange(opp_piece, opp_color)]
                    + exchange_seq(rem, opp_color));
                assert(moves@ + exchange_seq(rem, opp_color) =~= before + exchange_seq(
                    rem0,
                    opp_color,
                ));
                lemma_contains_push(before, Move::Exchange(opp_piece, opp_color));
                assert forall|mv: Move| #[trigger]
                    moves@.contains(mv) == exchange_done(mv, opp_color, exchange_captures, rem) by {
                    if let Move::Exchange(bb, col) = mv {
                        if bits::is_single(bb) && bits::lowest(bb) == k {
                            bits::lemma_single(bb);
                            bits::lemma_bits_ext(bb, opp_piece);
                        }
                    }
                }
            }
        }
        proof {
            assert forall|mv: Move| #[trigger]
                moves@.contains(mv) == (self.exchange_listed(mv) || self.liberty_listed(
                    mv,
                    opp_fields & !opp_fields,
                )) by {
                if let Move::Exchange(bb, col) = mv {
                    let e = bits::lowest(bb);
                    if exists|i: int| #[trigger] self.exchange_piece(i, e) {
                        let i = choose|i: int| #[trigger] self.exchange_piece(i, e);
                        assert(0 <= i < 19 && self.exchange_piece(i, e));
                    }
                }
                if let Move::Move(from, to, col) = mv {
                    if self.liberty_listed(mv, opp_fields & !opp_fields) {
                        let k = choose|k: int|
                            bits::has_bit(opp_fields & !opp_fields, k) && #[trigger] self.liberty_pick(
                                k,
                                bits::lowest(from),
                                bits::lowest(to),
                            );
                    }
                }
            }
        }

        let mut rem = opp_fields;
        proof {
            assert(moves@ + self.liberty_seq(rem) =~= exchange_seq(exchange_captures, opp_color) + self.liberty_seq(opp_fields));
        }
        while rem != 0
            invariant
                self.wf(),
                hexes == self.hex_bits(),
                our_color == self.turn,
                our_fields == self.field_bits(our_color),
                opp_color == model::opposite(our_color),
                opp_fields == self.field_bits(opp_color),
                bits::subset(rem, opp_fields),
                forall|p: int| #[trigger]
                    bits::has_bit(hex_capture_pieces, p) ==> self.alone_on_removable_hex(p),
                forall|j: int| 0 <= j < moves@.len() ==> self.is_legal(#[trigger] moves@[j]),
                forall|j: int| 0 <= j < moves@.len() ==> self.takes_at_once(#[trigger] moves@[j]),
                forall|mv: Move| #[trigger]
                    moves@.contains(mv) == (self.exchange_listed(mv) || self.liberty_listed(
                        mv,
                        opp_fields & !rem,
                    )),
                moves@ + self.liberty_seq(rem) == exchange_seq(exchange_captures, opp_color) + self.liberty_seq(opp_fields),
            decreases bits::pop(rem),
        {
            let opp_piece = lowest_bit(rem);
            let ghost k = bits::lowest(opp_piece);
            let ghost rem0 = rem;
            let ghost moves0 = moves@;
            rem = rem ^ opp_piece;
            proof {
                assert(bits::has_bit(hexes, bits::lowest(opp_piece)));
            }
            let edge_neighbors = edge_neighbors(bits::bit_index(opp_piece) as usize, opp_color) & hexes;
            let empty_neighbor = edge_neighbors & !our_fields;
            proof {
                assert(self.liberty_seq(rem0) == self.liberty_moves(k) + self.liberty_seq(rem));
                assert(moves0 + self.liberty_seq(rem0) =~= moves0 + self.liberty_moves(k)
                    + self.liberty_seq(rem));
            }

            if bits::is_one_bit_set(empty_neighbor) {
                proof {
                    bits::lemma_single(empty_neighbor);
                    assert(bits::has_bit(empty_neighbor, bits::lowest(empty_neighbor)));
                    assert(bits::has_bit(hexes, bits::lowest(empty_neighbor)));
                }
                let mut origins = vertex_neighbors(bits::bit_index(empty_neighbor) as usize, our_color) & our_fields & !edge_neighbors;
                let ghost origins0 = origins;
                proof {
                    assert(self.liberty_moves(k) == origin_seq(origins, empty_neighbor, our_color));
                }
                while origins != 0
                    invariant
                        self.wf(),
                        hexes == self.hex_bits(),
                        our_color == self.turn,
                        our_fields == self.field_bits(our_color),
                        bits::is_single(empty_neighbor),
                        bits::lowest(empty_neighbor) < 57,
                        bits::has_bit(hexes, bits::lowest(empty_neighbor)),
                        !bits::has_bit(our_fields, bits::lowest(empty_neighbor)),
                        forall|k: int| #[trigger] bits::has_bit(origins, k) ==> bits::has_bit(our_fields, k)
                            && bits::has_bit(tables::vertex_table(our_color, bits::lowest(empty_neighbor) as usize), k),
                        forall|q: int| #[trigger] bits::has_bit(origins, q) ==> !bits::has_bit(edge_neighbors, q),
                        bits::subset(origins, origins0),
                        opp_color == model::opposite(our_color),
                        opp_fields == self.field_bits(opp_color),
                        bits::has_bit(opp_fields, k),
                        0 <= k < 57,
                        edge_neighbors == tables::edge_table(opp_color, k as usize) & hexes,
                        empty_neighbor == edge_neighbors & !our_fields,
                        forall|j: int| 0 <= j < moves@.len() ==> self.is_legal(#[trigger] moves@[j]),
                        forall|j: int| 0 <= j < moves@.len() ==> self.takes_at_once(#[trigger] moves@[j]),
                        moves@ + origin_seq(origins, empty_neighbor, our_color) + self.liberty_seq(rem)
                            == exchange_seq(exchange_captures, opp_color) + self.liberty_seq(opp_fields),
                        forall|mv: Move| #[trigger]
                            moves@.contains(mv) == (moves0.contains(mv) || origin_done(
                                mv,
                                our_color,
                                empty_neighbor,
                                origins0,
                                origins,
                            )),
                    decreases bits::pop(origins),
                {
                    let our_piece = lowest_bit(origins);
                    let ghost o = bits::lowest(origins);
                    let ghost origins1 = origins;
                    let ghost moves1 = moves@;
                    origins = origins ^ our_piece;
                    proof {
                        assert(bits::has_bit(our_fields, o));
                        assert(bits::has_bit(hexes, o));
                        tables::lemma_neighbors_symmetric(our_color, bits::lowest(empty_neighbor), o);
                        let e = bits::lowest(empty_neighbor);
                        bits::lemma_single(empty_neighbor);
                        bits::lemma_lowest_of_bit(o);
                        assert(bits::lowest(our_piece) == o);
                        assert forall|j: int|
                            #[trigger] bits::has_bit(tables::edge_table(opp_color, k as usize), j)
                                && bits::has_bit(self.hex_bits(), j) && j != e implies bits::has_bit(
                            self.field_bits(our_color),
                            j,
                        ) && j != o by {
                            assert(bits::has_bit(edge_neighbors, j));
                            if !bits::has_bit(our_fields, j) {
                                assert(bits::has_bit(empty_neighbor, j));
                            }
                        }
                        assert(bits::has_bit(self.field_bits(opp_color), k));
                        assert(bits::has_bit(empty_neighbor, e));
                        assert(bits::has_bit(edge_neighbors, e));
                        assert(bits::has_bit(tables::edge_table(opp_color, k as usize), e));
                        assert(self.fills_last_liberty(o, e, k));
                        assert(self.fills_last_liberty(
                            bits::lowest(our_piece),
                            bits::lowest(empty_neighbor),
                            k,
                        ));
                        lemma_takes_by_liberty(*self, our_piece, empty_neighbor, our_color, k);
                    }
                    let ghost before = moves@;
                    moves.push(Move::Move(our_piece, empty_neighbor, our_color));
                    proof {
                        assert forall|j: int| 0 <= j < moves@.len() implies self.takes_at_once(
                            #[trigger] moves@[j],
                        ) by {
                            if j < before.len() {
                                assert(moves@[j] == before[j]);
                            }
                        }
                        lemma_contains_push(before, Move::Move(our_piece, empty_neighbor, our_color));
                        assert(origin_seq(origins1, empty_neighbor, our_color) == seq![
                            Move::Move(our_piece, empty_neighbor, our_color),
                        ] + origin_seq(origins, empty_neighbor, our_color));
                        assert(moves@ + origin_seq(origins, empty_neighbor, our_color)
                            + self.liberty_seq(rem) =~= moves1 + origin_seq(
                            origins1,
                            empty_neighbor,
                            our_color,
                        ) + self.liberty_seq(rem));
                        assert forall|mv: Move| #[trigger]
                            moves@.contains(mv) == (moves0.contains(mv) || origin_done(
                                mv,
                                our_color,
                                empty_neighbor,
                                origins0,
                                origins,
                            )) by {
                            if let Move::Move(from, to, col) = mv {
                                if bits::is_single(from) && bits::lowest(from) == o {
                                    bits::lemma_single(from);
                                    bits::lemma_bits_ext(from, our_piece);
                                }
                            }
                        }
                    }
                }
                proof {
                    let t = bits::lowest(empty_neighbor);
                    assert forall|mv: Move| #[trigger]
                        moves@.contains(mv) == (self.exchange_listed(mv) || self.liberty_listed(
                            mv,
                            opp_fields & !rem,
                        )) by {
                        if let Move::Move(from, to, col) = mv {
                            let f = bits::lowest(from);
                            if origin_done(mv, our_color, empty_neighbor, origins0, 0) {
                                assert(self.liberty_pick(k, f, bits::lowest(to)));
                                assert(bits::has_bit(opp_fields & !rem, k));
                            }
                            if self.liberty_listed(mv, opp_fields & !rem) {
                                let k2 = choose|k2: int|
                                    bits::has_bit(opp_fields & !rem, k2) && #[trigger] self.liberty_pick(
                                        k2,
                                        f,
                                        bits::lowest(to),
                                    );
                                if k2 == k {
                                    bits::lemma_single(to);
                                    bits::lemma_bits_ext(to, empty_neighbor);
                                    assert(origin_done(mv, our_color, empty_neighbor, origins0, 0));
                                } else {
                                    assert(bits::has_bit(opp_fields & !rem0, k2));
                                }
                            }
                            if self.liberty_listed(mv, opp_fields & !rem0) {
                                let k2 = choose|k2: int|
                                    bits::has_bit(opp_fields & !rem0, k2) && #[trigger] self.liberty_pick(
                                        k2,
                                        f,
                                        bits::lowest(to),
                                    );
                                assert(bits::has_bit(opp_fields & !rem, k2));
                            }
                        }
                    }
                }
            } else {
                proof {
                    assert forall|mv: Move| #[trigger]
                        moves@.contains(mv) == (self.exchange_listed(mv) || self.liberty_listed(
                            mv,
                            opp_fields & !rem,
                        )) by {
                        if let Move::Move(from, to, col) = mv {
                            let f = bits::lowest(from);
                            if self.liberty_listed(mv, opp_fields & !rem) {
                                let k2 = choose|k2: int|
                                    bits::has_bit(opp_fields & !rem, k2) && #[trigger] self.liberty_pick(
                                        k2,
                                        f,
                                        bits::lowest(to),
                                    );
                                assert(bits::has_bit(opp_fields & !rem0, k2));
                            }
                            if self.liberty_listed(mv, opp_fields & !rem0) {
                                let k2 = choose|k2: int|
                                    bits::has_bit(opp_fields & !rem0, k2) && #[trigger] self.liberty_pick(
                                        k2,
                                        f,
                                        bits::lowest(to),
                                    );
                                assert(bits::has_bit(opp_fields & !rem, k2));
                            }
                        }
                    }
                }
            }
        }
        proof {
            assert forall|mv: Move| #[trigger]
                moves@.contains(mv) == (self.exchange_listed(mv) || self.liberty_listed(mv, !0u64)
                    || self.hex_listed(mv, hex_capture_pieces & !hex_capture_pieces)) by {
                if let Move::Move(from, to, col) = mv {
                    let f = bits::lowest(from);
                    if self.liberty_listed(mv, !0u64) {
                        let k2 = choose|k2: int|
                            bits::has_bit(!0u64, k2) && #[trigger] self.liberty_pick(
                                k2,
                                f,
                                bits::lowest(to),
                            );
                        assert(bits::has_bit(opp_fields & !0u64, k2));
                    }
                    if self.liberty_listed(mv, opp_fields & !0u64) {
                        let k2 = choose|k2: int|
                            bits::has_bit(opp_fields & !0u64, k2) && #[trigger] self.liberty_pick(
                                k2,
                                f,
                                bits::lowest(to),
                            );
                        assert(bits::has_bit(!0u64, k2));
                    }
                }
            }
        }

        let mut rem = hex_capture_pieces;
        proof {
            assert(moves@ + self.hex_seq(rem) =~= exchange_seq(exchange_captures, opp_color) + self.liberty_seq(opp_fields) + self.hex_seq(hex_capture_pieces));
        }
        while rem != 0
            invariant
                self.wf(),
                hexes == self.hex_bits(),
                our_color == self.turn,
                our_fields == self.field_bits(our_color),
                bits::subset(rem, our_fields),
                bits::subset(rem, hex_capture_pieces),
                forall|p: int| #[trigger] bits::has_bit(rem, p) ==> self.alone_on_removable_hex(p),
                forall|p: int| #[trigger]
                    bits::has_bit(hex_capture_pieces, p) == (p / 3 < 19 && self.hex_origin(p)),
                forall|j: int| 0 <= j < moves@.len() ==> self.is_legal(#[trigger] moves@[j]),
                forall|j: int| 0 <= j < moves@.len() ==> self.takes_at_once(#[trigger] moves@[j]),
                forall|mv: Move| #[trigger]
                    moves@.contains(mv) == (self.exchange_listed(mv) || self.liberty_listed(
                        mv,
                        !0u64,
                    ) || self.hex_listed(mv, hex_capture_pieces & !rem)),
                moves@ + self.hex_seq(rem) == exchange_seq(exchange_captures, opp_color) + self.liberty_seq(opp_fields) + self.hex_seq(hex_capture_pieces),
            decreases bits::pop(rem),
        {
            let origin = lowest_bit(rem);
            let ghost rem0 = rem;
            let ghost moves0 = moves@;
            rem = rem ^ origin;
            let index = bits::bit_index(origin) as usize;
            proof {
                assert(bits::has_bit(our_fields, index as int));
                assert(bits::has_bit(hexes, index as int));
                assert(self.hex_origin(index as int));
            }
            let hex = hex_mask(index / 3);
            let mut dests = vertex_neighbors(index, our_color) & (!hex & !our_fields & hexes);
            let ghost dests0 = dests;
            proof {
                assert(self.hex_seq(rem0) == self.hex_moves(index as int) + self.hex_seq(rem));
                assert(self.hex_moves(index as int) == dest_seq(dests, origin, our_color));
                assert(moves0 + self.hex_seq(rem0) =~= moves0 + dest_seq(dests, origin, our_color)
                    + self.hex_seq(rem));
            }
            while dests != 0
                invariant
                    self.wf(),
                    hexes == self.hex_bits(),
                    our_color == self.turn,
                    our_fields == self.field_bits(our_color),
                    bits::is_single(origin),
                    bits::lowest(origin) == index,
                    index < 57,
                    bits::has_bit(our_fields, index as int),
                    bits::subset(dests, dests0),
                    forall|k: int| #[trigger] bits::has_bit(dests, k) ==> !bits::has_bit(our_fields, k)
                        && bits::has_bit(hexes, k) && bits::has_bit(tables::vertex_table(our_color, index), k),
                    forall|k: int| #[trigger] bits::has_bit(dests, k) ==> k / 3 != index / 3,
                    self.alone_on_removable_hex(index as int),
                    forall|j: int| 0 <= j < moves@.len() ==> self.is_legal(#[trigger] moves@[j]),
                    forall|j: int| 0 <= j < moves@.len() ==> self.takes_at_once(#[trigger] moves@[j]),
                    moves@ + dest_seq(dests, origin, our_color) + self.hex_seq(rem) == exchange_seq(exchange_captures, opp_color) + self.liberty_seq(opp_fields) + self.hex_seq(hex_capture_pieces),
                    forall|mv: Move| #[trigger]
                        moves@.contains(mv) == (moves0.contains(mv) || dest_done(
                            mv,
                            our_color,
                            origin,
                            dests0,
                            dests,
                        )),
                decreases bits::pop(dests),
            {
                let dest = lowest_bit(dests);
                let ghost d = bits::lowest(dests);
                let ghost before = moves@;
                let ghost dests1 = dests;
                dests = dests ^ dest;
                proof {
                    assert(bits::has_bit(hexes, d));
                    lemma_bit_hex(hexes, d);
                    bits::lemma_lowest_of_bit(d);
                    assert(bits::lowest(dest) == d);
                    assert(d / 3 != index / 3);
                }
                moves.push(Move::Move(origin, dest, our_color));
                proof {
                    lemma_contains_push(before, Move::Move(origin, dest, our_color));
                    assert(dest_seq(dests1, origin, our_color) == seq![
                        Move::Move(origin, dest, our_color),
                    ] + dest_seq(dests, origin, our_color));
                    assert(moves@ + dest_seq(dests, origin, our_color) + self.hex_seq(rem)
                        =~= before + dest_seq(dests1, origin, our_color) + self.hex_seq(rem));
                    assert forall|mv: Move| #[trigger]
                        moves@.contains(mv) == (moves0.contains(mv) || dest_done(
                            mv,
                            our_color,
                            origin,
                            dests0,
                            dests,
                        )) by {
                        if let Move::Move(from, to, col) = mv {
                            if bits::is_single(to) && bits::lowest(to) == d {
                                bits::lemma_single(to);
                                bits::lemma_bits_ext(to, dest);
                            }
                        }
                    }
                }
            }
            proof {
                assert forall|mv: Move| #[trigger]
                    moves@.contains(mv) == (self.exchange_listed(mv) || self.liberty_listed(
                        mv,
                        !0u64,
                    ) || self.hex_listed(mv, hex_capture_pieces & !rem)) by {
                    if let Move::Move(from, to, col) = mv {
                        let f = bits::lowest(from);
                        if dest_done(mv, our_color, origin, dests0, 0) {
                            assert(self.hex_pick(f, bits::lowest(to)));
                        }
                        if self.hex_listed(mv, hex_capture_pieces & !rem) && f == index {
                            bits::lemma_single(from);
                            bits::lemma_bits_ext(from, origin);
                            assert(dest_done(mv, our_color, origin, dests0, 0));
                        }
                    }
                }
            }
        }
        proof {
            assert(moves@ =~= self.capture_seq());
            assert forall|mv: Move| #[trigger] moves@.contains(mv) == self.capture_listed(mv) by {
                if let Move::Move(from, to, col) = mv {
                    let f = bits::lowest(from);
                    if self.hex_listed(mv, !0u64) {
                        assert(self.hex_origin(f));
                        assert(bits::has_bit(hex_capture_pieces, f));
                    }
                }
            }
            assert forall|mv: Move|
                self.is_legal(mv) && mv is Move && #[trigger] self.takes_at_once(mv)
                    implies moves@.contains(mv) by {
                self.lemma_captures_complete(mv);
            }
        }
        moves
    }
}

impl Board {
    /// Law: a legal move that takes the lone piece of the side to move off a hex that is then
    /// empty and removable (no piece of the other side on it) is a capture the search lists.
    pub proof fn lemma_hex_capture_listed(self, mv: Move)
        requires
            self.wf(),
            self.is_legal(mv),
            mv matches Move::Move(from, to, _) && self.alone_on_removable_hex(bits::lowest(from))
                && bits::lowest(to) / 3 != bits::lowest(from) / 3,
        ensures
            self.capture_listed(mv),
    {
        if let Move::Move(from, to, col) = mv {
            let c = self.turn;
            let o = model::opposite(c);
            let f = bits::lowest(from);
            let t = bits::lowest(to);
            let h = f / 3;
            let hex = constants::hex_mask_spec(h);
            constants::lemma_hex_mask(h);
            assert(bits::has_bit(self.hex_bits(), f));
            lemma_bit_hex(self.hex_bits(), f);
            assert forall|k: int| !#[trigger] bits::has_bit(self.field_bits(o) & hex, k) by {
                if 3 * h <= k < 3 * h + 3 {
                    assert(!bits::has_bit(self.field_bits(o), k));
                }
            }
            bits::lemma_zero_iff(self.field_bits(o) & hex);
            assert forall|k: int| 0 <= k < 64 implies #[trigger] bits::has_bit(
                self.field_bits(c) & hex,
                k,
            ) == bits::has_bit(bits::bit(f), k) by {
                if 3 * h <= k < 3 * h + 3 {
                    assert(!bits::has_bit(self.field_bits(o), k));
                }
            }
            bits::lemma_bits_ext(self.field_bits(c) & hex, bits::bit(f));
            bits::lemma_lowest_of_bit(f);
            assert(self.hex_origin(f));
            assert(bits::has_bit(!0u64, f));
            assert(!bits::has_bit(hex, t));
            assert(bits::has_bit(
                tables::vertex_table(c, f as usize) & (!hex & !self.field_bits(c) & self.hex_bits()),
                t,
            ));
            assert(self.hex_pick(f, t));
            assert(self.hex_listed(mv, !0u64));
        }
    }

    /// Law: a legal move that fills the last free field around a piece of the other side is a
    /// capture the search lists.
    pub proof fn lemma_liberty_capture_listed(self, mv: Move, k: int)
        requires
            self.wf(),
            self.is_legal(mv),
            mv matches Move::Move(from, to, _) && self.fills_last_liberty(
                bits::lowest(from),
                bits::lowest(to),
                k,
            ),
        ensures
            self.capture_listed(mv),
    {
        if let Move::Move(from, to, col) = mv {
            let c = self.turn;
            let o = model::opposite(c);
            let f = bits::lowest(from);
            let t = bits::lowest(to);
            assert(bits::has_bit(self.hex_bits(), k));
            lemma_bit_hex(self.hex_bits(), k);
            let edges = tables::edge_table(o, k as usize) & self.hex_bits();
            let free = edges & !self.field_bits(c);
            assert forall|j: int| 0 <= j < 64 implies #[trigger] bits::has_bit(free, j)
                == bits::has_bit(bits::bit(t), j) by {
                if j != t && bits::has_bit(tables::edge_table(o, k as usize), j) && bits::has_bit(
                    self.hex_bits(),
                    j,
                ) {
                    assert(bits::has_bit(self.field_bits(c), j));
                }
            }
            bits::lemma_bits_ext(free, bits::bit(t));
            bits::lemma_lowest_of_bit(t);
            tables::lemma_neighbors_symmetric(c, f, t);
            assert(bits::has_bit(self.hex_bits(), f));
            if bits::has_bit(tables::edge_table(o, k as usize), f) {
                assert(f != t);
                assert(bits::has_bit(self.field_bits(c), f) && f != f);
            }
            assert(bits::has_bit(tables::vertex_table(c, t as usize) & self.field_bits(c) & !edges, f));
            assert(self.liberty_pick(k, f, t));
            assert(bits::has_bit(!0u64, k));
            assert(self.liberty_listed(mv, !0u64));
        }
    }

    /// Law: the exchange of a piece of the other side is a capture the search lists when it also
    /// captures the hex of that piece and with it another piece: the piece stands alone on its hex,
    /// which holds no piece of the side to move and would be removable once empty, and a piece of
    /// the other side on field `x`, across an edge of that hex, has every extant field along its
    /// edges held by the side to move or on that hex.
    pub proof fn lemma_exchange_capture_listed(self, mv: Move, x: int)
        requires
            self.wf(),
            self.is_legal(mv),
            mv matches Move::Exchange(bb, _) && {
                let c = self.turn;
                let o = model::opposite(c);
                let e = bits::lowest(bb);
                let i = e / 3;
                &&& constants::maybe_removable(self.hex_bits(), i)
                &&& forall|k: int|
                    3 * i <= k < 3 * i + 3 ==> !#[trigger] bits::has_bit(self.field_bits(c), k) && (
                    bits::has_bit(self.field_bits(o), k) ==> k == e)
                &&& bits::has_bit(self.field_bits(o), x)
                &&& bits::has_bit(constants::hex_field_neighbors_spec(i, o), x)
                &&& forall|j: int|
                    #[trigger] bits::has_bit(tables::edge_table(o, x as usize), j) && bits::has_bit(
                        self.hex_bits(),
                        j,
                    ) ==> bits::has_bit(self.field_bits(c), j) || j / 3 == i
            },
        ensures
            self.capture_listed(mv),
    {
        if let Move::Exchange(bb, col) = mv {
            let c = self.turn;
            let o = model::opposite(c);
            let e = bits::lowest(bb);
            let i = e / 3;
            let hex = constants::hex_mask_spec(i);
            assert(bits::has_bit(self.hex_bits(), e));
            lemma_bit_hex(self.hex_bits(), e);
            constants::lemma_hex_mask(i);
            assert forall|k: int| !#[trigger] bits::has_bit(self.field_bits(c) & hex, k) by {
                if 3 * i <= k < 3 * i + 3 {
                    assert(!bits::has_bit(self.field_bits(c), k));
                }
            }
            bits::lemma_zero_iff(self.field_bits(c) & hex);
            assert forall|k: int| 0 <= k < 64 implies #[trigger] bits::has_bit(
                self.field_bits(o) & hex,
                k,
            ) == bits::has_bit(bits::bit(e), k) by {
                if 3 * i <= k < 3 * i + 3 {
                    assert(!bits::has_bit(self.field_bits(c), k));
                }
            }
            bits::lemma_bits_ext(self.field_bits(o) & hex, bits::bit(e));
            bits::lemma_lowest_of_bit(e);
            let edges = tables::edge_table(o, x as usize) & self.hex_bits();
            let rest = edges & !(self.field_bits(c) | hex);
            assert forall|j: int| !#[trigger] bits::has_bit(rest, j) by {
                if bits::has_bit(tables::edge_table(o, x as usize), j) && bits::has_bit(
                    self.hex_bits(),
                    j,
                ) {
                    lemma_bit_hex(self.hex_bits(), j);
                }
            }
            bits::lemma_zero_iff(rest);
            assert(self.exchange_test(i, x));
            let cands = constants::hex_field_neighbors_spec(i, o) & self.field_bits(o);
            assert(bits::has_bit(cands, x));
            assert(self.exchange_hex(i));
            assert(self.exchange_piece(i, e));
            assert(self.exchange_listed(mv));
        }
    }

    /// Law: every legal move of a piece that captures at once (it leaves a removable hex empty
    /// or fills the last free field around a piece of the other side) is a capture the search
    /// lists.
    pub proof fn lemma_captures_complete(self, mv: Move)
        requires
            self.wf(),
            self.is_legal(mv),
            mv is Move,
            self.takes_at_once(mv),
        ensures
            self.capture_listed(mv),
    {
        if let Move::Move(from, to, col) = mv {
            let f = bits::lowest(from);
            let t = bits::lowest(to);
            if self.alone_on_removable_hex(f) && t / 3 != f / 3 {
                self.lemma_hex_capture_listed(mv);
            } else {
                let k = choose|k: int| #[trigger] self.fills_last_liberty(f, t, k);
                self.lemma_liberty_capture_listed(mv, k);
            }
        }
    }
}

// ---------------------------------------------------------------------------------------------
// Counting pieces by their fields
// ---------------------------------------------------------------------------------------------

/// The positions of the set bits of `bb` below `n`.
pub open spec fn bits_below(bb: u64, n: nat) -> Set<int> {
    Set::new(|k: int| 0 <= k < n && bits::has_bit(bb, k))
}

/// The number of set bits below `n` counts the positions of those bits.
proof fn lemma_pop_below_len(bb: u64, n: nat)
    ensures
        bits_below(bb, n).finite(),
        bits_below(bb, n).len() == bits::pop_below(bb, n),
    decreases n,
{
    if n == 0 {
        assert(bits_below(bb, 0) =~= Set::empty());
    } else {
        let m = (n - 1) as nat;
        lemma_pop_below_len(bb, m);
        if bits::has_bit(bb, m as int) {
            assert(bits_below(bb, n) =~= bits_below(bb, m).insert(m as int));
        } else {
            assert(bits_below(bb, n) =~= bits_below(bb, m));
        }
    }
}

/// The coordinates of the field with bit `k` in the bitboard of `color`.
pub open spec fn field_coords_of(color: Color) -> spec_fn(int) -> (int, int, int) {
    |k: int| (model::hex_x_of(k / 3), model::hex_y_of(k / 3), model::field_of_index(k, color))
}

impl Board {
    /// The fields of `color`, by their coordinates (x, y, f), that stand on an extant hex and hold a
    /// piece of `color`.
    pub open spec fn pieces_on_fields(self, color: Color) -> Set<(int, int, int)> {
        Set::new(
            |c: (int, int, int)|
                {
                    &&& model::valid_field(c.0, c.1, c.2)
                    &&& model::color_of_field(c.2) == color
                    &&& bits::has_bit(self.hex_bits(), model::field_bit_index(c.0, c.1, c.2))
                    &&& bits::has_bit(self.field_bits(color), model::field_bit_index(c.0, c.1, c.2))
                },
        )
    }

    /// On a well-formed board, the piece count of each side is the number of fields of its color
    /// that stand on an extant hex and hold one of its pieces.
    pub proof fn lemma_pieces_counted(self, color: Color)
        requires
            self.wf(),
        ensures
            self.pieces_on_fields(color).finite(),
            self.vitals.at(color).pieces == self.pieces_on_fields(color).len(),
    {
        let bb = self.field_bits(color);
        let x = bits_below(bb, 64);
        let f = field_coords_of(color);
        let y = self.pieces_on_fields(color);
        lemma_pop_below_len(bb, 64);
        assert forall|k: int| #[trigger] x.contains(k) implies 0 <= k < 57 && bits::has_bit(
            self.hex_bits(),
            k,
        ) by {
            assert(bits::has_bit(bb, k));
            assert(bits::has_bit(self.hex_bits(), k));
        }
        assert forall|a: int, b: int|
            x.contains(a) && x.contains(b) && #[trigger] f(a) == #[trigger] f(b) implies a == b by {
            model::lemma_field_index_roundtrip(a, color, 0, 0, 0);
            model::lemma_field_index_roundtrip(b, color, 0, 0, 0);
        }
        assert forall|c: (int, int, int)| x.map(f).contains(c) == y.contains(c) by {
            if x.map(f).contains(c) {
                let k = choose|k: int| x.contains(k) && f(k) == c;
                model::lemma_field_index_roundtrip(k, color, 0, 0, 0);
            }
            if y.contains(c) {
                model::lemma_field_index_roundtrip(0, color, c.0, c.1, c.2);
                let k = model::field_bit_index(c.0, c.1, c.2);
                assert(x.contains(k));
                assert(f(k) == c);
            }
        }
        assert(x.map(f) =~= y);
        vstd::set_lib::lemma_map_size(x, y, f);
    }
}

} // verus!
