//! The geometry of the board that the lookup tables hold: the neighbors of each field and hex,
//! computed from coordinates. The board reads its neighbors from precomputed tables; these
//! functions generate the same tables from the shape of the board (`table_geometry` proves the
//! entries equal).
use vstd::prelude::*;

use crate::model::bitboard::{self as bits, BitBoard};
use crate::model::constants::{hex_mask_spec, lemma_hex_mask};
use crate::model::{
    field_bit_index, field_of_index, hex_x_of, hex_y_of, lemma_field_index_roundtrip, valid_field,
    Color, ColorMap, FieldCoord,
};

verus! {

broadcast use bits::group_bits;

// ---------------------------------------------------------------------------------------------
// Coordinates that may lie off the board
// ---------------------------------------------------------------------------------------------

/// The field on the other side of the edge of its hex from field `c`: the fields of a hex are
/// numbered counterclockwise from the top, and the field across edge `f` lies on the neighbor hex
/// in that direction, with the opposite field number. It may lie off the board.
pub open spec fn flipped(c: (int, int, int)) -> (int, int, int) {
    let (x, y, f) = c;
    let (nx, ny) = if f == 0 {
        (x, y + 1)
    } else if f == 1 {
        (x + 1, y)
    } else if f == 2 {
        (x + 1, y - 1)
    } else if f == 3 {
        (x, y - 1)
    } else if f == 4 {
        (x - 1, y)
    } else {
        (x - 1, y + 1)
    };
    (nx, ny, (f + 3) % 6)
}

/// The field `n` places further around the hex of field `c`.
pub open spec fn shifted(c: (int, int, int), n: int) -> (int, int, int) {
    (c.0, c.1, (c.2 + n + 6) % 6)
}

/// The coordinates of a field that may be missing.
pub open spec fn coord_view(c: Option<FieldCoord>) -> Option<(int, int, int)> {
    match c {
        Some(f) => Some(f@),
        None => None,
    }
}

/// `coord_view` as a function value.
pub open spec fn coord_view_fn() -> spec_fn(Option<FieldCoord>) -> Option<(int, int, int)> {
    |c: Option<FieldCoord>| coord_view(c)
}

/// The field across the edge of its hex, if it is on the board.
pub open spec fn flip_spec(c: Option<(int, int, int)>) -> Option<(int, int, int)> {
    match c {
        Some(t) => {
            let u = flipped(t);
            if valid_field(u.0, u.1, u.2) {
                Some(u)
            } else {
                None
            }
        },
        None => None,
    }
}

/// The field `n` places further around its hex.
pub open spec fn shift_spec(c: Option<(int, int, int)>, n: int) -> Option<(int, int, int)> {
    match c {
        Some(t) => Some(shifted(t, n)),
        None => None,
    }
}

/// The bitboard of a field that may be missing: empty if it is.
pub open spec fn coord_bits(c: Option<(int, int, int)>) -> u64 {
    match c {
        Some(t) => bits::bit(field_bit_index(t.0, t.1, t.2)),
        None => 0,
    }
}

/// The bitboard of a sequence of fields that may be missing.
pub open spec fn fold_spec(s: Seq<Option<(int, int, int)>>) -> u64
    decreases s.len(),
{
    if s.len() == 0 {
        0
    } else {
        fold_spec(s.drop_last()) | coord_bits(s.last())
    }
}

/// Field number `index` of the bitboard of `color`.
pub open spec fn field_at(index: int, color: Color) -> Option<(int, int, int)> {
    Some((hex_x_of(index / 3), hex_y_of(index / 3), field_of_index(index, color)))
}

/// Field `f` of hex `hex`.
pub open spec fn hex_field(hex: int, f: int) -> Option<(int, int, int)> {
    Some((hex_x_of(hex), hex_y_of(hex), f))
}

/// The fields that share an edge with field `index` of `color`: the one across the edge of its
/// hex and the two beside it on its hex.
pub open spec fn edge_neighbors_geo(index: int, color: Color) -> u64 {
    let c = field_at(index, color);
    fold_spec(seq![flip_spec(c), shift_spec(c, 1), shift_spec(c, -1)])
}

/// The fields that share a vertex (and no edge) with field `index` of `color`: those of its own
/// color next to the edge neighbors.
pub open spec fn vertex_neighbors_geo(index: int, color: Color) -> u64 {
    let c = field_at(index, color);
    fold_spec(
        seq![
            shift_spec(flip_spec(c), 1),
            shift_spec(flip_spec(c), -1),
            flip_spec(shift_spec(c, 1)),
            flip_spec(shift_spec(c, -1)),
            shift_spec(c, 2),
            shift_spec(c, -2),
        ],
    )
}

/// The field across edge `f` of hex `hex`, as a bitboard (empty off the board).
#[verifier::opaque]
pub open spec fn hex_neighbor_geo(hex: int, f: int) -> u64 {
    coord_bits(flip_spec(hex_field(hex, f)))
}

/// The fields of `color` across the edges of hex `hex`.
pub open spec fn hex_field_neighbors_geo(hex: int, color: Color) -> u64 {
    match color {
        Color::White => fold_spec(
            seq![
                flip_spec(hex_field(hex, 0)),
                flip_spec(hex_field(hex, 2)),
                flip_spec(hex_field(hex, 4)),
            ],
        ),
        Color::Black => fold_spec(
            seq![
                flip_spec(hex_field(hex, 1)),
                flip_spec(hex_field(hex, 3)),
                flip_spec(hex_field(hex, 5)),
            ],
        ),
    }
}

/// Combination `j` of the neighbors of hex `hex` that leaves it removable: three (`j < 6`), two
/// (`j < 12`) or one neighbor in a row, starting at edge `j % 6`.
pub open spec fn removable_comb_geo(hex: int, j: int) -> u64 {
    let f = j % 6;
    if j < 6 {
        hex_neighbor_geo(hex, f) | hex_neighbor_geo(hex, (f + 1) % 6) | hex_neighbor_geo(
            hex,
            (f + 2) % 6,
        )
    } else if j < 12 {
        hex_neighbor_geo(hex, f) | hex_neighbor_geo(hex, (f + 1) % 6)
    } else {
        hex_neighbor_geo(hex, f)
    }
}

/// Field `f` of hex `hex`.
fn from_hex_f(hex: u8, f: u8) -> (r: Option<FieldCoord>)
    requires
        hex < 19,
        f < 6,
    ensures
        coord_view(r) == hex_field(hex as int, f as int),
{
    Some(FieldCoord::from_hex_f(hex, f))
}

/// Field number `index` of the bitboard of `color`.
fn from_index(index: u8, color: Color) -> (r: Option<FieldCoord>)
    requires
        index < 57,
    ensures
        coord_view(r) == field_at(index as int, color),
{
    Some(FieldCoord::from_index(index, color))
}

/// The field `n` places further around its hex.
fn shift_f(c: Option<FieldCoord>, n: i8) -> (r: Option<FieldCoord>)
    requires
        -6 < n < 6,
    ensures
        coord_view(r) == shift_spec(coord_view(c), n as int),
{
    match c {
        Some(coord) => {
            proof {
                use_type_invariant(&coord);
                coord.lemma_valid();
            }
            let f = (coord.f() + (n + 6) as u8) % 6;
            Some(FieldCoord::new(coord.x(), coord.y(), f))
        },
        None => None,
    }
}

/// The edge neighbor of this field that does not share its hex, i.e. this field "flipped" over
/// the boundary of its hex, if it is on the board.
fn flip(c: Option<FieldCoord>) -> (r: Option<FieldCoord>)
    ensures
        coord_view(r) == flip_spec(coord_view(c)),
{
    match c {
        Some(coord) => {
            proof {
                use_type_invariant(&coord);
                coord.lemma_valid();
            }
            let cx = coord.x();
            let cy = coord.y();
            let cf = coord.f();
            let (x, y) = if cf == 0 {
                (cx, cy + 1)
            } else if cf == 1 {
                (cx + 1, cy)
            } else if cf == 2 {
                (cx + 1, cy - 1)
            } else if cf == 3 {
                (cx, cy - 1)
            } else if cf == 4 {
                (cx - 1, cy)
            } else {
                (cx - 1, cy + 1)
            };
            let f = (cf + 3) % 6;

            if FieldCoord::is_valid_coord(x, y, f) {
                Some(FieldCoord::new(x, y, f))
            } else {
                None
            }
        },
        None => None,
    }
}

/// The bitboard of a field that may be missing.
fn to_bitboard(c: Option<FieldCoord>) -> (r: BitBoard)
    ensures
        r == coord_bits(coord_view(c)),
{
    match c {
        Some(coord) => coord.to_bitboard(),
        None => 0,
    }
}

/// The bitboard of all the fields of `coords` that are on the board.
fn fold_coords(coords: &[Option<FieldCoord>]) -> (r: BitBoard)
    ensures
        r == fold_spec(coords@.map_values(coord_view_fn())),
{
    let mut acc: BitBoard = 0;
    let mut i: usize = 0;
    while i < coords.len()
        invariant
            i <= coords@.len(),
            acc == fold_spec(coords@.subrange(0, i as int).map_values(coord_view_fn())),
        decreases coords@.len() - i,
    {
        proof {
            let sub = coords@.subrange(0, i as int + 1);
            assert(sub.map_values(coord_view_fn()).drop_last() == coords@.subrange(
                0,
                i as int,
            ).map_values(coord_view_fn()));
            assert(sub[i as int] == coords@[i as int]);
            assert(sub.map_values(coord_view_fn()).last() == coord_view(coords@[i as int]));
        }
        acc = acc | to_bitboard(coords[i]);
        i = i + 1;
    }
    proof {
        assert(coords@.subrange(0, coords@.len() as int) == coords@);
    }
    acc
}

pub fn generate_hex_mask() -> (r: [BitBoard; 19])
    ensures
        forall|h: int| 0 <= h < 19 ==> r[h] == hex_mask_spec(h),
{
    let mut masks = [0u64; 19];
    let mut mask: BitBoard = 0b111;
    let mut hex: usize = 0;
    assert(7u64 << 0u64 == 7u64) by (bit_vector);
    while hex < 19
        invariant
            hex <= 19,
            mask == hex_mask_spec(hex as int),
            forall|h: int| 0 <= h < hex ==> masks[h] == hex_mask_spec(h),
        decreases 19 - hex,
    {
        masks[hex] = mask;
        proof {
            lemma_hex_mask(hex as int);
        }
        mask = mask << 3;
        hex = hex + 1;
    }
    masks
}


/// The fields that share an edge with each field of `color`, by bit index.
pub fn generate_edge_neighbors(color: Color) -> (r: [BitBoard; 57])
    ensures
        forall|i: int| 0 <= i < 57 ==> r[i] == edge_neighbors_geo(i, color),
{
    let mut neighbors = [0u64; 57];
    let mut index: u8 = 0;
    while index < 57
        invariant
            index <= 57,
            forall|i: int| 0 <= i < index ==> neighbors[i] == edge_neighbors_geo(i, color),
        decreases 57 - index,
    {
        let coord = from_index(index, color);
        let coords = [flip(coord), shift_f(coord, 1), shift_f(coord, -1)];
        proof {
            assert(coords@.map_values(coord_view_fn()) == seq![
                flip_spec(field_at(index as int, color)),
                shift_spec(field_at(index as int, color), 1),
                shift_spec(field_at(index as int, color), -1),
            ]);
        }
        neighbors[index as usize] = fold_coords(&coords);
        index = index + 1;
    }
    neighbors
}

/// The fields that share a vertex and no edge with each field of `color`, by bit index: the
/// fields that a piece on it can move to.
pub fn generate_vertex_neighbors(color: Color) -> (r: [BitBoard; 57])
    ensures
        forall|i: int| 0 <= i < 57 ==> r[i] == vertex_neighbors_geo(i, color),
{
    let mut neighbors = [0u64; 57];
    let mut index: u8 = 0;
    while index < 57
        invariant
            index <= 57,
            forall|i: int| 0 <= i < index ==> neighbors[i] == vertex_neighbors_geo(i, color),
        decreases 57 - index,
    {
        let coord = from_index(index, color);
        let coords = [
            shift_f(flip(coord), 1),
            shift_f(flip(coord), -1),
            flip(shift_f(coord, 1)),
            flip(shift_f(coord, -1)),
            shift_f(coord, 2),
            shift_f(coord, -2),
        ];
        proof {
            let c = field_at(index as int, color);
            assert(coords@.map_values(coord_view_fn()) == seq![
                shift_spec(flip_spec(c), 1),
                shift_spec(flip_spec(c), -1),
                flip_spec(shift_spec(c, 1)),
                flip_spec(shift_spec(c, -1)),
                shift_spec(c, 2),
                shift_spec(c, -2),
            ]);
        }
        neighbors[index as usize] = fold_coords(&coords);
        index = index + 1;
    }
    neighbors
}

/// The fields of `color` across the edges of each hex.
pub fn generate_hex_field_neighbors(color: Color) -> (r: [BitBoard; 19])
    ensures
        forall|h: int| 0 <= h < 19 ==> r[h] == hex_field_neighbors_geo(h, color),
{
    let mut neighbors = [0u64; 19];
    let mut hex: u8 = 0;
    while hex < 19
        invariant
            hex <= 19,
            forall|h: int| 0 <= h < hex ==> neighbors[h] == hex_field_neighbors_geo(h, color),
        decreases 19 - hex,
    {
        let coords = match color {
            Color::White => [flip(from_hex_f(hex, 0)), flip(from_hex_f(hex, 2)), flip(from_hex_f(hex, 4))],
            Color::Black => [flip(from_hex_f(hex, 1)), flip(from_hex_f(hex, 3)), flip(from_hex_f(hex, 5))],
        };
        proof {
            let h = hex as int;
            match color {
                Color::White => {
                    assert(coords@.map_values(coord_view_fn()) == seq![
                        flip_spec(hex_field(h, 0)),
                        flip_spec(hex_field(h, 2)),
                        flip_spec(hex_field(h, 4)),
                    ]);
                },
                Color::Black => {
                    assert(coords@.map_values(coord_view_fn()) == seq![
                        flip_spec(hex_field(h, 1)),
                        flip_spec(hex_field(h, 3)),
                        flip_spec(hex_field(h, 5)),
                    ]);
                },
            }
        }
        neighbors[hex as usize] = fold_coords(&coords);
        hex = hex + 1;
    }
    neighbors
}

/// The neighbors across two different edges of a hex lie on different hexes, so their bits
/// differ.
proof fn lemma_neighbors_disjoint(hex: int, f: int, g: int)
    requires
        0 <= hex < 19,
        0 <= f < 6,
        0 <= g < 6,
        f != g,
    ensures
        hex_neighbor_geo(hex, f) & hex_neighbor_geo(hex, g) == 0,
{
    reveal(hex_neighbor_geo);
    let a = hex_neighbor_geo(hex, f);
    let b = hex_neighbor_geo(hex, g);
    let u = flipped((hex_x_of(hex), hex_y_of(hex), f));
    let v = flipped((hex_x_of(hex), hex_y_of(hex), g));
    assert forall|k: int| !#[trigger] bits::has_bit(a & b, k) by {
        if bits::has_bit(a, k) && bits::has_bit(b, k) {
            assert(valid_field(u.0, u.1, u.2));
            assert(valid_field(v.0, v.1, v.2));
            lemma_field_index_roundtrip(0, Color::White, u.0, u.1, u.2);
            lemma_field_index_roundtrip(0, Color::White, v.0, v.1, v.2);
            assert(k == field_bit_index(u.0, u.1, u.2));
            assert(k == field_bit_index(v.0, v.1, v.2));
            assert(false);
        }
    }
    bits::lemma_zero_iff(a & b);
}

proof fn lemma_rotate(a: u64, b: u64, c: u64, d: u64)
    by (bit_vector)
    requires
        a & b == 0,
        a & c == 0,
        a & d == 0,
        b & c == 0,
        b & d == 0,
        c & d == 0,
    ensures
        (a | b | c) ^ (a | d) == b | c | d,
        (a | b) ^ (a | c) == b | c,
        a ^ (a | b) == b,
{
}

/// The field across edge `j` (counted around the hex) of hex `hex`, as a bitboard.
pub open spec fn nb(hex: int, j: int) -> u64 {
    hex_neighbor_geo(hex, j % 6)
}

/// The field across edge `f` of hex `hex`, as a bitboard.
fn bb_neighbor(hex: u8, f: u8) -> (r: BitBoard)
    requires
        hex < 19,
        f < 6,
    ensures
        r == hex_neighbor_geo(hex as int, f as int),
{
    reveal(hex_neighbor_geo);
    to_bitboard(flip(from_hex_f(hex, f)))
}

/// One step of the rotation of the combinations around a hex: taking out the first neighbor and
/// adding the next one turns a combination starting at edge `g` into the one starting at `g + 1`.
proof fn lemma_rotation_step(h: int, g: int)
    requires
        0 <= h < 19,
        0 <= g < 6,
    ensures
        (nb(h, g) | nb(h, g + 1) | nb(h, g + 2)) ^ (nb(h, g) | nb(h, g + 3)) == nb(h, g + 1)
            | nb(h, g + 2) | nb(h, g + 3),
        (nb(h, g) | nb(h, g + 1)) ^ (nb(h, g) | nb(h, g + 2)) == nb(h, g + 1) | nb(h, g + 2),
        nb(h, g) ^ (nb(h, g) | nb(h, g + 1)) == nb(h, g + 1),
        removable_comb_geo(h, g) == nb(h, g) | nb(h, g + 1) | nb(h, g + 2),
        removable_comb_geo(h, g + 6) == nb(h, g) | nb(h, g + 1),
        removable_comb_geo(h, g + 12) == nb(h, g),
{
    lemma_neighbors_disjoint(h, g % 6, (g + 1) % 6);
    lemma_neighbors_disjoint(h, g % 6, (g + 2) % 6);
    lemma_neighbors_disjoint(h, g % 6, (g + 3) % 6);
    lemma_neighbors_disjoint(h, (g + 1) % 6, (g + 2) % 6);
    lemma_neighbors_disjoint(h, (g + 1) % 6, (g + 3) % 6);
    lemma_neighbors_disjoint(h, (g + 2) % 6, (g + 3) % 6);
    lemma_rotate(nb(h, g), nb(h, g + 1), nb(h, g + 2), nb(h, g + 3));
}

/// The combinations of neighbors that leave each hex removable: for hex `h`, entry `18 * h + j`
/// holds combination `j` (see `removable_comb_geo`).
pub fn generate_removable_hex_combs() -> (r: [BitBoard; 342])
    ensures
        forall|h: int, j: int|
            0 <= h < 19 && 0 <= j < 18 ==> r[18 * h + j] == removable_comb_geo(h, j),
{
    let mut table = [0u64; 342];
    let mut hex: u8 = 0;
    while hex < 19
        invariant
            hex <= 19,
            forall|h: int, j: int|
                0 <= h < hex && 0 <= j < 18 ==> table[18 * h + j] == removable_comb_geo(h, j),
        decreases 19 - hex,
    {
        let neighbors = [
            bb_neighbor(hex, 0),
            bb_neighbor(hex, 1),
            bb_neighbor(hex, 2),
            bb_neighbor(hex, 3),
            bb_neighbor(hex, 4),
            bb_neighbor(hex, 5),
        ];
        assert(forall|j: int| 0 <= j < 6 ==> #[trigger] neighbors[j] == nb(hex as int, j));

        // This bitwise or combines bitboards of different "colors." However, since each neighbor is
        // on a different hex (i.e. in a different block of three bits), bits can never overlap each
        // other. Also, this is compared against the extant hex bitboard, so color doesn't matter.
        let mut triple = neighbors[0] | neighbors[1] | neighbors[2];
        let mut double = neighbors[0] | neighbors[1];
        let mut single = neighbors[0];

        let mut f: usize = 0;
        while f < 6
            invariant
                hex < 19,
                f <= 6,
                forall|j: int| 0 <= j < 6 ==> #[trigger] neighbors[j] == nb(hex as int, j),
                triple == nb(hex as int, f as int) | nb(hex as int, f + 1) | nb(hex as int, f + 2),
                double == nb(hex as int, f as int) | nb(hex as int, f + 1),
                single == nb(hex as int, f as int),
                forall|h: int, j: int|
                    0 <= h < hex && 0 <= j < 18 ==> table[18 * h + j] == removable_comb_geo(h, j),
                forall|j: int|
                    0 <= j < 18 && j % 6 < f ==> table[18 * hex + j] == removable_comb_geo(
                        hex as int,
                        j,
                    ),
            decreases 6 - f,
        {
            let index = hex as usize * 18 + f;
            table[index] = triple;
            table[index + 6] = double;
            table[index + 12] = single;

            proof {
                lemma_rotation_step(hex as int, f as int);
                assert(neighbors[((f + 3) % 6) as int] == nb(hex as int, f + 3));
                assert(neighbors[((f + 2) % 6) as int] == nb(hex as int, f + 2));
                assert(neighbors[((f + 1) % 6) as int] == nb(hex as int, f + 1));
                assert(neighbors[f as int] == nb(hex as int, f as int));
            }
            triple = triple ^ (neighbors[f] | neighbors[(f + 3) % 6]);
            double = double ^ (neighbors[f] | neighbors[(f + 2) % 6]);
            single = single ^ (neighbors[f] | neighbors[(f + 1) % 6]);
            f = f + 1;
        }
        hex = hex + 1;
    }
    table
}

/// A table of bitboards for each color, such as the neighbors of each field.
pub struct LookupTable<T>(pub ColorMap<T>);

impl LookupTable<[BitBoard; 19]> {
    /// The entry of `color` at the bit of the single-bit bitboard `bb`.
    pub fn bb_get(&self, bb: BitBoard, color: Color) -> (r: BitBoard)
        requires
            bb != 0,
            bits::lowest(bb) < 19,
        ensures
            r == self.0.at(color)[bits::lowest(bb)],
    {
        let index = bits::bit_index(bb) as usize;
        self.0.get_ref(color)[index]
    }

    /// The entry of `color` at `index`.
    pub fn index_get(&self, index: usize, color: Color) -> (r: BitBoard)
        requires
            index < 19,
        ensures
            r == self.0.at(color)[index as int],
    {
        self.0.get_ref(color)[index]
    }
}

impl LookupTable<[BitBoard; 57]> {
    /// The entry of `color` at the bit of the single-bit bitboard `bb`.
    pub fn bb_get(&self, bb: BitBoard, color: Color) -> (r: BitBoard)
        requires
            bb != 0,
            bits::lowest(bb) < 57,
        ensures
            r == self.0.at(color)[bits::lowest(bb)],
    {
        let index = bits::bit_index(bb) as usize;
        self.0.get_ref(color)[index]
    }

    /// The entry of `color` at `index`.
    pub fn index_get(&self, index: usize, color: Color) -> (r: BitBoard)
        requires
            index < 57,
        ensures
            r == self.0.at(color)[index as int],
    {
        self.0.get_ref(color)[index]
    }
}

} // verus!
