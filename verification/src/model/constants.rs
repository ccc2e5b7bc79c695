//! Hex masks, hex neighbors and the rule for removable hexes.
use vstd::prelude::*;

use crate::model::bitboard::{self as bits, BitBoard};
use crate::model::tables::{self, hex_neighbor};
use crate::model::{
    color_of_field, field_bit_index, hex_index_of, valid_field, Color, ColorMap, FieldCoord,
    GameType, HexCoord,
};

verus! {

broadcast use bits::group_bits;

// 19 hexes * 3 bits per hex = 57 set bits
pub const HEX_STARTING_POSITION: BitBoard = 0x1FF_FFFF_FFFF_FFFF;

/// The lowest bit of each hex.
pub const HEX_COORD_MASK: BitBoard = 0o1111111111111111111;

/// The three bits of hex `h`.
pub open spec fn hex_mask_spec(h: int) -> u64 {
    7u64 << ((3 * h) as u64)
}

proof fn bv_hex_mask(s: u64, j: u64)
    by (bit_vector)
    requires
        s <= 54,
        j < 64,
    ensures
        ((7u64 << s) >> j) & 1u64 == 1u64 <==> (s <= j && j < s + 3),
        (7u64 << s) << 3u64 == 7u64 << (s + 3),
{
}

/// The bits of hex `h` are the bits `3 * h`, `3 * h + 1` and `3 * h + 2`.
pub proof fn lemma_hex_mask(h: int)
    requires
        0 <= h < 19,
    ensures
        forall|k: int| #[trigger]
            bits::has_bit(hex_mask_spec(h), k) == (3 * h <= k < 3 * h + 3),
        hex_mask_spec(h) << 3u64 == hex_mask_spec(h + 1),
{
    assert forall|k: int| #[trigger] bits::has_bit(hex_mask_spec(h), k) == (3 * h <= k < 3 * h
        + 3) by {
        if 0 <= k < 64 {
            bv_hex_mask((3 * h) as u64, k as u64);
        }
    }
    bv_hex_mask((3 * h) as u64, 0);
}

/// The mask of the three bits of hex `index`.
pub fn hex_mask(index: usize) -> (r: BitBoard)
    requires
        index < 19,
    ensures
        r == hex_mask_spec(index as int),
        forall|k: int| #[trigger] bits::has_bit(r, k) == (3 * index <= k < 3 * index + 3),
{
    proof {
        lemma_hex_mask(index as int);
    }
    7u64 << (3 * index as u64)
}

/// The field across edge `f` of hex `h`.
pub open spec fn hex_neighbor_spec(h: int, f: int) -> u64 {
    tables::hex_neighbor_table((6 * h + f) as usize)
}

/// The fields of `color` that lie on the neighbors of hex `h` and share an edge with it.
pub open spec fn hex_field_neighbors_spec(h: int, color: Color) -> u64 {
    match color {
        Color::White => hex_neighbor_spec(h, 0) | hex_neighbor_spec(h, 2) | hex_neighbor_spec(h, 4),
        Color::Black => hex_neighbor_spec(h, 1) | hex_neighbor_spec(h, 3) | hex_neighbor_spec(h, 5),
    }
}

/// The fields of both colors around hex `h`, one on each neighbor hex.
pub open spec fn hex_all_neighbors(h: int) -> u64 {
    hex_field_neighbors_spec(h, Color::White) | hex_field_neighbors_spec(h, Color::Black)
}

/// Hex `n` lies across an edge of hex `h`: one of the fields across the edges of `h` is on `n`.
pub open spec fn hex_touches(h: int, n: int) -> bool {
    hex_all_neighbors(h) & hex_mask_spec(n) != 0
}

proof fn bv_or_six(a: u64, b: u64, c: u64, d: u64, e: u64, f: u64)
    by (bit_vector)
    ensures
        (a | c | e) | (b | d | f) == a | b | c | d | e | f,
{
}

/// The fields around hex `h` as the bit-vector function of the table.
pub proof fn lemma_all_neighbors_as_bits(h: int)
    requires
        0 <= h < 19,
    ensures
        hex_all_neighbors(h) == tables::all_neighbor_bits(h as u64),
        hex_mask_spec(h) == 7u64 << (3u64 * (h as u64)),
{
    let i = 6 * h;
    tables::lemma_hex_neighbor_as_bits(i as u64);
    tables::lemma_hex_neighbor_as_bits((i + 1) as u64);
    tables::lemma_hex_neighbor_as_bits((i + 2) as u64);
    tables::lemma_hex_neighbor_as_bits((i + 3) as u64);
    tables::lemma_hex_neighbor_as_bits((i + 4) as u64);
    tables::lemma_hex_neighbor_as_bits((i + 5) as u64);
    assert((3 * h) as u64 == 3u64 * (h as u64));
    bv_or_six(
        hex_neighbor_spec(h, 0),
        hex_neighbor_spec(h, 1),
        hex_neighbor_spec(h, 2),
        hex_neighbor_spec(h, 3),
        hex_neighbor_spec(h, 4),
        hex_neighbor_spec(h, 5),
    );
}

/// Hexes are neighbors both ways round.
pub proof fn lemma_hex_touches_symmetric(h: int, n: int)
    requires
        0 <= h < 19,
        0 <= n < 19,
    ensures
        hex_touches(h, n) ==> hex_touches(n, h),
{
    lemma_all_neighbors_as_bits(h);
    lemma_all_neighbors_as_bits(n);
    tables::lemma_hexes_adjacent_symmetric(h as u64, n as u64);
}

/// Combination `j` of the neighbors of hex `h` that leaves it removable: three (`j < 6`), two
/// (`j < 12`) or one neighbor in a row, starting at edge `j % 6`.
pub open spec fn removable_comb(h: int, j: int) -> u64 {
    let f = j % 6;
    if j < 6 {
        hex_neighbor_spec(h, f) | hex_neighbor_spec(h, (f + 1) % 6) | hex_neighbor_spec(
            h,
            (f + 2) % 6,
        )
    } else if j < 12 {
        hex_neighbor_spec(h, f) | hex_neighbor_spec(h, (f + 1) % 6)
    } else {
        hex_neighbor_spec(h, f)
    }
}

/// Assuming hex `h` is empty, it is removable: it is "attached to the board by 3 or less adjacent
/// sides", that is, its extant neighbors form one of the combinations of `removable_comb`.
pub open spec fn maybe_removable(hexes: u64, h: int) -> bool {
    exists|j: int| 0 <= j < 18 && (hexes & hex_all_neighbors(h)) == #[trigger] removable_comb(h, j)
}

/// Looks up the fields of `color` around hex `index`.
pub fn hex_field_neighbors(index: usize, color: Color) -> (r: BitBoard)
    requires
        index < 19,
    ensures
        r == hex_field_neighbors_spec(index as int, color),
{
    let i = 6 * index;
    match color {
        Color::White => hex_neighbor(i) | hex_neighbor(i + 2) | hex_neighbor(i + 4),
        Color::Black => hex_neighbor(i + 1) | hex_neighbor(i + 3) | hex_neighbor(i + 5),
    }
}

/// Combination `j` of the neighbors of hex `index` that leaves it removable.
pub fn removable_hex_comb(index: usize, j: usize) -> (r: BitBoard)
    requires
        index < 19,
        j < 18,
    ensures
        r == removable_comb(index as int, j as int),
{
    let f = j % 6;
    let i = 6 * index;
    if j < 6 {
        hex_neighbor(i + f) | hex_neighbor(i + (f + 1) % 6) | hex_neighbor(i + (f + 2) % 6)
    } else if j < 12 {
        hex_neighbor(i + f) | hex_neighbor(i + (f + 1) % 6)
    } else {
        hex_neighbor(i + f)
    }
}


// ---------------------------------------------------------------------------------------------
// Starting positions
// ---------------------------------------------------------------------------------------------

/// The hexes that hold pieces at the start of a game, with the two fields of each that hold one:
/// (x, y, f1, f2). In the Laurentius position, (0, 0) is the only empty hex and all other hexes
/// have exactly two pieces on them; the Ocius position has only the seven center hexes.
pub open spec fn start_location(game: GameType, i: int) -> (int, int, int, int) {
    match game {
        GameType::Laurentius => {
            if i == 0 {
                (-2, 2, 0, 4)
            } else if i == 1 {
                (-2, 1, 0, 3)
            } else if i == 2 {
                (-2, 0, 3, 5)
            } else if i == 3 {
                (-1, 2, 1, 4)
            } else if i == 4 {
                (-1, 1, 0, 4)
            } else if i == 5 {
                (-1, 0, 3, 5)
            } else if i == 6 {
                (-1, -1, 2, 5)
            } else if i == 7 {
                (0, 2, 1, 5)
            } else if i == 8 {
                (0, 1, 1, 5)
            } else if i == 9 {
                (0, -1, 2, 4)
            } else if i == 10 {
                (0, -2, 2, 4)
            } else if i == 11 {
                (1, 1, 2, 5)
            } else if i == 12 {
                (1, 0, 0, 2)
            } else if i == 13 {
                (1, -1, 1, 3)
            } else if i == 14 {
                (1, -2, 1, 4)
            } else if i == 15 {
                (2, 0, 0, 2)
            } else if i == 16 {
                (2, -1, 0, 3)
            } else {
                (2, -2, 1, 3)
            }
        },
        GameType::Ocius => {
            if i == 0 {
                (-1, 1, 1, 3)
            } else if i == 1 {
                (-1, 0, 0, 2)
            } else if i == 2 {
                (0, 1, 2, 4)
            } else if i == 3 {
                (0, 0, 0, 3)
            } else if i == 4 {
                (0, -1, 1, 5)
            } else if i == 5 {
                (1, 0, 3, 5)
            } else {
                (1, -1, 0, 4)
            }
        },
    }
}

/// The number of hexes that hold pieces at the start of a game.
pub open spec fn start_location_count(game: GameType) -> int {
    match game {
        GameType::Laurentius => 18,
        GameType::Ocius => 7,
    }
}

/// Location `i` of the starting position puts a piece of `color` on bit `k`.
pub open spec fn location_has_field(game: GameType, i: int, color: Color, k: int) -> bool {
    let (x, y, f1, f2) = start_location(game, i);
    (color_of_field(f1) == color && field_bit_index(x, y, f1) == k) || (color_of_field(f2) == color
        && field_bit_index(x, y, f2) == k)
}

/// A piece of `color` stands on bit `k` at the start of a game.
pub open spec fn start_field(game: GameType, color: Color, k: int) -> bool {
    exists|i: int| 0 <= i < start_location_count(game) && #[trigger] location_has_field(game, i, color, k)
}

/// Hex `h` is on the board at the start of a game: every hex in a Laurentius game, the hexes that
/// hold pieces in an Ocius game.
pub open spec fn start_hex(game: GameType, h: int) -> bool {
    match game {
        GameType::Laurentius => 0 <= h < 19,
        GameType::Ocius => exists|i: int|
            0 <= i < 7 && #[trigger] hex_index_of(start_location(game, i).0, start_location(game, i).1) == h,
    }
}

fn start_location_exec(game: GameType, i: usize) -> (r: (i8, i8, u8, u8))
    requires
        i < start_location_count(game),
    ensures
        (r.0 as int, r.1 as int, r.2 as int, r.3 as int) == start_location(game, i as int),
        valid_field(r.0 as int, r.1 as int, r.2 as int),
        valid_field(r.0 as int, r.1 as int, r.3 as int),
{
    match game {
        GameType::Laurentius => {
            match i {
                0 => (-2, 2, 0, 4),
                1 => (-2, 1, 0, 3),
                2 => (-2, 0, 3, 5),
                3 => (-1, 2, 1, 4),
                4 => (-1, 1, 0, 4),
                5 => (-1, 0, 3, 5),
                6 => (-1, -1, 2, 5),
                7 => (0, 2, 1, 5),
                8 => (0, 1, 1, 5),
                9 => (0, -1, 2, 4),
                10 => (0, -2, 2, 4),
                11 => (1, 1, 2, 5),
                12 => (1, 0, 0, 2),
                13 => (1, -1, 1, 3),
                14 => (1, -2, 1, 4),
                15 => (2, 0, 0, 2),
                16 => (2, -1, 0, 3),
                _ => (2, -2, 1, 3),
            }
        },
        GameType::Ocius => {
            match i {
                0 => (-1, 1, 1, 3),
                1 => (-1, 0, 0, 2),
                2 => (0, 1, 2, 4),
                3 => (0, 0, 0, 3),
                4 => (0, -1, 1, 5),
                5 => (1, 0, 3, 5),
                _ => (1, -1, 0, 4),
            }
        },
    }
}

/// The pieces of the starting position of `game`.
pub fn generate_start_fields(game: GameType) -> (r: ColorMap<BitBoard>)
    ensures
        forall|k: int| #[trigger] bits::has_bit(r.white, k) == start_field(game, Color::White, k),
        forall|k: int| #[trigger] bits::has_bit(r.black, k) == start_field(game, Color::Black, k),
        bits::below(r.white, 57),
        bits::below(r.black, 57),
{
    let mut white: BitBoard = 0;
    let mut black: BitBoard = 0;
    let n: usize = match game {
        GameType::Laurentius => 18,
        GameType::Ocius => 7,
    };
    let mut i: usize = 0;
    while i < n
        invariant
            n == start_location_count(game),
            i <= n,
            forall|k: int| #[trigger]
                bits::has_bit(white, k) == exists|j: int|
                    0 <= j < i && #[trigger] location_has_field(game, j, Color::White, k),
            forall|k: int| #[trigger]
                bits::has_bit(black, k) == exists|j: int|
                    0 <= j < i && #[trigger] location_has_field(game, j, Color::Black, k),
            bits::below(white, 57),
            bits::below(black, 57),
        decreases n - i,
    {
        let (x, y, f1, f2) = start_location_exec(game, i);
        let c1 = FieldCoord::new(x, y, f1);
        let c2 = FieldCoord::new(x, y, f2);
        let b1 = c1.to_bitboard();
        let b2 = c2.to_bitboard();
        let ghost (w0, k0) = (white, black);
        match c1.color() {
            Color::White => white = white | b1,
            Color::Black => black = black | b1,
        }
        match c2.color() {
            Color::White => white = white | b2,
            Color::Black => black = black | b2,
        }
        proof {
            bits::lemma_single(b1);
            bits::lemma_single(b2);
            assert forall|k: int| #[trigger]
                bits::has_bit(white, k) == exists|j: int|
                    0 <= j < i + 1 && #[trigger] location_has_field(game, j, Color::White, k) by {
                if location_has_field(game, i as int, Color::White, k) {
                } else if bits::has_bit(w0, k) {
                    let j = choose|j: int| 0 <= j < i && #[trigger] location_has_field(game, j, Color::White, k);
                }
            }
            assert forall|k: int| #[trigger]
                bits::has_bit(black, k) == exists|j: int|
                    0 <= j < i + 1 && #[trigger] location_has_field(game, j, Color::Black, k) by {
                if location_has_field(game, i as int, Color::Black, k) {
                } else if bits::has_bit(k0, k) {
                    let j = choose|j: int| 0 <= j < i && #[trigger] location_has_field(game, j, Color::Black, k);
                }
            }
        }
        i = i + 1;
    }
    ColorMap::new(white, black)
}

/// Generate the Laurentius starting position.
pub fn generate_laurentius() -> (r: ColorMap<BitBoard>)
    ensures
        forall|k: int| #[trigger]
            bits::has_bit(r.white, k) == start_field(GameType::Laurentius, Color::White, k),
        forall|k: int| #[trigger]
            bits::has_bit(r.black, k) == start_field(GameType::Laurentius, Color::Black, k),
{
    generate_start_fields(GameType::Laurentius)
}

/// The hexes of the starting position of `game`.
pub fn generate_start_hexes(game: GameType) -> (r: BitBoard)
    ensures
        bits::below(r, 57),
        forall|h: int| 0 <= h < 19 ==> #[trigger] bits::has_bit(r, 3 * h + 1) == bits::has_bit(r, 3 * h),
        forall|h: int| 0 <= h < 19 ==> #[trigger] bits::has_bit(r, 3 * h + 2) == bits::has_bit(r, 3 * h),
        forall|h: int| 0 <= h < 19 ==> #[trigger] bits::has_bit(r, 3 * h) == start_hex(game, h),
{
    let mut hexes: BitBoard = 0;
    match game {
        GameType::Laurentius => {
            let mut h: usize = 0;
            while h < 19
                invariant
                    h <= 19,
                    forall|k: int| #[trigger] bits::has_bit(hexes, k) == (0 <= k < 3 * h),
                decreases 19 - h,
            {
                let m = hex_mask(h);
                hexes = hexes | m;
                h = h + 1;
            }
            proof {
                assert forall|h: int| 0 <= h < 19 implies #[trigger] bits::has_bit(hexes, 3 * h)
                    == start_hex(game, h) by {}
            }
        },
        GameType::Ocius => {
            let mut i: usize = 0;
            while i < 7
                invariant
                    i <= 7,
                    game == GameType::Ocius,
                    forall|k: int| #[trigger]
                        bits::has_bit(hexes, k) == (0 <= k < 57 && exists|j: int|
                            0 <= j < i && #[trigger] hex_index_of(
                                start_location(game, j).0,
                                start_location(game, j).1,
                            ) == k / 3),
                decreases 7 - i,
            {
                let (x, y, _, _) = start_location_exec(game, i);
                let hex = HexCoord::new(x, y);
                let index = hex.to_index();
                let m = hex_mask(index);
                let ghost h0 = hexes;
                hexes = hexes | m;
                proof {
                    assert forall|k: int| #[trigger]
                        bits::has_bit(hexes, k) == (0 <= k < 57 && exists|j: int|
                            0 <= j < i + 1 && #[trigger] hex_index_of(
                                start_location(game, j).0,
                                start_location(game, j).1,
                            ) == k / 3) by {
                        if 0 <= k < 57 && hex_index_of(
                            start_location(game, i as int).0,
                            start_location(game, i as int).1,
                        ) == k / 3 {
                            assert(3 * index <= k < 3 * index + 3);
                        } else if bits::has_bit(h0, k) {
                            let j = choose|j: int|
                                0 <= j < i && #[trigger] hex_index_of(
                                    start_location(game, j).0,
                                    start_location(game, j).1,
                                ) == k / 3;
                        }
                    }
                }
                i = i + 1;
            }
            proof {
                assert forall|h: int| 0 <= h < 19 implies #[trigger] bits::has_bit(hexes, 3 * h)
                    == start_hex(game, h) by {
                    assert((3 * h) / 3 == h);
                }
                assert forall|h: int| 0 <= h < 19 implies #[trigger] bits::has_bit(hexes, 3 * h + 1)
                    == bits::has_bit(hexes, 3 * h) by {
                    assert((3 * h + 1) / 3 == h);
                    assert((3 * h) / 3 == h);
                }
                assert forall|h: int| 0 <= h < 19 implies #[trigger] bits::has_bit(hexes, 3 * h + 2)
                    == bits::has_bit(hexes, 3 * h) by {
                    assert((3 * h + 2) / 3 == h);
                    assert((3 * h) / 3 == h);
                }
            }
        },
    }
    hexes
}

} // verus!
