use coerceo::model::bitboard::BitBoard;
use coerceo::model::board::Board;
use coerceo::model::constants;
use coerceo::model::lookup_tables::{
    generate_edge_neighbors, generate_hex_field_neighbors, generate_hex_mask,
    generate_removable_hex_combs, generate_vertex_neighbors, LookupTable,
};
use coerceo::model::tables;
use coerceo::model::{Color, ColorMap, FieldCoord, GameType, HexCoord};

#[test]
fn laurentius_starting_position() {
    let mut white: BitBoard = 0;
    let mut black: BitBoard = 0;

    // (0, 0) is the only empty hex.
    // All other hexes have exactly two pieces on them in the starting position.
    let piece_locations = [
        (-2,  2, 0, 4),
        (-2,  1, 0, 3),
        (-2,  0, 3, 5),
        (-1,  2, 1, 4),
        (-1,  1, 0, 4),
        (-1,  0, 3, 5),
        (-1, -1, 2, 5),
        ( 0,  2, 1, 5),
        ( 0,  1, 1, 5),
        ( 0, -1, 2, 4),
        ( 0, -2, 2, 4),
        ( 1,  1, 2, 5),
        ( 1,  0, 0, 2),
        ( 1, -1, 1, 3),
        ( 1, -2, 1, 4),
        ( 2,  0, 0, 2),
        ( 2, -1, 0, 3),
        ( 2, -2, 1, 3),
    ];

    {
        let mut set_field = |coord: FieldCoord| match coord.color() {
            Color::White => white |= coord.to_bitboard(),
            Color::Black => black |= coord.to_bitboard(),
        };
        for &(x, y, f1, f2) in &piece_locations {
            set_field(FieldCoord::new(x, y, f1));
            set_field(FieldCoord::new(x, y, f2));
        }
    }
    let board = Board::new(GameType::Laurentius, 2);
    assert_eq!(board.hexes, (1 << 57) - 1);
    assert_eq!(board.fields.white, white);
    assert_eq!(board.fields.black, black);
}

#[test]
fn ocius_starting_position() {
    let mut hexes: BitBoard = 0;
    let mut white: BitBoard = 0;
    let mut black: BitBoard = 0;

    // All hexes have exactly two pieces on them in the starting position.
    let piece_locations = [
        (-1,  1, 1, 3),
        (-1,  0, 0, 2),
        ( 0,  1, 2, 4),
        ( 0,  0, 0, 3),
        ( 0, -1, 1, 5),
        ( 1,  0, 3, 5),
        ( 1, -1, 0, 4),
    ];

    {
        let mut set_field = |coord: FieldCoord| match coord.color() {
            Color::White => white |= coord.to_bitboard(),
            Color::Black => black |= coord.to_bitboard(),
        };
        for &(x, y, f1, f2) in &piece_locations {
            let hex = HexCoord::try_new(x, y).unwrap();
            hexes |= constants::hex_mask(hex.to_index());

            set_field(FieldCoord::new(x, y, f1));
            set_field(FieldCoord::new(x, y, f2));
        }
    }
    let board = Board::new(GameType::Ocius, 2);
    assert_eq!(board.hexes, hexes);
    assert_eq!(board.fields.white, white);
    assert_eq!(board.fields.black, black);
}

#[test]
fn edge_neighbors() {
    let table = LookupTable(ColorMap::new(
        generate_edge_neighbors(Color::White),
        generate_edge_neighbors(Color::Black),
    ));
    for color in [Color::White, Color::Black] {
        for index in 0..57 {
            assert_eq!(table.index_get(index, color), tables::edge_neighbors(index, color));
            let bb: BitBoard = 1 << index;
            assert_eq!(table.bb_get(bb, color), tables::edge_neighbors(index, color));
        }
    }
}

#[test]
fn vertex_neighbors() {
    let table = LookupTable(ColorMap::new(
        generate_vertex_neighbors(Color::White),
        generate_vertex_neighbors(Color::Black),
    ));
    for color in [Color::White, Color::Black] {
        for index in 0..57 {
            assert_eq!(table.index_get(index, color), tables::vertex_neighbors(index, color));
        }
    }
}

#[test]
fn hex_field_neighbors() {
    let table = LookupTable(ColorMap::new(
        generate_hex_field_neighbors(Color::White),
        generate_hex_field_neighbors(Color::Black),
    ));
    for color in [Color::White, Color::Black] {
        for hex in 0..19 {
            assert_eq!(table.index_get(hex, color), constants::hex_field_neighbors(hex, color));
            let bb: BitBoard = 1 << hex;
            assert_eq!(table.bb_get(bb, color), constants::hex_field_neighbors(hex, color));
        }
    }
}

#[test]
fn hex_mask() {
    let masks = generate_hex_mask();
    let mut mask: BitBoard = 0b111;

    for hex in 0..19 {
        assert_eq!(masks[hex], mask);
        assert_eq!(constants::hex_mask(hex), mask);
        mask <<= 3;
    }
}

#[test]
fn hex_neighbors_match_geometry() {
    // The table of the fields across the edges of each hex holds what the geometry gives.
    let combs = generate_removable_hex_combs();
    for hex in 0..19 {
        for f in 0..6 {
            assert_eq!(combs[18 * hex + 12 + f], tables::hex_neighbor(6 * hex + f));
        }
    }
}

#[test]
fn removable_hex_combs_match_lookup() {
    let combs = generate_removable_hex_combs();
    for hex in 0..19 {
        for j in 0..18 {
            assert_eq!(combs[18 * hex + j], constants::removable_hex_comb(hex, j));
        }
    }
}

#[test]
fn removable_hex_combs_of_center_hex() {
    // Hex 9 is the center hex (0, 0): every neighbor is on the board. Its first combination is
    // the fields across edges 0, 1 and 2, that is, on the hexes above, upper right and lower
    // right of it.
    let combs = generate_removable_hex_combs();
    let across = |x: i8, y: i8, f: u8| FieldCoord::new(x, y, f).to_bitboard();
    assert_eq!(combs[18 * 9], across(0, 1, 3) | across(1, 0, 4) | across(1, -1, 5));
    assert_eq!(combs[18 * 9 + 6], across(0, 1, 3) | across(1, 0, 4));
    assert_eq!(combs[18 * 9 + 12], across(0, 1, 3));
}

#[test]
fn corner_hex_has_three_neighbors() {
    // Hex 0 is the corner (0, -2): only the fields across edges 0, 1 and 5 are on the board.
    let combs = generate_removable_hex_combs();
    let singles: Vec<BitBoard> = (0..6).map(|f| combs[12 + f]).collect();
    assert_eq!(singles[0], FieldCoord::new(0, -1, 3).to_bitboard());
    assert_eq!(singles[1], FieldCoord::new(1, -2, 4).to_bitboard());
    assert_eq!(singles[2], 0);
    assert_eq!(singles[3], 0);
    assert_eq!(singles[4], 0);
    assert_eq!(singles[5], FieldCoord::new(-1, -1, 2).to_bitboard());
}
