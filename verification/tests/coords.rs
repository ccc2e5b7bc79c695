use coerceo::model::board::Board;
use coerceo::model::{Color, FieldCoord, GameType};

#[test]
fn index_reflextivity() {
    for index in 0..57 {
        let white = FieldCoord::from_index(index as u8, Color::White);
        assert_eq!(index, white.to_bitboard().trailing_zeros());

        let black = FieldCoord::from_index(index as u8, Color::Black);
        assert_eq!(index, black.to_bitboard().trailing_zeros());
    }
}

#[test]
fn edge_neighbors_in_order() {
    let b = Board::new(GameType::Laurentius, 2);
    assert_eq!(
        b.get_field_edge_neighbors(FieldCoord::new(0, 0, 3)),
        vec![FieldCoord::new(0, 0, 4), FieldCoord::new(0, 0, 2), FieldCoord::new(0, -1, 0)]
    );
    // On the rim, the side that faces off the board has no neighbor across it.
    assert_eq!(
        b.get_field_edge_neighbors(FieldCoord::new(0, 2, 0)),
        vec![FieldCoord::new(0, 2, 1), FieldCoord::new(0, 2, 5)]
    );
}

#[test]
fn vertex_neighbors_in_order() {
    let b = Board::new(GameType::Laurentius, 2);
    assert_eq!(
        b.get_field_vertex_neighbors(FieldCoord::new(0, 0, 0)),
        vec![
            FieldCoord::new(0, 0, 2),
            FieldCoord::new(1, 0, 4),
            FieldCoord::new(0, 0, 4),
            FieldCoord::new(-1, 1, 2),
            FieldCoord::new(0, 1, 4),
            FieldCoord::new(0, 1, 2),
        ]
    );
}
