//! The neighbor tables of the board are its geometry: each entry of the edge, vertex and hex
//! neighbor tables equals what `lookup_tables` computes from the coordinates of the board.
use vstd::prelude::*;

use crate::model::lookup_tables::{
    coord_bits, edge_neighbors_geo, field_at, flip_spec, fold_spec, hex_field, hex_neighbor_geo,
    shift_spec, vertex_neighbors_geo,
};
use crate::model::bitboard as bits;
use crate::model::tables::{self, edge_table, hex_neighbor_table, vertex_table};
use crate::model::{self, Color};

verus! {

proof fn lemma_fold3(a: Option<(int, int, int)>, b: Option<(int, int, int)>, c: Option<(int, int, int)>)
    ensures
        fold_spec(seq![a, b, c]) == ((0u64 | coord_bits(a)) | coord_bits(b)) | coord_bits(c),
{
    let e = Seq::<Option<(int, int, int)>>::empty();
    assert(seq![a].drop_last() =~= e);
    assert(seq![a, b].drop_last() =~= seq![a]);
    assert(seq![a, b, c].drop_last() =~= seq![a, b]);
    assert(fold_spec(e) == 0u64);
    assert(fold_spec(seq![a]) == fold_spec(e) | coord_bits(a));
    assert(fold_spec(seq![a, b]) == fold_spec(seq![a]) | coord_bits(b));
    assert(fold_spec(seq![a, b, c]) == fold_spec(seq![a, b]) | coord_bits(c));
}

proof fn lemma_fold6(
    a: Option<(int, int, int)>,
    b: Option<(int, int, int)>,
    c: Option<(int, int, int)>,
    d: Option<(int, int, int)>,
    e: Option<(int, int, int)>,
    f: Option<(int, int, int)>,
)
    ensures
        fold_spec(seq![a, b, c, d, e, f]) == (((((0u64 | coord_bits(a)) | coord_bits(b)) | coord_bits(
            c,
        )) | coord_bits(d)) | coord_bits(e)) | coord_bits(f),
{
    lemma_fold3(a, b, c);
    assert(seq![a, b, c, d].drop_last() =~= seq![a, b, c]);
    assert(seq![a, b, c, d, e].drop_last() =~= seq![a, b, c, d]);
    assert(seq![a, b, c, d, e, f].drop_last() =~= seq![a, b, c, d, e]);
    assert(fold_spec(seq![a, b, c, d]) == fold_spec(seq![a, b, c]) | coord_bits(d));
    assert(fold_spec(seq![a, b, c, d, e]) == fold_spec(seq![a, b, c, d]) | coord_bits(e));
    assert(fold_spec(seq![a, b, c, d, e, f]) == fold_spec(seq![a, b, c, d, e]) | coord_bits(f));
}

proof fn bv_edge_white()
    by (bit_vector)
    ensures
        35u64 == (((0u64 | (1u64 << 5u64)) | (1u64 << 1u64)) | (1u64 << 0u64)),
        6u64 == (((0u64 | 0u64) | (1u64 << 2u64)) | (1u64 << 1u64)),
        1029u64 == (((0u64 | (1u64 << 10u64)) | (1u64 << 0u64)) | (1u64 << 2u64)),
        280u64 == (((0u64 | (1u64 << 8u64)) | (1u64 << 4u64)) | (1u64 << 3u64)),
        48u64 == (((0u64 | 0u64) | (1u64 << 5u64)) | (1u64 << 4u64)),
        8232u64 == (((0u64 | (1u64 << 13u64)) | (1u64 << 3u64)) | (1u64 << 5u64)),
        192u64 == (((0u64 | 0u64) | (1u64 << 7u64)) | (1u64 << 6u64)),
        384u64 == (((0u64 | 0u64) | (1u64 << 8u64)) | (1u64 << 7u64)),
        65856u64 == (((0u64 | (1u64 << 16u64)) | (1u64 << 6u64)) | (1u64 << 8u64)),
        17920u64 == (((0u64 | (1u64 << 14u64)) | (1u64 << 10u64)) | (1u64 << 9u64)),
        3072u64 == (((0u64 | 0u64) | (1u64 << 11u64)) | (1u64 << 10u64)),
        4196864u64 == (((0u64 | (1u64 << 22u64)) | (1u64 << 9u64)) | (1u64 << 11u64)),
        143360u64 == (((0u64 | (1u64 << 17u64)) | (1u64 << 13u64)) | (1u64 << 12u64)),
        24577u64 == (((0u64 | (1u64 << 0u64)) | (1u64 << 14u64)) | (1u64 << 13u64)),
        33574912u64 == (((0u64 | (1u64 << 25u64)) | (1u64 << 12u64)) | (1u64 << 14u64)),
        1146880u64 == (((0u64 | (1u64 << 20u64)) | (1u64 << 16u64)) | (1u64 << 15u64)),
        196616u64 == (((0u64 | (1u64 << 3u64)) | (1u64 << 17u64)) | (1u64 << 16u64)),
        268599296u64 == (((0u64 | (1u64 << 28u64)) | (1u64 << 15u64)) | (1u64 << 17u64)),
        786432u64 == (((0u64 | 0u64) | (1u64 << 19u64)) | (1u64 << 18u64)),
        1572928u64 == (((0u64 | (1u64 << 6u64)) | (1u64 << 20u64)) | (1u64 << 19u64)),
        2148794368u64 == (((0u64 | (1u64 << 31u64)) | (1u64 << 18u64)) | (1u64 << 20u64)),
        73400320u64 == (((0u64 | (1u64 << 26u64)) | (1u64 << 22u64)) | (1u64 << 21u64)),
        12582912u64 == (((0u64 | 0u64) | (1u64 << 23u64)) | (1u64 << 22u64)),
        10485760u64 == (((0u64 | 0u64) | (1u64 << 21u64)) | (1u64 << 23u64)),
        587202560u64 == (((0u64 | (1u64 << 29u64)) | (1u64 << 25u64)) | (1u64 << 24u64)),
        100663808u64 == (((0u64 | (1u64 << 9u64)) | (1u64 << 26u64)) | (1u64 << 25u64)),
        137522839552u64 == (((0u64 | (1u64 << 37u64)) | (1u64 << 24u64)) | (1u64 << 26u64)),
        4697620480u64 == (((0u64 | (1u64 << 32u64)) | (1u64 << 28u64)) | (1u64 << 27u64)),
        805310464u64 == (((0u64 | (1u64 << 12u64)) | (1u64 << 29u64)) | (1u64 << 28u64)),
        1100182716416u64 == (((0u64 | (1u64 << 40u64)) | (1u64 << 27u64)) | (1u64 << 29u64)),
        37580963840u64 == (((0u64 | (1u64 << 35u64)) | (1u64 << 31u64)) | (1u64 << 30u64)),
        6442483712u64 == (((0u64 | (1u64 << 15u64)) | (1u64 << 32u64)) | (1u64 << 31u64)),
        8801461731328u64 == (((0u64 | (1u64 << 43u64)) | (1u64 << 30u64)) | (1u64 << 32u64)),
        25769803776u64 == (((0u64 | 0u64) | (1u64 << 34u64)) | (1u64 << 33u64)),
        51539869696u64 == (((0u64 | (1u64 << 18u64)) | (1u64 << 35u64)) | (1u64 << 34u64)),
        70411693850624u64 == (((0u64 | (1u64 << 46u64)) | (1u64 << 33u64)) | (1u64 << 35u64)),
        2405181685760u64 == (((0u64 | (1u64 << 41u64)) | (1u64 << 37u64)) | (1u64 << 36u64)),
        412318957568u64 == (((0u64 | (1u64 << 21u64)) | (1u64 << 38u64)) | (1u64 << 37u64)),
        343597383680u64 == (((0u64 | 0u64) | (1u64 << 36u64)) | (1u64 << 38u64)),
        19241453486080u64 == (((0u64 | (1u64 << 44u64)) | (1u64 << 40u64)) | (1u64 << 39u64)),
        3298551660544u64 == (((0u64 | (1u64 << 24u64)) | (1u64 << 41u64)) | (1u64 << 40u64)),
        565698732490752u64 == (((0u64 | (1u64 << 49u64)) | (1u64 << 39u64)) | (1u64 << 41u64)),
        153931627888640u64 == (((0u64 | (1u64 << 47u64)) | (1u64 << 43u64)) | (1u64 << 42u64)),
        26388413284352u64 == (((0u64 | (1u64 << 27u64)) | (1u64 << 44u64)) | (1u64 << 43u64)),
        4525589859926016u64 == (((0u64 | (1u64 << 52u64)) | (1u64 << 42u64)) | (1u64 << 44u64)),
        105553116266496u64 == (((0u64 | 0u64) | (1u64 << 46u64)) | (1u64 << 45u64)),
        211107306274816u64 == (((0u64 | (1u64 << 30u64)) | (1u64 << 47u64)) | (1u64 << 46u64)),
        36204718879408128u64 == (((0u64 | (1u64 << 55u64)) | (1u64 << 45u64)) | (1u64 << 47u64)),
        9851624184872960u64 == (((0u64 | (1u64 << 53u64)) | (1u64 << 49u64)) | (1u64 << 48u64)),
        1688918579740672u64 == (((0u64 | (1u64 << 36u64)) | (1u64 << 50u64)) | (1u64 << 49u64)),
        1407374883553280u64 == (((0u64 | 0u64) | (1u64 << 48u64)) | (1u64 << 50u64)),
        78812993478983680u64 == (((0u64 | (1u64 << 56u64)) | (1u64 << 52u64)) | (1u64 << 51u64)),
        13511348637925376u64 == (((0u64 | (1u64 << 39u64)) | (1u64 << 53u64)) | (1u64 << 52u64)),
        11258999068426240u64 == (((0u64 | 0u64) | (1u64 << 51u64)) | (1u64 << 53u64)),
        54043195528445952u64 == (((0u64 | 0u64) | (1u64 << 55u64)) | (1u64 << 54u64)),
        108090789103403008u64 == (((0u64 | (1u64 << 42u64)) | (1u64 << 56u64)) | (1u64 << 55u64)),
        90071992547409920u64 == (((0u64 | 0u64) | (1u64 << 54u64)) | (1u64 << 56u64)),
{
}

proof fn edge_white_0()
    ensures
        edge_table(Color::White, 0usize) == edge_neighbors_geo(0, Color::White),
{
    reveal(edge_table);
    bv_edge_white();
    let c = field_at(0, Color::White);
    assert(c == Some((0int, -2int, 1int)));
    lemma_fold3(flip_spec(c), shift_spec(c, 1), shift_spec(c, -1));
    assert(flip_spec(c) == Some((1int, -2int, 4int)));
    assert(coord_bits(Some((1int, -2int, 4int))) == (1u64 << 5u64));
    assert(shift_spec(c, 1) == Some((0int, -2int, 2int)));
    assert(coord_bits(Some((0int, -2int, 2int))) == (1u64 << 1u64));
    assert(shift_spec(c, -1) == Some((0int, -2int, 0int)));
    assert(coord_bits(Some((0int, -2int, 0int))) == (1u64 << 0u64));
}

proof fn edge_white_1()
    ensures
        edge_table(Color::White, 1usize) == edge_neighbors_geo(1, Color::White),
{
    reveal(edge_table);
    bv_edge_white();
    let c = field_at(1, Color::White);
    assert(c == Some((0int, -2int, 3int)));
    lemma_fold3(flip_spec(c), shift_spec(c, 1), shift_spec(c, -1));
    assert(flip_spec(c) == None::<(int, int, int)>);
    assert(shift_spec(c, 1) == Some((0int, -2int, 4int)));
    assert(coord_bits(Some((0int, -2int, 4int))) == (1u64 << 2u64));
    assert(shift_spec(c, -1) == Some((0int, -2int, 2int)));
    assert(coord_bits(Some((0int, -2int, 2int))) == (1u64 << 1u64));
}

proof fn edge_white_2()
    ensures
        edge_table(Color::White, 2usize) == edge_neighbors_geo(2, Color::White),
{
    reveal(edge_table);
    bv_edge_white();
    let c = field_at(2, Color::White);
    assert(c == Some((0int, -2int, 5int)));
    lemma_fold3(flip_spec(c), shift_spec(c, 1), shift_spec(c, -1));
    assert(flip_spec(c) == Some((-1int, -1int, 2int)));
    assert(coord_bits(Some((-1int, -1int, 2int))) == (1u64 << 10u64));
    assert(shift_spec(c, 1) == Some((0int, -2int, 0int)));
    assert(coord_bits(Some((0int, -2int, 0int))) == (1u64 << 0u64));
    assert(shift_spec(c, -1) == Some((0int, -2int, 4int)));
    assert(coord_bits(Some((0int, -2int, 4int))) == (1u64 << 2u64));
}

proof fn edge_white_3()
    ensures
        edge_table(Color::White, 3usize) == edge_neighbors_geo(3, Color::White),
{
    reveal(edge_table);
    bv_edge_white();
    let c = field_at(3, Color::White);
    assert(c == Some((1int, -2int, 1int)));
    lemma_fold3(flip_spec(c), shift_spec(c, 1), shift_spec(c, -1));
    assert(flip_spec(c) == Some((2int, -2int, 4int)));
    assert(coord_bits(Some((2int, -2int, 4int))) == (1u64 << 8u64));
    assert(shift_spec(c, 1) == Some((1int, -2int, 2int)));
    assert(coord_bits(Some((1int, -2int, 2int))) == (1u64 << 4u64));
    assert(shift_spec(c, -1) == Some((1int, -2int, 0int)));
    assert(coord_bits(Some((1int, -2int, 0int))) == (1u64 << 3u64));
}

proof fn edge_white_4()
    ensures
        edge_table(Color::White, 4usize) == edge_neighbors_geo(4, Color::White),
{
    reveal(edge_table);
    bv_edge_white();
    let c = field_at(4, Color::White);
    assert(c == Some((1int, -2int, 3int)));
    lemma_fold3(flip_spec(c), shift_spec(c, 1), shift_spec(c, -1));
    assert(flip_spec(c) == None::<(int, int, int)>);
    assert(shift_spec(c, 1) == Some((1int, -2int, 4int)));
    assert(coord_bits(Some((1int, -2int, 4int))) == (1u64 << 5u64));
    assert(shift_spec(c, -1) == Some((1int, -2int, 2int)));
    assert(coord_bits(Some((1int, -2int, 2int))) == (1u64 << 4u64));
}

proof fn edge_white_5()
    ensures
        edge_table(Color::White, 5usize) == edge_neighbors_geo(5, Color::White),
{
    reveal(edge_table);
    bv_edge_white();
    let c = field_at(5, Color::White);
    assert(c == Some((1int, -2int, 5int)));
    lemma_fold3(flip_spec(c), shift_spec(c, 1), shift_spec(c, -1));
    assert(flip_spec(c) == Some((0int, -1int, 2int)));
    assert(coord_bits(Some((0int, -1int, 2int))) == (1u64 << 13u64));
    assert(shift_spec(c, 1) == Some((1int, -2int, 0int)));
    assert(coord_bits(Some((1int, -2int, 0int))) == (1u64 << 3u64));
    assert(shift_spec(c, -1) == Some((1int, -2int, 4int)));
    assert(coord_bits(Some((1int, -2int, 4int))) == (1u64 << 5u64));
}

proof fn edge_white_6()
    ensures
        edge_table(Color::White, 6usize) == edge_neighbors_geo(6, Color::White),
{
    reveal(edge_table);
    bv_edge_white();
    let c = field_at(6, Color::White);
    assert(c == Some((2int, -2int, 1int)));
    lemma_fold3(flip_spec(c), shift_spec(c, 1), shift_spec(c, -1));
    assert(flip_spec(c) == None::<(int, int, int)>);
    assert(shift_spec(c, 1) == Some((2int, -2int, 2int)));
    assert(coord_bits(Some((2int, -2int, 2int))) == (1u64 << 7u64));
    assert(shift_spec(c, -1) == Some((2int, -2int, 0int)));
    assert(coord_bits(Some((2int, -2int, 0int))) == (1u64 << 6u64));
}

proof fn edge_white_7()
    ensures
        edge_table(Color::White, 7usize) == edge_neighbors_geo(7, Color::White),
{
    reveal(edge_table);
    bv_edge_white();
    let c = field_at(7, Color::White);
    assert(c == Some((2int, -2int, 3int)));
    lemma_fold3(flip_spec(c), shift_spec(c, 1), shift_spec(c, -1));
    assert(flip_spec(c) == None::<(int, int, int)>);
    assert(shift_spec(c, 1) == Some((2int, -2int, 4int)));
    assert(coord_bits(Some((2int, -2int, 4int))) == (1u64 << 8u64));
    assert(shift_spec(c, -1) == Some((2int, -2int, 2int)));
    assert(coord_bits(Some((2int, -2int, 2int))) == (1u64 << 7u64));
}

proof fn edge_white_8()
    ensures
        edge_table(Color::White, 8usize) == edge_neighbors_geo(8, Color::White),
{
    reveal(edge_table);
    bv_edge_white();
    let c = field_at(8, Color::White);
    assert(c == Some((2int, -2int, 5int)));
    lemma_fold3(flip_spec(c), shift_spec(c, 1), shift_spec(c, -1));
    assert(flip_spec(c) == Some((1int, -1int, 2int)));
    assert(coord_bits(Some((1int, -1int, 2int))) == (1u64 << 16u64));
    assert(shift_spec(c, 1) == Some((2int, -2int, 0int)));
    assert(coord_bits(Some((2int, -2int, 0int))) == (1u64 << 6u64));
    assert(shift_spec(c, -1) == Some((2int, -2int, 4int)));
    assert(coord_bits(Some((2int, -2int, 4int))) == (1u64 << 8u64));
}

proof fn edge_white_9()
    ensures
        edge_table(Color::White, 9usize) == edge_neighbors_geo(9, Color::White),
{
    reveal(edge_table);
    bv_edge_white();
    let c = field_at(9, Color::White);
    assert(c == Some((-1int, -1int, 1int)));
    lemma_fold3(flip_spec(c), shift_spec(c, 1), shift_spec(c, -1));
    assert(flip_spec(c) == Some((0int, -1int, 4int)));
    assert(coord_bits(Some((0int, -1int, 4int))) == (1u64 << 14u64));
    assert(shift_spec(c, 1) == Some((-1int, -1int, 2int)));
    assert(coord_bits(Some((-1int, -1int, 2int))) == (1u64 << 10u64));
    assert(shift_spec(c, -1) == Some((-1int, -1int, 0int)));
    assert(coord_bits(Some((-1int, -1int, 0int))) == (1u64 << 9u64));
}

proof fn edge_white_10()
    ensures
        edge_table(Color::White, 10usize) == edge_neighbors_geo(10, Color::White),
{
    reveal(edge_table);
    bv_edge_white();
    let c = field_at(10, Color::White);
    assert(c == Some((-1int, -1int, 3int)));
    lemma_fold3(flip_spec(c), shift_spec(c, 1), shift_spec(c, -1));
    assert(flip_spec(c) == None::<(int, int, int)>);
    assert(shift_spec(c, 1) == Some((-1int, -1int, 4int)));
    assert(coord_bits(Some((-1int, -1int, 4int))) == (1u64 << 11u64));
    assert(shift_spec(c, -1) == Some((-1int, -1int, 2int)));
    assert(coord_bits(Some((-1int, -1int, 2int))) == (1u64 << 10u64));
}

proof fn edge_white_11()
    ensures
        edge_table(Color::White, 11usize) == edge_neighbors_geo(11, Color::White),
{
    reveal(edge_table);
    bv_edge_white();
    let c = field_at(11, Color::White);
    assert(c == Some((-1int, -1int, 5int)));
    lemma_fold3(flip_spec(c), shift_spec(c, 1), shift_spec(c, -1));
    assert(flip_spec(c) == Some((-2int, 0int, 2int)));
    assert(coord_bits(Some((-2int, 0int, 2int))) == (1u64 << 22u64));
    assert(shift_spec(c, 1) == Some((-1int, -1int, 0int)));
    assert(coord_bits(Some((-1int, -1int, 0int))) == (1u64 << 9u64));
    assert(shift_spec(c, -1) == Some((-1int, -1int, 4int)));
    assert(coord_bits(Some((-1int, -1int, 4int))) == (1u64 << 11u64));
}

proof fn edge_white_12()
    ensures
        edge_table(Color::White, 12usize) == edge_neighbors_geo(12, Color::White),
{
    reveal(edge_table);
    bv_edge_white();
    let c = field_at(12, Color::White);
    assert(c == Some((0int, -1int, 1int)));
    lemma_fold3(flip_spec(c), shift_spec(c, 1), shift_spec(c, -1));
    assert(flip_spec(c) == Some((1int, -1int, 4int)));
    assert(coord_bits(Some((1int, -1int, 4int))) == (1u64 << 17u64));
    assert(shift_spec(c, 1) == Some((0int, -1int, 2int)));
    assert(coord_bits(Some((0int, -1int, 2int))) == (1u64 << 13u64));
    assert(shift_spec(c, -1) == Some((0int, -1int, 0int)));
    assert(coord_bits(Some((0int, -1int, 0int))) == (1u64 << 12u64));
}

proof fn edge_white_13()
    ensures
        edge_table(Color::White, 13usize) == edge_neighbors_geo(13, Color::White),
{
    reveal(edge_table);
    bv_edge_white();
    let c = field_at(13, Color::White);
    assert(c == Some((0int, -1int, 3int)));
    lemma_fold3(flip_spec(c), shift_spec(c, 1), shift_spec(c, -1));
    assert(flip_spec(c) == Some((0int, -2int, 0int)));
    assert(coord_bits(Some((0int, -2int, 0int))) == (1u64 << 0u64));
    assert(shift_spec(c, 1) == Some((0int, -1int, 4int)));
    assert(coord_bits(Some((0int, -1int, 4int))) == (1u64 << 14u64));
    assert(shift_spec(c, -1) == Some((0int, -1int, 2int)));
    assert(coord_bits(Some((0int, -1int, 2int))) == (1u64 << 13u64));
}

proof fn edge_white_14()
    ensures
        edge_table(Color::White, 14usize) == edge_neighbors_geo(14, Color::White),
{
    reveal(edge_table);
    bv_edge_white();
    let c = field_at(14, Color::White);
    assert(c == Some((0int, -1int, 5int)));
    lemma_fold3(flip_spec(c), shift_spec(c, 1), shift_spec(c, -1));
    assert(flip_spec(c) == Some((-1int, 0int, 2int)));
    assert(coord_bits(Some((-1int, 0int, 2int))) == (1u64 << 25u64));
    assert(shift_spec(c, 1) == Some((0int, -1int, 0int)));
    assert(coord_bits(Some((0int, -1int, 0int))) == (1u64 << 12u64));
    assert(shift_spec(c, -1) == Some((0int, -1int, 4int)));
    assert(coord_bits(Some((0int, -1int, 4int))) == (1u64 << 14u64));
}

proof fn edge_white_15()
    ensures
        edge_table(Color::White, 15usize) == edge_neighbors_geo(15, Color::White),
{
    reveal(edge_table);
    bv_edge_white();
    let c = field_at(15, Color::White);
    assert(c == Some((1int, -1int, 1int)));
    lemma_fold3(flip_spec(c), shift_spec(c, 1), shift_spec(c, -1));
    assert(flip_spec(c) == Some((2int, -1int, 4int)));
    assert(coord_bits(Some((2int, -1int, 4int))) == (1u64 << 20u64));
    assert(shift_spec(c, 1) == Some((1int, -1int, 2int)));
    assert(coord_bits(Some((1int, -1int, 2int))) == (1u64 << 16u64));
    assert(shift_spec(c, -1) == Some((1int, -1int, 0int)));
    assert(coord_bits(Some((1int, -1int, 0int))) == (1u64 << 15u64));
}

proof fn edge_white_16()
    ensures
        edge_table(Color::White, 16usize) == edge_neighbors_geo(16, Color::White),
{
    reveal(edge_table);
    bv_edge_white();
    let c = field_at(16, Color::White);
    assert(c == Some((1int, -1int, 3int)));
    lemma_fold3(flip_spec(c), shift_spec(c, 1), shift_spec(c, -1));
    assert(flip_spec(c) == Some((1int, -2int, 0int)));
    assert(coord_bits(Some((1int, -2int, 0int))) == (1u64 << 3u64));
    assert(shift_spec(c, 1) == Some((1int, -1int, 4int)));
    assert(coord_bits(Some((1int, -1int, 4int))) == (1u64 << 17u64));
    assert(shift_spec(c, -1) == Some((1int, -1int, 2int)));
    assert(coord_bits(Some((1int, -1int, 2int))) == (1u64 << 16u64));
}

proof fn edge_white_17()
    ensures
        edge_table(Color::White, 17usize) == edge_neighbors_geo(17, Color::White),
{
    reveal(edge_table);
    bv_edge_white();
    let c = field_at(17, Color::White);
    assert(c == Some((1int, -1int, 5int)));
    lemma_fold3(flip_spec(c), shift_spec(c, 1), shift_spec(c, -1));
    assert(flip_spec(c) == Some((0int, 0int, 2int)));
    assert(coord_bits(Some((0int, 0int, 2int))) == (1u64 << 28u64));
    assert(shift_spec(c, 1) == Some((1int, -1int, 0int)));
    assert(coord_bits(Some((1int, -1int, 0int))) == (1u64 << 15u64));
    assert(shift_spec(c, -1) == Some((1int, -1int, 4int)));
    assert(coord_bits(Some((1int, -1int, 4int))) == (1u64 << 17u64));
}

proof fn edge_white_18()
    ensures
        edge_table(Color::White, 18usize) == edge_neighbors_geo(18, Color::White),
{
    reveal(edge_table);
    bv_edge_white();
    let c = field_at(18, Color::White);
    assert(c == Some((2int, -1int, 1int)));
    lemma_fold3(flip_spec(c), shift_spec(c, 1), shift_spec(c, -1));
    assert(flip_spec(c) == None::<(int, int, int)>);
    assert(shift_spec(c, 1) == Some((2int, -1int, 2int)));
    assert(coord_bits(Some((2int, -1int, 2int))) == (1u64 << 19u64));
    assert(shift_spec(c, -1) == Some((2int, -1int, 0int)));
    assert(coord_bits(Some((2int, -1int, 0int))) == (1u64 << 18u64));
}

proof fn edge_white_19()
    ensures
        edge_table(Color::White, 19usize) == edge_neighbors_geo(19, Color::White),
{
    reveal(edge_table);
    bv_edge_white();
    let c = field_at(19, Color::White);
    assert(c == Some((2int, -1int, 3int)));
    lemma_fold3(flip_spec(c), shift_spec(c, 1), shift_spec(c, -1));
    assert(flip_spec(c) == Some((2int, -2int, 0int)));
    assert(coord_bits(Some((2int, -2int, 0int))) == (1u64 << 6u64));
    assert(shift_spec(c, 1) == Some((2int, -1int, 4int)));
    assert(coord_bits(Some((2int, -1int, 4int))) == (1u64 << 20u64));
    assert(shift_spec(c, -1) == Some((2int, -1int, 2int)));
    assert(coord_bits(Some((2int, -1int, 2int))) == (1u64 << 19u64));
}

proof fn edge_white_20()
    ensures
        edge_table(Color::White, 20usize) == edge_neighbors_geo(20, Color::White),
{
    reveal(edge_table);
    bv_edge_white();
    let c = field_at(20, Color::White);
    assert(c == Some((2int, -1int, 5int)));
    lemma_fold3(flip_spec(c), shift_spec(c, 1), shift_spec(c, -1));
    assert(flip_spec(c) == Some((1int, 0int, 2int)));
    assert(coord_bits(Some((1int, 0int, 2int))) == (1u64 << 31u64));
    assert(shift_spec(c, 1) == Some((2int, -1int, 0int)));
    assert(coord_bits(Some((2int, -1int, 0int))) == (1u64 << 18u64));
    assert(shift_spec(c, -1) == Some((2int, -1int, 4int)));
    assert(coord_bits(Some((2int, -1int, 4int))) == (1u64 << 20u64));
}

proof fn edge_white_21()
    ensures
        edge_table(Color::White, 21usize) == edge_neighbors_geo(21, Color::White),
{
    reveal(edge_table);
    bv_edge_white();
    let c = field_at(21, Color::White);
    assert(c == Some((-2int, 0int, 1int)));
    lemma_fold3(flip_spec(c), shift_spec(c, 1), shift_spec(c, -1));
    assert(flip_spec(c) == Some((-1int, 0int, 4int)));
    assert(coord_bits(Some((-1int, 0int, 4int))) == (1u64 << 26u64));
    assert(shift_spec(c, 1) == Some((-2int, 0int, 2int)));
    assert(coord_bits(Some((-2int, 0int, 2int))) == (1u64 << 22u64));
    assert(shift_spec(c, -1) == Some((-2int, 0int, 0int)));
    assert(coord_bits(Some((-2int, 0int, 0int))) == (1u64 << 21u64));
}

proof fn edge_white_22()
    ensures
        edge_table(Color::White, 22usize) == edge_neighbors_geo(22, Color::White),
{
    reveal(edge_table);
    bv_edge_white();
    let c = field_at(22, Color::White);
    assert(c == Some((-2int, 0int, 3int)));
    lemma_fold3(flip_spec(c), shift_spec(c, 1), shift_spec(c, -1));
    assert(flip_spec(c) == None::<(int, int, int)>);
    assert(shift_spec(c, 1) == Some((-2int, 0int, 4int)));
    assert(coord_bits(Some((-2int, 0int, 4int))) == (1u64 << 23u64));
    assert(shift_spec(c, -1) == Some((-2int, 0int, 2int)));
    assert(coord_bits(Some((-2int, 0int, 2int))) == (1u64 << 22u64));
}

proof fn edge_white_23()
    ensures
        edge_table(Color::White, 23usize) == edge_neighbors_geo(23, Color::White),
{
    reveal(edge_table);
    bv_edge_white();
    let c = field_at(23, Color::White);
    assert(c == Some((-2int, 0int, 5int)));
    lemma_fold3(flip_spec(c), shift_spec(c, 1), shift_spec(c, -1));
    assert(flip_spec(c) == None::<(int, int, int)>);
    assert(shift_spec(c, 1) == Some((-2int, 0int, 0int)));
    assert(coord_bits(Some((-2int, 0int, 0int))) == (1u64 << 21u64));
    assert(shift_spec(c, -1) == Some((-2int, 0int, 4int)));
    assert(coord_bits(Some((-2int, 0int, 4int))) == (1u64 << 23u64));
}

proof fn edge_white_24()
    ensures
        edge_table(Color::White, 24usize) == edge_neighbors_geo(24, Color::White),
{
    reveal(edge_table);
    bv_edge_white();
    let c = field_at(24, Color::White);
    assert(c == Some((-1int, 0int, 1int)));
    lemma_fold3(flip_spec(c), shift_spec(c, 1), shift_spec(c, -1));
    assert(flip_spec(c) == Some((0int, 0int, 4int)));
    assert(coord_bits(Some((0int, 0int, 4int))) == (1u64 << 29u64));
    assert(shift_spec(c, 1) == Some((-1int, 0int, 2int)));
    assert(coord_bits(Some((-1int, 0int, 2int))) == (1u64 << 25u64));
    assert(shift_spec(c, -1) == Some((-1int, 0int, 0int)));
    assert(coord_bits(Some((-1int, 0int, 0int))) == (1u64 << 24u64));
}

proof fn edge_white_25()
    ensures
        edge_table(Color::White, 25usize) == edge_neighbors_geo(25, Color::White),
{
    reveal(edge_table);
    bv_edge_white();
    let c = field_at(25, Color::White);
    assert(c == Some((-1int, 0int, 3int)));
    lemma_fold3(flip_spec(c), shift_spec(c, 1), shift_spec(c, -1));
    assert(flip_spec(c) == Some((-1int, -1int, 0int)));
    assert(coord_bits(Some((-1int, -1int, 0int))) == (1u64 << 9u64));
    assert(shift_spec(c, 1) == Some((-1int, 0int, 4int)));
    assert(coord_bits(Some((-1int, 0int, 4int))) == (1u64 << 26u64));
    assert(shift_spec(c, -1) == Some((-1int, 0int, 2int)));
    assert(coord_bits(Some((-1int, 0int, 2int))) == (1u64 << 25u64));
}

proof fn edge_white_26()
    ensures
        edge_table(Color::White, 26usize) == edge_neighbors_geo(26, Color::White),
{
    reveal(edge_table);
    bv_edge_white();
    let c = field_at(26, Color::White);
    assert(c == Some((-1int, 0int, 5int)));
    lemma_fold3(flip_spec(c), shift_spec(c, 1), shift_spec(c, -1));
    assert(flip_spec(c) == Some((-2int, 1int, 2int)));
    assert(coord_bits(Some((-2int, 1int, 2int))) == (1u64 << 37u64));
    assert(shift_spec(c, 1) == Some((-1int, 0int, 0int)));
    assert(coord_bits(Some((-1int, 0int, 0int))) == (1u64 << 24u64));
    assert(shift_spec(c, -1) == Some((-1int, 0int, 4int)));
    assert(coord_bits(Some((-1int, 0int, 4int))) == (1u64 << 26u64));
}

proof fn edge_white_27()
    ensures
        edge_table(Color::White, 27usize) == edge_neighbors_geo(27, Color::White),
{
    reveal(edge_table);
    bv_edge_white();
    let c = field_at(27, Color::White);
    assert(c == Some((0int, 0int, 1int)));
    lemma_fold3(flip_spec(c), shift_spec(c, 1), shift_spec(c, -1));
    assert(flip_spec(c) == Some((1int, 0int, 4int)));
    assert(coord_bits(Some((1int, 0int, 4int))) == (1u64 << 32u64));
    assert(shift_spec(c, 1) == Some((0int, 0int, 2int)));
    assert(coord_bits(Some((0int, 0int, 2int))) == (1u64 << 28u64));
    assert(shift_spec(c, -1) == Some((0int, 0int, 0int)));
    assert(coord_bits(Some((0int, 0int, 0int))) == (1u64 << 27u64));
}

proof fn edge_white_28()
    ensures
        edge_table(Color::White, 28usize) == edge_neighbors_geo(28, Color::White),
{
    reveal(edge_table);
    bv_edge_white();
    let c = field_at(28, Color::White);
    assert(c == Some((0int, 0int, 3int)));
    lemma_fold3(flip_spec(c), shift_spec(c, 1), shift_spec(c, -1));
    assert(flip_spec(c) == Some((0int, -1int, 0int)));
    assert(coord_bits(Some((0int, -1int, 0int))) == (1u64 << 12u64));
    assert(shift_spec(c, 1) == Some((0int, 0int, 4int)));
    assert(coord_bits(Some((0int, 0int, 4int))) == (1u64 << 29u64));
    assert(shift_spec(c, -1) == Some((0int, 0int, 2int)));
    assert(coord_bits(Some((0int, 0int, 2int))) == (1u64 << 28u64));
}

proof fn edge_white_29()
    ensures
        edge_table(Color::White, 29usize) == edge_neighbors_geo(29, Color::White),
{
    reveal(edge_table);
    bv_edge_white();
    let c = field_at(29, Color::White);
    assert(c == Some((0int, 0int, 5int)));
    lemma_fold3(flip_spec(c), shift_spec(c, 1), shift_spec(c, -1));
    assert(flip_spec(c) == Some((-1int, 1int, 2int)));
    assert(coord_bits(Some((-1int, 1int, 2int))) == (1u64 << 40u64));
    assert(shift_spec(c, 1) == Some((0int, 0int, 0int)));
    assert(coord_bits(Some((0int, 0int, 0int))) == (1u64 << 27u64));
    assert(shift_spec(c, -1) == Some((0int, 0int, 4int)));
    assert(coord_bits(Some((0int, 0int, 4int))) == (1u64 << 29u64));
}

proof fn edge_white_30()
    ensures
        edge_table(Color::White, 30usize) == edge_neighbors_geo(30, Color::White),
{
    reveal(edge_table);
    bv_edge_white();
    let c = field_at(30, Color::White);
    assert(c == Some((1int, 0int, 1int)));
    lemma_fold3(flip_spec(c), shift_spec(c, 1), shift_spec(c, -1));
    assert(flip_spec(c) == Some((2int, 0int, 4int)));
    assert(coord_bits(Some((2int, 0int, 4int))) == (1u64 << 35u64));
    assert(shift_spec(c, 1) == Some((1int, 0int, 2int)));
    assert(coord_bits(Some((1int, 0int, 2int))) == (1u64 << 31u64));
    assert(shift_spec(c, -1) == Some((1int, 0int, 0int)));
    assert(coord_bits(Some((1int, 0int, 0int))) == (1u64 << 30u64));
}

proof fn edge_white_31()
    ensures
        edge_table(Color::White, 31usize) == edge_neighbors_geo(31, Color::White),
{
    reveal(edge_table);
    bv_edge_white();
    let c = field_at(31, Color::White);
    assert(c == Some((1int, 0int, 3int)));
    lemma_fold3(flip_spec(c), shift_spec(c, 1), shift_spec(c, -1));
    assert(flip_spec(c) == Some((1int, -1int, 0int)));
    assert(coord_bits(Some((1int, -1int, 0int))) == (1u64 << 15u64));
    assert(shift_spec(c, 1) == Some((1int, 0int, 4int)));
    assert(coord_bits(Some((1int, 0int, 4int))) == (1u64 << 32u64));
    assert(shift_spec(c, -1) == Some((1int, 0int, 2int)));
    assert(coord_bits(Some((1int, 0int, 2int))) == (1u64 << 31u64));
}

proof fn edge_white_32()
    ensures
        edge_table(Color::White, 32usize) == edge_neighbors_geo(32, Color::White),
{
    reveal(edge_table);
    bv_edge_white();
    let c = field_at(32, Color::White);
    assert(c == Some((1int, 0int, 5int)));
    lemma_fold3(flip_spec(c), shift_spec(c, 1), shift_spec(c, -1));
    assert(flip_spec(c) == Some((0int, 1int, 2int)));
    assert(coord_bits(Some((0int, 1int, 2int))) == (1u64 << 43u64));
    assert(shift_spec(c, 1) == Some((1int, 0int, 0int)));
    assert(coord_bits(Some((1int, 0int, 0int))) == (1u64 << 30u64));
    assert(shift_spec(c, -1) == Some((1int, 0int, 4int)));
    assert(coord_bits(Some((1int, 0int, 4int))) == (1u64 << 32u64));
}

proof fn edge_white_33()
    ensures
        edge_table(Color::White, 33usize) == edge_neighbors_geo(33, Color::White),
{
    reveal(edge_table);
    bv_edge_white();
    let c = field_at(33, Color::White);
    assert(c == Some((2int, 0int, 1int)));
    lemma_fold3(flip_spec(c), shift_spec(c, 1), shift_spec(c, -1));
    assert(flip_spec(c) == None::<(int, int, int)>);
    assert(shift_spec(c, 1) == Some((2int, 0int, 2int)));
    assert(coord_bits(Some((2int, 0int, 2int))) == (1u64 << 34u64));
    assert(shift_spec(c, -1) == Some((2int, 0int, 0int)));
    assert(coord_bits(Some((2int, 0int, 0int))) == (1u64 << 33u64));
}

proof fn edge_white_34()
    ensures
        edge_table(Color::White, 34usize) == edge_neighbors_geo(34, Color::White),
{
    reveal(edge_table);
    bv_edge_white();
    let c = field_at(34, Color::White);
    assert(c == Some((2int, 0int, 3int)));
    lemma_fold3(flip_spec(c), shift_spec(c, 1), shift_spec(c, -1));
    assert(flip_spec(c) == Some((2int, -1int, 0int)));
    assert(coord_bits(Some((2int, -1int, 0int))) == (1u64 << 18u64));
    assert(shift_spec(c, 1) == Some((2int, 0int, 4int)));
    assert(coord_bits(Some((2int, 0int, 4int))) == (1u64 << 35u64));
    assert(shift_spec(c, -1) == Some((2int, 0int, 2int)));
    assert(coord_bits(Some((2int, 0int, 2int))) == (1u64 << 34u64));
}

proof fn edge_white_35()
    ensures
        edge_table(Color::White, 35usize) == edge_neighbors_geo(35, Color::White),
{
    reveal(edge_table);
    bv_edge_white();
    let c = field_at(35, Color::White);
    assert(c == Some((2int, 0int, 5int)));
    lemma_fold3(flip_spec(c), shift_spec(c, 1), shift_spec(c, -1));
    assert(flip_spec(c) == Some((1int, 1int, 2int)));
    assert(coord_bits(Some((1int, 1int, 2int))) == (1u64 << 46u64));
    assert(shift_spec(c, 1) == Some((2int, 0int, 0int)));
    assert(coord_bits(Some((2int, 0int, 0int))) == (1u64 << 33u64));
    assert(shift_spec(c, -1) == Some((2int, 0int, 4int)));
    assert(coord_bits(Some((2int, 0int, 4int))) == (1u64 << 35u64));
}

proof fn edge_white_36()
    ensures
        edge_table(Color::White, 36usize) == edge_neighbors_geo(36, Color::White),
{
    reveal(edge_table);
    bv_edge_white();
    let c = field_at(36, Color::White);
    assert(c == Some((-2int, 1int, 1int)));
    lemma_fold3(flip_spec(c), shift_spec(c, 1), shift_spec(c, -1));
    assert(flip_spec(c) == Some((-1int, 1int, 4int)));
    assert(coord_bits(Some((-1int, 1int, 4int))) == (1u64 << 41u64));
    assert(shift_spec(c, 1) == Some((-2int, 1int, 2int)));
    assert(coord_bits(Some((-2int, 1int, 2int))) == (1u64 << 37u64));
    assert(shift_spec(c, -1) == Some((-2int, 1int, 0int)));
    assert(coord_bits(Some((-2int, 1int, 0int))) == (1u64 << 36u64));
}

proof fn edge_white_37()
    ensures
        edge_table(Color::White, 37usize) == edge_neighbors_geo(37, Color::White),
{
    reveal(edge_table);
    bv_edge_white();
    let c = field_at(37, Color::White);
    assert(c == Some((-2int, 1int, 3int)));
    lemma_fold3(flip_spec(c), shift_spec(c, 1), shift_spec(c, -1));
    assert(flip_spec(c) == Some((-2int, 0int, 0int)));
    assert(coord_bits(Some((-2int, 0int, 0int))) == (1u64 << 21u64));
    assert(shift_spec(c, 1) == Some((-2int, 1int, 4int)));
    assert(coord_bits(Some((-2int, 1int, 4int))) == (1u64 << 38u64));
    assert(shift_spec(c, -1) == Some((-2int, 1int, 2int)));
    assert(coord_bits(Some((-2int, 1int, 2int))) == (1u64 << 37u64));
}

proof fn edge_white_38()
    ensures
        edge_table(Color::White, 38usize) == edge_neighbors_geo(38, Color::White),
{
    reveal(edge_table);
    bv_edge_white();
    let c = field_at(38, Color::White);
    assert(c == Some((-2int, 1int, 5int)));
    lemma_fold3(flip_spec(c), shift_spec(c, 1), shift_spec(c, -1));
    assert(flip_spec(c) == None::<(int, int, int)>);
    assert(shift_spec(c, 1) == Some((-2int, 1int, 0int)));
    assert(coord_bits(Some((-2int, 1int, 0int))) == (1u64 << 36u64));
    assert(shift_spec(c, -1) == Some((-2int, 1int, 4int)));
    assert(coord_bits(Some((-2int, 1int, 4int))) == (1u64 << 38u64));
}

proof fn edge_white_39()
    ensures
        edge_table(Color::White, 39usize) == edge_neighbors_geo(39, Color::White),
{
    reveal(edge_table);
    bv_edge_white();
    let c = field_at(39, Color::White);
    assert(c == Some((-1int, 1int, 1int)));
    lemma_fold3(flip_spec(c), shift_spec(c, 1), shift_spec(c, -1));
    assert(flip_spec(c) == Some((0int, 1int, 4int)));
    assert(coord_bits(Some((0int, 1int, 4int))) == (1u64 << 44u64));
    assert(shift_spec(c, 1) == Some((-1int, 1int, 2int)));
    assert(coord_bits(Some((-1int, 1int, 2int))) == (1u64 << 40u64));
    assert(shift_spec(c, -1) == Some((-1int, 1int, 0int)));
    assert(coord_bits(Some((-1int, 1int, 0int))) == (1u64 << 39u64));
}

proof fn edge_white_40()
    ensures
        edge_table(Color::White, 40usize) == edge_neighbors_geo(40, Color::White),
{
    reveal(edge_table);
    bv_edge_white();
    let c = field_at(40, Color::White);
    assert(c == Some((-1int, 1int, 3int)));
    lemma_fold3(flip_spec(c), shift_spec(c, 1), shift_spec(c, -1));
    assert(flip_spec(c) == Some((-1int, 0int, 0int)));
    assert(coord_bits(Some((-1int, 0int, 0int))) == (1u64 << 24u64));
    assert(shift_spec(c, 1) == Some((-1int, 1int, 4int)));
    assert(coord_bits(Some((-1int, 1int, 4int))) == (1u64 << 41u64));
    assert(shift_spec(c, -1) == Some((-1int, 1int, 2int)));
    assert(coord_bits(Some((-1int, 1int, 2int))) == (1u64 << 40u64));
}

proof fn edge_white_41()
    ensures
        edge_table(Color::White, 41usize) == edge_neighbors_geo(41, Color::White),
{
    reveal(edge_table);
    bv_edge_white();
    let c = field_at(41, Color::White);
    assert(c == Some((-1int, 1int, 5int)));
    lemma_fold3(flip_spec(c), shift_spec(c, 1), shift_spec(c, -1));
    assert(flip_spec(c) == Some((-2int, 2int, 2int)));
    assert(coord_bits(Some((-2int, 2int, 2int))) == (1u64 << 49u64));
    assert(shift_spec(c, 1) == Some((-1int, 1int, 0int)));
    assert(coord_bits(Some((-1int, 1int, 0int))) == (1u64 << 39u64));
    assert(shift_spec(c, -1) == Some((-1int, 1int, 4int)));
    assert(coord_bits(Some((-1int, 1int, 4int))) == (1u64 << 41u64));
}

proof fn edge_white_42()
    ensures
        edge_table(Color::White, 42usize) == edge_neighbors_geo(42, Color::White),
{
    reveal(edge_table);
    bv_edge_white();
    let c = field_at(42, Color::White);
    assert(c == Some((0int, 1int, 1int)));
    lemma_fold3(flip_spec(c), shift_spec(c, 1), shift_spec(c, -1));
    assert(flip_spec(c) == Some((1int, 1int, 4int)));
    assert(coord_bits(Some((1int, 1int, 4int))) == (1u64 << 47u64));
    assert(shift_spec(c, 1) == Some((0int, 1int, 2int)));
    assert(coord_bits(Some((0int, 1int, 2int))) == (1u64 << 43u64));
    assert(shift_spec(c, -1) == Some((0int, 1int, 0int)));
    assert(coord_bits(Some((0int, 1int, 0int))) == (1u64 << 42u64));
}

proof fn edge_white_43()
    ensures
        edge_table(Color::White, 43usize) == edge_neighbors_geo(43, Color::White),
{
    reveal(edge_table);
    bv_edge_white();
    let c = field_at(43, Color::White);
    assert(c == Some((0int, 1int, 3int)));
    lemma_fold3(flip_spec(c), shift_spec(c, 1), shift_spec(c, -1));
    assert(flip_spec(c) == Some((0int, 0int, 0int)));
    assert(coord_bits(Some((0int, 0int, 0int))) == (1u64 << 27u64));
    assert(shift_spec(c, 1) == Some((0int, 1int, 4int)));
    assert(coord_bits(Some((0int, 1int, 4int))) == (1u64 << 44u64));
    assert(shift_spec(c, -1) == Some((0int, 1int, 2int)));
    assert(coord_bits(Some((0int, 1int, 2int))) == (1u64 << 43u64));
}

proof fn edge_white_44()
    ensures
        edge_table(Color::White, 44usize) == edge_neighbors_geo(44, Color::White),
{
    reveal(edge_table);
    bv_edge_white();
    let c = field_at(44, Color::White);
    assert(c == Some((0int, 1int, 5int)));
    lemma_fold3(flip_spec(c), shift_spec(c, 1), shift_spec(c, -1));
    assert(flip_spec(c) == Some((-1int, 2int, 2int)));
    assert(coord_bits(Some((-1int, 2int, 2int))) == (1u64 << 52u64));
    assert(shift_spec(c, 1) == Some((0int, 1int, 0int)));
    assert(coord_bits(Some((0int, 1int, 0int))) == (1u64 << 42u64));
    assert(shift_spec(c, -1) == Some((0int, 1int, 4int)));
    assert(coord_bits(Some((0int, 1int, 4int))) == (1u64 << 44u64));
}

proof fn edge_white_45()
    ensures
        edge_table(Color::White, 45usize) == edge_neighbors_geo(45, Color::White),
{
    reveal(edge_table);
    bv_edge_white();
    let c = field_at(45, Color::White);
    assert(c == Some((1int, 1int, 1int)));
    lemma_fold3(flip_spec(c), shift_spec(c, 1), shift_spec(c, -1));
    assert(flip_spec(c) == None::<(int, int, int)>);
    assert(shift_spec(c, 1) == Some((1int, 1int, 2int)));
    assert(coord_bits(Some((1int, 1int, 2int))) == (1u64 << 46u64));
    assert(shift_spec(c, -1) == Some((1int, 1int, 0int)));
    assert(coord_bits(Some((1int, 1int, 0int))) == (1u64 << 45u64));
}

proof fn edge_white_46()
    ensures
        edge_table(Color::White, 46usize) == edge_neighbors_geo(46, Color::White),
{
    reveal(edge_table);
    bv_edge_white();
    let c = field_at(46, Color::White);
    assert(c == Some((1int, 1int, 3int)));
    lemma_fold3(flip_spec(c), shift_spec(c, 1), shift_spec(c, -1));
    assert(flip_spec(c) == Some((1int, 0int, 0int)));
    assert(coord_bits(Some((1int, 0int, 0int))) == (1u64 << 30u64));
    assert(shift_spec(c, 1) == Some((1int, 1int, 4int)));
    assert(coord_bits(Some((1int, 1int, 4int))) == (1u64 << 47u64));
    assert(shift_spec(c, -1) == Some((1int, 1int, 2int)));
    assert(coord_bits(Some((1int, 1int, 2int))) == (1u64 << 46u64));
}

proof fn edge_white_47()
    ensures
        edge_table(Color::White, 47usize) == edge_neighbors_geo(47, Color::White),
{
    reveal(edge_table);
    bv_edge_white();
    let c = field_at(47, Color::White);
    assert(c == Some((1int, 1int, 5int)));
    lemma_fold3(flip_spec(c), shift_spec(c, 1), shift_spec(c, -1));
    assert(flip_spec(c) == Some((0int, 2int, 2int)));
    assert(coord_bits(Some((0int, 2int, 2int))) == (1u64 << 55u64));
    assert(shift_spec(c, 1) == Some((1int, 1int, 0int)));
    assert(coord_bits(Some((1int, 1int, 0int))) == (1u64 << 45u64));
    assert(shift_spec(c, -1) == Some((1int, 1int, 4int)));
    assert(coord_bits(Some((1int, 1int, 4int))) == (1u64 << 47u64));
}

proof fn edge_white_48()
    ensures
        edge_table(Color::White, 48usize) == edge_neighbors_geo(48, Color::White),
{
    reveal(edge_table);
    bv_edge_white();
    let c = field_at(48, Color::White);
    assert(c == Some((-2int, 2int, 1int)));
    lemma_fold3(flip_spec(c), shift_spec(c, 1), shift_spec(c, -1));
    assert(flip_spec(c) == Some((-1int, 2int, 4int)));
    assert(coord_bits(Some((-1int, 2int, 4int))) == (1u64 << 53u64));
    assert(shift_spec(c, 1) == Some((-2int, 2int, 2int)));
    assert(coord_bits(Some((-2int, 2int, 2int))) == (1u64 << 49u64));
    assert(shift_spec(c, -1) == Some((-2int, 2int, 0int)));
    assert(coord_bits(Some((-2int, 2int, 0int))) == (1u64 << 48u64));
}

proof fn edge_white_49()
    ensures
        edge_table(Color::White, 49usize) == edge_neighbors_geo(49, Color::White),
{
    reveal(edge_table);
    bv_edge_white();
    let c = field_at(49, Color::White);
    assert(c == Some((-2int, 2int, 3int)));
    lemma_fold3(flip_spec(c), shift_spec(c, 1), shift_spec(c, -1));
    assert(flip_spec(c) == Some((-2int, 1int, 0int)));
    assert(coord_bits(Some((-2int, 1int, 0int))) == (1u64 << 36u64));
    assert(shift_spec(c, 1) == Some((-2int, 2int, 4int)));
    assert(coord_bits(Some((-2int, 2int, 4int))) == (1u64 << 50u64));
    assert(shift_spec(c, -1) == Some((-2int, 2int, 2int)));
    assert(coord_bits(Some((-2int, 2int, 2int))) == (1u64 << 49u64));
}

proof fn edge_white_50()
    ensures
        edge_table(Color::White, 50usize) == edge_neighbors_geo(50, Color::White),
{
    reveal(edge_table);
    bv_edge_white();
    let c = field_at(50, Color::White);
    assert(c == Some((-2int, 2int, 5int)));
    lemma_fold3(flip_spec(c), shift_spec(c, 1), shift_spec(c, -1));
    assert(flip_spec(c) == None::<(int, int, int)>);
    assert(shift_spec(c, 1) == Some((-2int, 2int, 0int)));
    assert(coord_bits(Some((-2int, 2int, 0int))) == (1u64 << 48u64));
    assert(shift_spec(c, -1) == Some((-2int, 2int, 4int)));
    assert(coord_bits(Some((-2int, 2int, 4int))) == (1u64 << 50u64));
}

proof fn edge_white_51()
    ensures
        edge_table(Color::White, 51usize) == edge_neighbors_geo(51, Color::White),
{
    reveal(edge_table);
    bv_edge_white();
    let c = field_at(51, Color::White);
    assert(c == Some((-1int, 2int, 1int)));
    lemma_fold3(flip_spec(c), shift_spec(c, 1), shift_spec(c, -1));
    assert(flip_spec(c) == Some((0int, 2int, 4int)));
    assert(coord_bits(Some((0int, 2int, 4int))) == (1u64 << 56u64));
    assert(shift_spec(c, 1) == Some((-1int, 2int, 2int)));
    assert(coord_bits(Some((-1int, 2int, 2int))) == (1u64 << 52u64));
    assert(shift_spec(c, -1) == Some((-1int, 2int, 0int)));
    assert(coord_bits(Some((-1int, 2int, 0int))) == (1u64 << 51u64));
}

proof fn edge_white_52()
    ensures
        edge_table(Color::White, 52usize) == edge_neighbors_geo(52, Color::White),
{
    reveal(edge_table);
    bv_edge_white();
    let c = field_at(52, Color::White);
    assert(c == Some((-1int, 2int, 3int)));
    lemma_fold3(flip_spec(c), shift_spec(c, 1), shift_spec(c, -1));
    assert(flip_spec(c) == Some((-1int, 1int, 0int)));
    assert(coord_bits(Some((-1int, 1int, 0int))) == (1u64 << 39u64));
    assert(shift_spec(c, 1) == Some((-1int, 2int, 4int)));
    assert(coord_bits(Some((-1int, 2int, 4int))) == (1u64 << 53u64));
    assert(shift_spec(c, -1) == Some((-1int, 2int, 2int)));
    assert(coord_bits(Some((-1int, 2int, 2int))) == (1u64 << 52u64));
}

proof fn edge_white_53()
    ensures
        edge_table(Color::White, 53usize) == edge_neighbors_geo(53, Color::White),
{
    reveal(edge_table);
    bv_edge_white();
    let c = field_at(53, Color::White);
    assert(c == Some((-1int, 2int, 5int)));
    lemma_fold3(flip_spec(c), shift_spec(c, 1), shift_spec(c, -1));
    assert(flip_spec(c) == None::<(int, int, int)>);
    assert(shift_spec(c, 1) == Some((-1int, 2int, 0int)));
    assert(coord_bits(Some((-1int, 2int, 0int))) == (1u64 << 51u64));
    assert(shift_spec(c, -1) == Some((-1int, 2int, 4int)));
    assert(coord_bits(Some((-1int, 2int, 4int))) == (1u64 << 53u64));
}

proof fn edge_white_54()
    ensures
        edge_table(Color::White, 54usize) == edge_neighbors_geo(54, Color::White),
{
    reveal(edge_table);
    bv_edge_white();
    let c = field_at(54, Color::White);
    assert(c == Some((0int, 2int, 1int)));
    lemma_fold3(flip_spec(c), shift_spec(c, 1), shift_spec(c, -1));
    assert(flip_spec(c) == None::<(int, int, int)>);
    assert(shift_spec(c, 1) == Some((0int, 2int, 2int)));
    assert(coord_bits(Some((0int, 2int, 2int))) == (1u64 << 55u64));
    assert(shift_spec(c, -1) == Some((0int, 2int, 0int)));
    assert(coord_bits(Some((0int, 2int, 0int))) == (1u64 << 54u64));
}

proof fn edge_white_55()
    ensures
        edge_table(Color::White, 55usize) == edge_neighbors_geo(55, Color::White),
{
    reveal(edge_table);
    bv_edge_white();
    let c = field_at(55, Color::White);
    assert(c == Some((0int, 2int, 3int)));
    lemma_fold3(flip_spec(c), shift_spec(c, 1), shift_spec(c, -1));
    assert(flip_spec(c) == Some((0int, 1int, 0int)));
    assert(coord_bits(Some((0int, 1int, 0int))) == (1u64 << 42u64));
    assert(shift_spec(c, 1) == Some((0int, 2int, 4int)));
    assert(coord_bits(Some((0int, 2int, 4int))) == (1u64 << 56u64));
    assert(shift_spec(c, -1) == Some((0int, 2int, 2int)));
    assert(coord_bits(Some((0int, 2int, 2int))) == (1u64 << 55u64));
}

proof fn edge_white_56()
    ensures
        edge_table(Color::White, 56usize) == edge_neighbors_geo(56, Color::White),
{
    reveal(edge_table);
    bv_edge_white();
    let c = field_at(56, Color::White);
    assert(c == Some((0int, 2int, 5int)));
    lemma_fold3(flip_spec(c), shift_spec(c, 1), shift_spec(c, -1));
    assert(flip_spec(c) == None::<(int, int, int)>);
    assert(shift_spec(c, 1) == Some((0int, 2int, 0int)));
    assert(coord_bits(Some((0int, 2int, 0int))) == (1u64 << 54u64));
    assert(shift_spec(c, -1) == Some((0int, 2int, 4int)));
    assert(coord_bits(Some((0int, 2int, 4int))) == (1u64 << 56u64));
}

/// Entry `i` of the edge table of white fields is the geometry.
pub proof fn lemma_edge_white(i: int)
    requires
        0 <= i < 57,
    ensures
        edge_table(Color::White, i as usize) == edge_neighbors_geo(i, Color::White),
{
    if i == 0 {
        edge_white_0();
    }
    if i == 1 {
        edge_white_1();
    }
    if i == 2 {
        edge_white_2();
    }
    if i == 3 {
        edge_white_3();
    }
    if i == 4 {
        edge_white_4();
    }
    if i == 5 {
        edge_white_5();
    }
    if i == 6 {
        edge_white_6();
    }
    if i == 7 {
        edge_white_7();
    }
    if i == 8 {
        edge_white_8();
    }
    if i == 9 {
        edge_white_9();
    }
    if i == 10 {
        edge_white_10();
    }
    if i == 11 {
        edge_white_11();
    }
    if i == 12 {
        edge_white_12();
    }
    if i == 13 {
        edge_white_13();
    }
    if i == 14 {
        edge_white_14();
    }
    if i == 15 {
        edge_white_15();
    }
    if i == 16 {
        edge_white_16();
    }
    if i == 17 {
        edge_white_17();
    }
    if i == 18 {
        edge_white_18();
    }
    if i == 19 {
        edge_white_19();
    }
    if i == 20 {
        edge_white_20();
    }
    if i == 21 {
        edge_white_21();
    }
    if i == 22 {
        edge_white_22();
    }
    if i == 23 {
        edge_white_23();
    }
    if i == 24 {
        edge_white_24();
    }
    if i == 25 {
        edge_white_25();
    }
    if i == 26 {
        edge_white_26();
    }
    if i == 27 {
        edge_white_27();
    }
    if i == 28 {
        edge_white_28();
    }
    if i == 29 {
        edge_white_29();
    }
    if i == 30 {
        edge_white_30();
    }
    if i == 31 {
        edge_white_31();
    }
    if i == 32 {
        edge_white_32();
    }
    if i == 33 {
        edge_white_33();
    }
    if i == 34 {
        edge_white_34();
    }
    if i == 35 {
        edge_white_35();
    }
    if i == 36 {
        edge_white_36();
    }
    if i == 37 {
        edge_white_37();
    }
    if i == 38 {
        edge_white_38();
    }
    if i == 39 {
        edge_white_39();
    }
    if i == 40 {
        edge_white_40();
    }
    if i == 41 {
        edge_white_41();
    }
    if i == 42 {
        edge_white_42();
    }
    if i == 43 {
        edge_white_43();
    }
    if i == 44 {
        edge_white_44();
    }
    if i == 45 {
        edge_white_45();
    }
    if i == 46 {
        edge_white_46();
    }
    if i == 47 {
        edge_white_47();
    }
    if i == 48 {
        edge_white_48();
    }
    if i == 49 {
        edge_white_49();
    }
    if i == 50 {
        edge_white_50();
    }
    if i == 51 {
        edge_white_51();
    }
    if i == 52 {
        edge_white_52();
    }
    if i == 53 {
        edge_white_53();
    }
    if i == 54 {
        edge_white_54();
    }
    if i == 55 {
        edge_white_55();
    }
    if i == 56 {
        edge_white_56();
    }
}

proof fn bv_edge_black()
    by (bit_vector)
    ensures
        8197u64 == (((0u64 | (1u64 << 13u64)) | (1u64 << 0u64)) | (1u64 << 2u64)),
        3u64 == (((0u64 | 0u64) | (1u64 << 1u64)) | (1u64 << 0u64)),
        6u64 == (((0u64 | 0u64) | (1u64 << 2u64)) | (1u64 << 1u64)),
        65576u64 == (((0u64 | (1u64 << 16u64)) | (1u64 << 3u64)) | (1u64 << 5u64)),
        24u64 == (((0u64 | 0u64) | (1u64 << 4u64)) | (1u64 << 3u64)),
        49u64 == (((0u64 | (1u64 << 0u64)) | (1u64 << 5u64)) | (1u64 << 4u64)),
        524608u64 == (((0u64 | (1u64 << 19u64)) | (1u64 << 6u64)) | (1u64 << 8u64)),
        192u64 == (((0u64 | 0u64) | (1u64 << 7u64)) | (1u64 << 6u64)),
        392u64 == (((0u64 | (1u64 << 3u64)) | (1u64 << 8u64)) | (1u64 << 7u64)),
        33556992u64 == (((0u64 | (1u64 << 25u64)) | (1u64 << 9u64)) | (1u64 << 11u64)),
        1540u64 == (((0u64 | (1u64 << 2u64)) | (1u64 << 10u64)) | (1u64 << 9u64)),
        3072u64 == (((0u64 | 0u64) | (1u64 << 11u64)) | (1u64 << 10u64)),
        268455936u64 == (((0u64 | (1u64 << 28u64)) | (1u64 << 12u64)) | (1u64 << 14u64)),
        12320u64 == (((0u64 | (1u64 << 5u64)) | (1u64 << 13u64)) | (1u64 << 12u64)),
        25088u64 == (((0u64 | (1u64 << 9u64)) | (1u64 << 14u64)) | (1u64 << 13u64)),
        2147647488u64 == (((0u64 | (1u64 << 31u64)) | (1u64 << 15u64)) | (1u64 << 17u64)),
        98560u64 == (((0u64 | (1u64 << 8u64)) | (1u64 << 16u64)) | (1u64 << 15u64)),
        200704u64 == (((0u64 | (1u64 << 12u64)) | (1u64 << 17u64)) | (1u64 << 16u64)),
        17181179904u64 == (((0u64 | (1u64 << 34u64)) | (1u64 << 18u64)) | (1u64 << 20u64)),
        786432u64 == (((0u64 | 0u64) | (1u64 << 19u64)) | (1u64 << 18u64)),
        1605632u64 == (((0u64 | (1u64 << 15u64)) | (1u64 << 20u64)) | (1u64 << 19u64)),
        137449439232u64 == (((0u64 | (1u64 << 37u64)) | (1u64 << 21u64)) | (1u64 << 23u64)),
        6293504u64 == (((0u64 | (1u64 << 11u64)) | (1u64 << 22u64)) | (1u64 << 21u64)),
        12582912u64 == (((0u64 | 0u64) | (1u64 << 23u64)) | (1u64 << 22u64)),
        1099595513856u64 == (((0u64 | (1u64 << 40u64)) | (1u64 << 24u64)) | (1u64 << 26u64)),
        50348032u64 == (((0u64 | (1u64 << 14u64)) | (1u64 << 25u64)) | (1u64 << 24u64)),
        102760448u64 == (((0u64 | (1u64 << 21u64)) | (1u64 << 26u64)) | (1u64 << 25u64)),
        8796764110848u64 == (((0u64 | (1u64 << 43u64)) | (1u64 << 27u64)) | (1u64 << 29u64)),
        402784256u64 == (((0u64 | (1u64 << 17u64)) | (1u64 << 28u64)) | (1u64 << 27u64)),
        822083584u64 == (((0u64 | (1u64 << 24u64)) | (1u64 << 29u64)) | (1u64 << 28u64)),
        70374112886784u64 == (((0u64 | (1u64 << 46u64)) | (1u64 << 30u64)) | (1u64 << 32u64)),
        3222274048u64 == (((0u64 | (1u64 << 20u64)) | (1u64 << 31u64)) | (1u64 << 30u64)),
        6576668672u64 == (((0u64 | (1u64 << 27u64)) | (1u64 << 32u64)) | (1u64 << 31u64)),
        42949672960u64 == (((0u64 | 0u64) | (1u64 << 33u64)) | (1u64 << 35u64)),
        25769803776u64 == (((0u64 | 0u64) | (1u64 << 34u64)) | (1u64 << 33u64)),
        52613349376u64 == (((0u64 | (1u64 << 30u64)) | (1u64 << 35u64)) | (1u64 << 34u64)),
        563293550804992u64 == (((0u64 | (1u64 << 49u64)) | (1u64 << 36u64)) | (1u64 << 38u64)),
        206225539072u64 == (((0u64 | (1u64 << 26u64)) | (1u64 << 37u64)) | (1u64 << 36u64)),
        412316860416u64 == (((0u64 | 0u64) | (1u64 << 38u64)) | (1u64 << 37u64)),
        4506348406439936u64 == (((0u64 | (1u64 << 52u64)) | (1u64 << 39u64)) | (1u64 << 41u64)),
        1649804312576u64 == (((0u64 | (1u64 << 29u64)) | (1u64 << 40u64)) | (1u64 << 39u64)),
        3367254360064u64 == (((0u64 | (1u64 << 36u64)) | (1u64 << 41u64)) | (1u64 << 40u64)),
        36050787251519488u64 == (((0u64 | (1u64 << 55u64)) | (1u64 << 42u64)) | (1u64 << 44u64)),
        13198434500608u64 == (((0u64 | (1u64 << 32u64)) | (1u64 << 43u64)) | (1u64 << 42u64)),
        26938034880512u64 == (((0u64 | (1u64 << 39u64)) | (1u64 << 44u64)) | (1u64 << 43u64)),
        175921860444160u64 == (((0u64 | 0u64) | (1u64 << 45u64)) | (1u64 << 47u64)),
        105587476004864u64 == (((0u64 | (1u64 << 35u64)) | (1u64 << 46u64)) | (1u64 << 45u64)),
        215504279044096u64 == (((0u64 | (1u64 << 42u64)) | (1u64 << 47u64)) | (1u64 << 46u64)),
        1407374883553280u64 == (((0u64 | 0u64) | (1u64 << 48u64)) | (1u64 << 50u64)),
        846623953387520u64 == (((0u64 | (1u64 << 41u64)) | (1u64 << 49u64)) | (1u64 << 48u64)),
        1688849860263936u64 == (((0u64 | 0u64) | (1u64 << 50u64)) | (1u64 << 49u64)),
        11258999068426240u64 == (((0u64 | 0u64) | (1u64 << 51u64)) | (1u64 << 53u64)),
        6772991627100160u64 == (((0u64 | (1u64 << 44u64)) | (1u64 << 52u64)) | (1u64 << 51u64)),
        13792273858822144u64 == (((0u64 | (1u64 << 48u64)) | (1u64 << 53u64)) | (1u64 << 52u64)),
        90071992547409920u64 == (((0u64 | 0u64) | (1u64 << 54u64)) | (1u64 << 56u64)),
        54183933016801280u64 == (((0u64 | (1u64 << 47u64)) | (1u64 << 55u64)) | (1u64 << 54u64)),
        110338190870577152u64 == (((0u64 | (1u64 << 51u64)) | (1u64 << 56u64)) | (1u64 << 55u64)),
{
}

proof fn edge_black_0()
    ensures
        edge_table(Color::Black, 0usize) == edge_neighbors_geo(0, Color::Black),
{
    reveal(edge_table);
    bv_edge_black();
    let c = field_at(0, Color::Black);
    assert(c == Some((0int, -2int, 0int)));
    lemma_fold3(flip_spec(c), shift_spec(c, 1), shift_spec(c, -1));
    assert(flip_spec(c) == Some((0int, -1int, 3int)));
    assert(coord_bits(Some((0int, -1int, 3int))) == (1u64 << 13u64));
    assert(shift_spec(c, 1) == Some((0int, -2int, 1int)));
    assert(coord_bits(Some((0int, -2int, 1int))) == (1u64 << 0u64));
    assert(shift_spec(c, -1) == Some((0int, -2int, 5int)));
    assert(coord_bits(Some((0int, -2int, 5int))) == (1u64 << 2u64));
}

proof fn edge_black_1()
    ensures
        edge_table(Color::Black, 1usize) == edge_neighbors_geo(1, Color::Black),
{
    reveal(edge_table);
    bv_edge_black();
    let c = field_at(1, Color::Black);
    assert(c == Some((0int, -2int, 2int)));
    lemma_fold3(flip_spec(c), shift_spec(c, 1), shift_spec(c, -1));
    assert(flip_spec(c) == None::<(int, int, int)>);
    assert(shift_spec(c, 1) == Some((0int, -2int, 3int)));
    assert(coord_bits(Some((0int, -2int, 3int))) == (1u64 << 1u64));
    assert(shift_spec(c, -1) == Some((0int, -2int, 1int)));
    assert(coord_bits(Some((0int, -2int, 1int))) == (1u64 << 0u64));
}

proof fn edge_black_2()
    ensures
        edge_table(Color::Black, 2usize) == edge_neighbors_geo(2, Color::Black),
{
    reveal(edge_table);
    bv_edge_black();
    let c = field_at(2, Color::Black);
    assert(c == Some((0int, -2int, 4int)));
    lemma_fold3(flip_spec(c), shift_spec(c, 1), shift_spec(c, -1));
    assert(flip_spec(c) == None::<(int, int, int)>);
    assert(shift_spec(c, 1) == Some((0int, -2int, 5int)));
    assert(coord_bits(Some((0int, -2int, 5int))) == (1u64 << 2u64));
    assert(shift_spec(c, -1) == Some((0int, -2int, 3int)));
    assert(coord_bits(Some((0int, -2int, 3int))) == (1u64 << 1u64));
}

proof fn edge_black_3()
    ensures
        edge_table(Color::Black, 3usize) == edge_neighbors_geo(3, Color::Black),
{
    reveal(edge_table);
    bv_edge_black();
    let c = field_at(3, Color::Black);
    assert(c == Some((1int, -2int, 0int)));
    lemma_fold3(flip_spec(c), shift_spec(c, 1), shift_spec(c, -1));
    assert(flip_spec(c) == Some((1int, -1int, 3int)));
    assert(coord_bits(Some((1int, -1int, 3int))) == (1u64 << 16u64));
    assert(shift_spec(c, 1) == Some((1int, -2int, 1int)));
    assert(coord_bits(Some((1int, -2int, 1int))) == (1u64 << 3u64));
    assert(shift_spec(c, -1) == Some((1int, -2int, 5int)));
    assert(coord_bits(Some((1int, -2int, 5int))) == (1u64 << 5u64));
}

proof fn edge_black_4()
    ensures
        edge_table(Color::Black, 4usize) == edge_neighbors_geo(4, Color::Black),
{
    reveal(edge_table);
    bv_edge_black();
    let c = field_at(4, Color::Black);
    assert(c == Some((1int, -2int, 2int)));
    lemma_fold3(flip_spec(c), shift_spec(c, 1), shift_spec(c, -1));
    assert(flip_spec(c) == None::<(int, int, int)>);
    assert(shift_spec(c, 1) == Some((1int, -2int, 3int)));
    assert(coord_bits(Some((1int, -2int, 3int))) == (1u64 << 4u64));
    assert(shift_spec(c, -1) == Some((1int, -2int, 1int)));
    assert(coord_bits(Some((1int, -2int, 1int))) == (1u64 << 3u64));
}

proof fn edge_black_5()
    ensures
        edge_table(Color::Black, 5usize) == edge_neighbors_geo(5, Color::Black),
{
    reveal(edge_table);
    bv_edge_black();
    let c = field_at(5, Color::Black);
    assert(c == Some((1int, -2int, 4int)));
    lemma_fold3(flip_spec(c), shift_spec(c, 1), shift_spec(c, -1));
    assert(flip_spec(c) == Some((0int, -2int, 1int)));
    assert(coord_bits(Some((0int, -2int, 1int))) == (1u64 << 0u64));
    assert(shift_spec(c, 1) == Some((1int, -2int, 5int)));
    assert(coord_bits(Some((1int, -2int, 5int))) == (1u64 << 5u64));
    assert(shift_spec(c, -1) == Some((1int, -2int, 3int)));
    assert(coord_bits(Some((1int, -2int, 3int))) == (1u64 << 4u64));
}

proof fn edge_black_6()
    ensures
        edge_table(Color::Black, 6usize) == edge_neighbors_geo(6, Color::Black),
{
    reveal(edge_table);
    bv_edge_black();
    let c = field_at(6, Color::Black);
    assert(c == Some((2int, -2int, 0int)));
    lemma_fold3(flip_spec(c), shift_spec(c, 1), shift_spec(c, -1));
    assert(flip_spec(c) == Some((2int, -1int, 3int)));
    assert(coord_bits(Some((2int, -1int, 3int))) == (1u64 << 19u64));
    assert(shift_spec(c, 1) == Some((2int, -2int, 1int)));
    assert(coord_bits(Some((2int, -2int, 1int))) == (1u64 << 6u64));
    assert(shift_spec(c, -1) == Some((2int, -2int, 5int)));
    assert(coord_bits(Some((2int, -2int, 5int))) == (1u64 << 8u64));
}

proof fn edge_black_7()
    ensures
        edge_table(Color::Black, 7usize) == edge_neighbors_geo(7, Color::Black),
{
    reveal(edge_table);
    bv_edge_black();
    let c = field_at(7, Color::Black);
    assert(c == Some((2int, -2int, 2int)));
    lemma_fold3(flip_spec(c), shift_spec(c, 1), shift_spec(c, -1));
    assert(flip_spec(c) == None::<(int, int, int)>);
    assert(shift_spec(c, 1) == Some((2int, -2int, 3int)));
    assert(coord_bits(Some((2int, -2int, 3int))) == (1u64 << 7u64));
    assert(shift_spec(c, -1) == Some((2int, -2int, 1int)));
    assert(coord_bits(Some((2int, -2int, 1int))) == (1u64 << 6u64));
}

proof fn edge_black_8()
    ensures
        edge_table(Color::Black, 8usize) == edge_neighbors_geo(8, Color::Black),
{
    reveal(edge_table);
    bv_edge_black();
    let c = field_at(8, Color::Black);
    assert(c == Some((2int, -2int, 4int)));
    lemma_fold3(flip_spec(c), shift_spec(c, 1), shift_spec(c, -1));
    assert(flip_spec(c) == Some((1int, -2int, 1int)));
    assert(coord_bits(Some((1int, -2int, 1int))) == (1u64 << 3u64));
    assert(shift_spec(c, 1) == Some((2int, -2int, 5int)));
    assert(coord_bits(Some((2int, -2int, 5int))) == (1u64 << 8u64));
    assert(shift_spec(c, -1) == Some((2int, -2int, 3int)));
    assert(coord_bits(Some((2int, -2int, 3int))) == (1u64 << 7u64));
}

proof fn edge_black_9()
    ensures
        edge_table(Color::Black, 9usize) == edge_neighbors_geo(9, Color::Black),
{
    reveal(edge_table);
    bv_edge_black();
    let c = field_at(9, Color::Black);
    assert(c == Some((-1int, -1int, 0int)));
    lemma_fold3(flip_spec(c), shift_spec(c, 1), shift_spec(c, -1));
    assert(flip_spec(c) == Some((-1int, 0int, 3int)));
    assert(coord_bits(Some((-1int, 0int, 3int))) == (1u64 << 25u64));
    assert(shift_spec(c, 1) == Some((-1int, -1int, 1int)));
    assert(coord_bits(Some((-1int, -1int, 1int))) == (1u64 << 9u64));
    assert(shift_spec(c, -1) == Some((-1int, -1int, 5int)));
    assert(coord_bits(Some((-1int, -1int, 5int))) == (1u64 << 11u64));
}

proof fn edge_black_10()
    ensures
        edge_table(Color::Black, 10usize) == edge_neighbors_geo(10, Color::Black),
{
    reveal(edge_table);
    bv_edge_black();
    let c = field_at(10, Color::Black);
    assert(c == Some((-1int, -1int, 2int)));
    lemma_fold3(flip_spec(c), shift_spec(c, 1), shift_spec(c, -1));
    assert(flip_spec(c) == Some((0int, -2int, 5int)));
    assert(coord_bits(Some((0int, -2int, 5int))) == (1u64 << 2u64));
    assert(shift_spec(c, 1) == Some((-1int, -1int, 3int)));
    assert(coord_bits(Some((-1int, -1int, 3int))) == (1u64 << 10u64));
    assert(shift_spec(c, -1) == Some((-1int, -1int, 1int)));
    assert(coord_bits(Some((-1int, -1int, 1int))) == (1u64 << 9u64));
}

proof fn edge_black_11()
    ensures
        edge_table(Color::Black, 11usize) == edge_neighbors_geo(11, Color::Black),
{
    reveal(edge_table);
    bv_edge_black();
    let c = field_at(11, Color::Black);
    assert(c == Some((-1int, -1int, 4int)));
    lemma_fold3(flip_spec(c), shift_spec(c, 1), shift_spec(c, -1));
    assert(flip_spec(c) == None::<(int, int, int)>);
    assert(shift_spec(c, 1) == Some((-1int, -1int, 5int)));
    assert(coord_bits(Some((-1int, -1int, 5int))) == (1u64 << 11u64));
    assert(shift_spec(c, -1) == Some((-1int, -1int, 3int)));
    assert(coord_bits(Some((-1int, -1int, 3int))) == (1u64 << 10u64));
}

proof fn edge_black_12()
    ensures
        edge_table(Color::Black, 12usize) == edge_neighbors_geo(12, Color::Black),
{
    reveal(edge_table);
    bv_edge_black();
    let c = field_at(12, Color::Black);
    assert(c == Some((0int, -1int, 0int)));
    lemma_fold3(flip_spec(c), shift_spec(c, 1), shift_spec(c, -1));
    assert(flip_spec(c) == Some((0int, 0int, 3int)));
    assert(coord_bits(Some((0int, 0int, 3int))) == (1u64 << 28u64));
    assert(shift_spec(c, 1) == Some((0int, -1int, 1int)));
    assert(coord_bits(Some((0int, -1int, 1int))) == (1u64 << 12u64));
    assert(shift_spec(c, -1) == Some((0int, -1int, 5int)));
    assert(coord_bits(Some((0int, -1int, 5int))) == (1u64 << 14u64));
}

proof fn edge_black_13()
    ensures
        edge_table(Color::Black, 13usize) == edge_neighbors_geo(13, Color::Black),
{
    reveal(edge_table);
    bv_edge_black();
    let c = field_at(13, Color::Black);
    assert(c == Some((0int, -1int, 2int)));
    lemma_fold3(flip_spec(c), shift_spec(c, 1), shift_spec(c, -1));
    assert(flip_spec(c) == Some((1int, -2int, 5int)));
    assert(coord_bits(Some((1int, -2int, 5int))) == (1u64 << 5u64));
    assert(shift_spec(c, 1) == Some((0int, -1int, 3int)));
    assert(coord_bits(Some((0int, -1int, 3int))) == (1u64 << 13u64));
    assert(shift_spec(c, -1) == Some((0int, -1int, 1int)));
    assert(coord_bits(Some((0int, -1int, 1int))) == (1u64 << 12u64));
}

proof fn edge_black_14()
    ensures
        edge_table(Color::Black, 14usize) == edge_neighbors_geo(14, Color::Black),
{
    reveal(edge_table);
    bv_edge_black();
    let c = field_at(14, Color::Black);
    assert(c == Some((0int, -1int, 4int)));
    lemma_fold3(flip_spec(c), shift_spec(c, 1), shift_spec(c, -1));
    assert(flip_spec(c) == Some((-1int, -1int, 1int)));
    assert(coord_bits(Some((-1int, -1int, 1int))) == (1u64 << 9u64));
    assert(shift_spec(c, 1) == Some((0int, -1int, 5int)));
    assert(coord_bits(Some((0int, -1int, 5int))) == (1u64 << 14u64));
    assert(shift_spec(c, -1) == Some((0int, -1int, 3int)));
    assert(coord_bits(Some((0int, -1int, 3int))) == (1u64 << 13u64));
}

proof fn edge_black_15()
    ensures
        edge_table(Color::Black, 15usize) == edge_neighbors_geo(15, Color::Black),
{
    reveal(edge_table);
    bv_edge_black();
    let c = field_at(15, Color::Black);
    assert(c == Some((1int, -1int, 0int)));
    lemma_fold3(flip_spec(c), shift_spec(c, 1), shift_spec(c, -1));
    assert(flip_spec(c) == Some((1int, 0int, 3int)));
    assert(coord_bits(Some((1int, 0int, 3int))) == (1u64 << 31u64));
    assert(shift_spec(c, 1) == Some((1int, -1int, 1int)));
    assert(coord_bits(Some((1int, -1int, 1int))) == (1u64 << 15u64));
    assert(shift_spec(c, -1) == Some((1int, -1int, 5int)));
    assert(coord_bits(Some((1int, -1int, 5int))) == (1u64 << 17u64));
}

proof fn edge_black_16()
    ensures
        edge_table(Color::Black, 16usize) == edge_neighbors_geo(16, Color::Black),
{
    reveal(edge_table);
    bv_edge_black();
    let c = field_at(16, Color::Black);
    assert(c == Some((1int, -1int, 2int)));
    lemma_fold3(flip_spec(c), shift_spec(c, 1), shift_spec(c, -1));
    assert(flip_spec(c) == Some((2int, -2int, 5int)));
    assert(coord_bits(Some((2int, -2int, 5int))) == (1u64 << 8u64));
    assert(shift_spec(c, 1) == Some((1int, -1int, 3int)));
    assert(coord_bits(Some((1int, -1int, 3int))) == (1u64 << 16u64));
    assert(shift_spec(c, -1) == Some((1int, -1int, 1int)));
    assert(coord_bits(Some((1int, -1int, 1int))) == (1u64 << 15u64));
}

proof fn edge_black_17()
    ensures
        edge_table(Color::Black, 17usize) == edge_neighbors_geo(17, Color::Black),
{
    reveal(edge_table);
    bv_edge_black();
    let c = field_at(17, Color::Black);
    assert(c == Some((1int, -1int, 4int)));
    lemma_fold3(flip_spec(c), shift_spec(c, 1), shift_spec(c, -1));
    assert(flip_spec(c) == Some((0int, -1int, 1int)));
    assert(coord_bits(Some((0int, -1int, 1int))) == (1u64 << 12u64));
    assert(shift_spec(c, 1) == Some((1int, -1int, 5int)));
    assert(coord_bits(Some((1int, -1int, 5int))) == (1u64 << 17u64));
    assert(shift_spec(c, -1) == Some((1int, -1int, 3int)));
    assert(coord_bits(Some((1int, -1int, 3int))) == (1u64 << 16u64));
}

proof fn edge_black_18()
    ensures
        edge_table(Color::Black, 18usize) == edge_neighbors_geo(18, Color::Black),
{
    reveal(edge_table);
    bv_edge_black();
    let c = field_at(18, Color::Black);
    assert(c == Some((2int, -1int, 0int)));
    lemma_fold3(flip_spec(c), shift_spec(c, 1), shift_spec(c, -1));
    assert(flip_spec(c) == Some((2int, 0int, 3int)));
    assert(coord_bits(Some((2int, 0int, 3int))) == (1u64 << 34u64));
    assert(shift_spec(c, 1) == Some((2int, -1int, 1int)));
    assert(coord_bits(Some((2int, -1int, 1int))) == (1u64 << 18u64));
    assert(shift_spec(c, -1) == Some((2int, -1int, 5int)));
    assert(coord_bits(Some((2int, -1int, 5int))) == (1u64 << 20u64));
}

proof fn edge_black_19()
    ensures
        edge_table(Color::Black, 19usize) == edge_neighbors_geo(19, Color::Black),
{
    reveal(edge_table);
    bv_edge_black();
    let c = field_at(19, Color::Black);
    assert(c == Some((2int, -1int, 2int)));
    lemma_fold3(flip_spec(c), shift_spec(c, 1), shift_spec(c, -1));
    assert(flip_spec(c) == None::<(int, int, int)>);
    assert(shift_spec(c, 1) == Some((2int, -1int, 3int)));
    assert(coord_bits(Some((2int, -1int, 3int))) == (1u64 << 19u64));
    assert(shift_spec(c, -1) == Some((2int, -1int, 1int)));
    assert(coord_bits(Some((2int, -1int, 1int))) == (1u64 << 18u64));
}

proof fn edge_black_20()
    ensures
        edge_table(Color::Black, 20usize) == edge_neighbors_geo(20, Color::Black),
{
    reveal(edge_table);
    bv_edge_black();
    let c = field_at(20, Color::Black);
    assert(c == Some((2int, -1int, 4int)));
    lemma_fold3(flip_spec(c), shift_spec(c, 1), shift_spec(c, -1));
    assert(flip_spec(c) == Some((1int, -1int, 1int)));
    assert(coord_bits(Some((1int, -1int, 1int))) == (1u64 << 15u64));
    assert(shift_spec(c, 1) == Some((2int, -1int, 5int)));
    assert(coord_bits(Some((2int, -1int, 5int))) == (1u64 << 20u64));
    assert(shift_spec(c, -1) == Some((2int, -1int, 3int)));
    assert(coord_bits(Some((2int, -1int, 3int))) == (1u64 << 19u64));
}

proof fn edge_black_21()
    ensures
        edge_table(Color::Black, 21usize) == edge_neighbors_geo(21, Color::Black),
{
    reveal(edge_table);
    bv_edge_black();
    let c = field_at(21, Color::Black);
    assert(c == Some((-2int, 0int, 0int)));
    lemma_fold3(flip_spec(c), shift_spec(c, 1), shift_spec(c, -1));
    assert(flip_spec(c) == Some((-2int, 1int, 3int)));
    assert(coord_bits(Some((-2int, 1int, 3int))) == (1u64 << 37u64));
    assert(shift_spec(c, 1) == Some((-2int, 0int, 1int)));
    assert(coord_bits(Some((-2int, 0int, 1int))) == (1u64 << 21u64));
    assert(shift_spec(c, -1) == Some((-2int, 0int, 5int)));
    assert(coord_bits(Some((-2int, 0int, 5int))) == (1u64 << 23u64));
}

proof fn edge_black_22()
    ensures
        edge_table(Color::Black, 22usize) == edge_neighbors_geo(22, Color::Black),
{
    reveal(edge_table);
    bv_edge_black();
    let c = field_at(22, Color::Black);
    assert(c == Some((-2int, 0int, 2int)));
    lemma_fold3(flip_spec(c), shift_spec(c, 1), shift_spec(c, -1));
    assert(flip_spec(c) == Some((-1int, -1int, 5int)));
    assert(coord_bits(Some((-1int, -1int, 5int))) == (1u64 << 11u64));
    assert(shift_spec(c, 1) == Some((-2int, 0int, 3int)));
    assert(coord_bits(Some((-2int, 0int, 3int))) == (1u64 << 22u64));
    assert(shift_spec(c, -1) == Some((-2int, 0int, 1int)));
    assert(coord_bits(Some((-2int, 0int, 1int))) == (1u64 << 21u64));
}

proof fn edge_black_23()
    ensures
        edge_table(Color::Black, 23usize) == edge_neighbors_geo(23, Color::Black),
{
    reveal(edge_table);
    bv_edge_black();
    let c = field_at(23, Color::Black);
    assert(c == Some((-2int, 0int, 4int)));
    lemma_fold3(flip_spec(c), shift_spec(c, 1), shift_spec(c, -1));
    assert(flip_spec(c) == None::<(int, int, int)>);
    assert(shift_spec(c, 1) == Some((-2int, 0int, 5int)));
    assert(coord_bits(Some((-2int, 0int, 5int))) == (1u64 << 23u64));
    assert(shift_spec(c, -1) == Some((-2int, 0int, 3int)));
    assert(coord_bits(Some((-2int, 0int, 3int))) == (1u64 << 22u64));
}

proof fn edge_black_24()
    ensures
        edge_table(Color::Black, 24usize) == edge_neighbors_geo(24, Color::Black),
{
    reveal(edge_table);
    bv_edge_black();
    let c = field_at(24, Color::Black);
    assert(c == Some((-1int, 0int, 0int)));
    lemma_fold3(flip_spec(c), shift_spec(c, 1), shift_spec(c, -1));
    assert(flip_spec(c) == Some((-1int, 1int, 3int)));
    assert(coord_bits(Some((-1int, 1int, 3int))) == (1u64 << 40u64));
    assert(shift_spec(c, 1) == Some((-1int, 0int, 1int)));
    assert(coord_bits(Some((-1int, 0int, 1int))) == (1u64 << 24u64));
    assert(shift_spec(c, -1) == Some((-1int, 0int, 5int)));
    assert(coord_bits(Some((-1int, 0int, 5int))) == (1u64 << 26u64));
}

proof fn edge_black_25()
    ensures
        edge_table(Color::Black, 25usize) == edge_neighbors_geo(25, Color::Black),
{
    reveal(edge_table);
    bv_edge_black();
    let c = field_at(25, Color::Black);
    assert(c == Some((-1int, 0int, 2int)));
    lemma_fold3(flip_spec(c), shift_spec(c, 1), shift_spec(c, -1));
    assert(flip_spec(c) == Some((0int, -1int, 5int)));
    assert(coord_bits(Some((0int, -1int, 5int))) == (1u64 << 14u64));
    assert(shift_spec(c, 1) == Some((-1int, 0int, 3int)));
    assert(coord_bits(Some((-1int, 0int, 3int))) == (1u64 << 25u64));
    assert(shift_spec(c, -1) == Some((-1int, 0int, 1int)));
    assert(coord_bits(Some((-1int, 0int, 1int))) == (1u64 << 24u64));
}

proof fn edge_black_26()
    ensures
        edge_table(Color::Black, 26usize) == edge_neighbors_geo(26, Color::Black),
{
    reveal(edge_table);
    bv_edge_black();
    let c = field_at(26, Color::Black);
    assert(c == Some((-1int, 0int, 4int)));
    lemma_fold3(flip_spec(c), shift_spec(c, 1), shift_spec(c, -1));
    assert(flip_spec(c) == Some((-2int, 0int, 1int)));
    assert(coord_bits(Some((-2int, 0int, 1int))) == (1u64 << 21u64));
    assert(shift_spec(c, 1) == Some((-1int, 0int, 5int)));
    assert(coord_bits(Some((-1int, 0int, 5int))) == (1u64 << 26u64));
    assert(shift_spec(c, -1) == Some((-1int, 0int, 3int)));
    assert(coord_bits(Some((-1int, 0int, 3int))) == (1u64 << 25u64));
}

proof fn edge_black_27()
    ensures
        edge_table(Color::Black, 27usize) == edge_neighbors_geo(27, Color::Black),
{
    reveal(edge_table);
    bv_edge_black();
    let c = field_at(27, Color::Black);
    assert(c == Some((0int, 0int, 0int)));
    lemma_fold3(flip_spec(c), shift_spec(c, 1), shift_spec(c, -1));
    assert(flip_spec(c) == Some((0int, 1int, 3int)));
    assert(coord_bits(Some((0int, 1int, 3int))) == (1u64 << 43u64));
    assert(shift_spec(c, 1) == Some((0int, 0int, 1int)));
    assert(coord_bits(Some((0int, 0int, 1int))) == (1u64 << 27u64));
    assert(shift_spec(c, -1) == Some((0int, 0int, 5int)));
    assert(coord_bits(Some((0int, 0int, 5int))) == (1u64 << 29u64));
}

proof fn edge_black_28()
    ensures
        edge_table(Color::Black, 28usize) == edge_neighbors_geo(28, Color::Black),
{
    reveal(edge_table);
    bv_edge_black();
    let c = field_at(28, Color::Black);
    assert(c == Some((0int, 0int, 2int)));
    lemma_fold3(flip_spec(c), shift_spec(c, 1), shift_spec(c, -1));
    assert(flip_spec(c) == Some((1int, -1int, 5int)));
    assert(coord_bits(Some((1int, -1int, 5int))) == (1u64 << 17u64));
    assert(shift_spec(c, 1) == Some((0int, 0int, 3int)));
    assert(coord_bits(Some((0int, 0int, 3int))) == (1u64 << 28u64));
    assert(shift_spec(c, -1) == Some((0int, 0int, 1int)));
    assert(coord_bits(Some((0int, 0int, 1int))) == (1u64 << 27u64));
}

proof fn edge_black_29()
    ensures
        edge_table(Color::Black, 29usize) == edge_neighbors_geo(29, Color::Black),
{
    reveal(edge_table);
    bv_edge_black();
    let c = field_at(29, Color::Black);
    assert(c == Some((0int, 0int, 4int)));
    lemma_fold3(flip_spec(c), shift_spec(c, 1), shift_spec(c, -1));
    assert(flip_spec(c) == Some((-1int, 0int, 1int)));
    assert(coord_bits(Some((-1int, 0int, 1int))) == (1u64 << 24u64));
    assert(shift_spec(c, 1) == Some((0int, 0int, 5int)));
    assert(coord_bits(Some((0int, 0int, 5int))) == (1u64 << 29u64));
    assert(shift_spec(c, -1) == Some((0int, 0int, 3int)));
    assert(coord_bits(Some((0int, 0int, 3int))) == (1u64 << 28u64));
}

proof fn edge_black_30()
    ensures
        edge_table(Color::Black, 30usize) == edge_neighbors_geo(30, Color::Black),
{
    reveal(edge_table);
    bv_edge_black();
    let c = field_at(30, Color::Black);
    assert(c == Some((1int, 0int, 0int)));
    lemma_fold3(flip_spec(c), shift_spec(c, 1), shift_spec(c, -1));
    assert(flip_spec(c) == Some((1int, 1int, 3int)));
    assert(coord_bits(Some((1int, 1int, 3int))) == (1u64 << 46u64));
    assert(shift_spec(c, 1) == Some((1int, 0int, 1int)));
    assert(coord_bits(Some((1int, 0int, 1int))) == (1u64 << 30u64));
    assert(shift_spec(c, -1) == Some((1int, 0int, 5int)));
    assert(coord_bits(Some((1int, 0int, 5int))) == (1u64 << 32u64));
}

proof fn edge_black_31()
    ensures
        edge_table(Color::Black, 31usize) == edge_neighbors_geo(31, Color::Black),
{
    reveal(edge_table);
    bv_edge_black();
    let c = field_at(31, Color::Black);
    assert(c == Some((1int, 0int, 2int)));
    lemma_fold3(flip_spec(c), shift_spec(c, 1), shift_spec(c, -1));
    assert(flip_spec(c) == Some((2int, -1int, 5int)));
    assert(coord_bits(Some((2int, -1int, 5int))) == (1u64 << 20u64));
    assert(shift_spec(c, 1) == Some((1int, 0int, 3int)));
    assert(coord_bits(Some((1int, 0int, 3int))) == (1u64 << 31u64));
    assert(shift_spec(c, -1) == Some((1int, 0int, 1int)));
    assert(coord_bits(Some((1int, 0int, 1int))) == (1u64 << 30u64));
}

proof fn edge_black_32()
    ensures
        edge_table(Color::Black, 32usize) == edge_neighbors_geo(32, Color::Black),
{
    reveal(edge_table);
    bv_edge_black();
    let c = field_at(32, Color::Black);
    assert(c == Some((1int, 0int, 4int)));
    lemma_fold3(flip_spec(c), shift_spec(c, 1), shift_spec(c, -1));
    assert(flip_spec(c) == Some((0int, 0int, 1int)));
    assert(coord_bits(Some((0int, 0int, 1int))) == (1u64 << 27u64));
    assert(shift_spec(c, 1) == Some((1int, 0int, 5int)));
    assert(coord_bits(Some((1int, 0int, 5int))) == (1u64 << 32u64));
    assert(shift_spec(c, -1) == Some((1int, 0int, 3int)));
    assert(coord_bits(Some((1int, 0int, 3int))) == (1u64 << 31u64));
}

proof fn edge_black_33()
    ensures
        edge_table(Color::Black, 33usize) == edge_neighbors_geo(33, Color::Black),
{
    reveal(edge_table);
    bv_edge_black();
    let c = field_at(33, Color::Black);
    assert(c == Some((2int, 0int, 0int)));
    lemma_fold3(flip_spec(c), shift_spec(c, 1), shift_spec(c, -1));
    assert(flip_spec(c) == None::<(int, int, int)>);
    assert(shift_spec(c, 1) == Some((2int, 0int, 1int)));
    assert(coord_bits(Some((2int, 0int, 1int))) == (1u64 << 33u64));
    assert(shift_spec(c, -1) == Some((2int, 0int, 5int)));
    assert(coord_bits(Some((2int, 0int, 5int))) == (1u64 << 35u64));
}

proof fn edge_black_34()
    ensures
        edge_table(Color::Black, 34usize) == edge_neighbors_geo(34, Color::Black),
{
    reveal(edge_table);
    bv_edge_black();
    let c = field_at(34, Color::Black);
    assert(c == Some((2int, 0int, 2int)));
    lemma_fold3(flip_spec(c), shift_spec(c, 1), shift_spec(c, -1));
    assert(flip_spec(c) == None::<(int, int, int)>);
    assert(shift_spec(c, 1) == Some((2int, 0int, 3int)));
    assert(coord_bits(Some((2int, 0int, 3int))) == (1u64 << 34u64));
    assert(shift_spec(c, -1) == Some((2int, 0int, 1int)));
    assert(coord_bits(Some((2int, 0int, 1int))) == (1u64 << 33u64));
}

proof fn edge_black_35()
    ensures
        edge_table(Color::Black, 35usize) == edge_neighbors_geo(35, Color::Black),
{
    reveal(edge_table);
    bv_edge_black();
    let c = field_at(35, Color::Black);
    assert(c == Some((2int, 0int, 4int)));
    lemma_fold3(flip_spec(c), shift_spec(c, 1), shift_spec(c, -1));
    assert(flip_spec(c) == Some((1int, 0int, 1int)));
    assert(coord_bits(Some((1int, 0int, 1int))) == (1u64 << 30u64));
    assert(shift_spec(c, 1) == Some((2int, 0int, 5int)));
    assert(coord_bits(Some((2int, 0int, 5int))) == (1u64 << 35u64));
    assert(shift_spec(c, -1) == Some((2int, 0int, 3int)));
    assert(coord_bits(Some((2int, 0int, 3int))) == (1u64 << 34u64));
}

proof fn edge_black_36()
    ensures
        edge_table(Color::Black, 36usize) == edge_neighbors_geo(36, Color::Black),
{
    reveal(edge_table);
    bv_edge_black();
    let c = field_at(36, Color::Black);
    assert(c == Some((-2int, 1int, 0int)));
    lemma_fold3(flip_spec(c), shift_spec(c, 1), shift_spec(c, -1));
    assert(flip_spec(c) == Some((-2int, 2int, 3int)));
    assert(coord_bits(Some((-2int, 2int, 3int))) == (1u64 << 49u64));
    assert(shift_spec(c, 1) == Some((-2int, 1int, 1int)));
    assert(coord_bits(Some((-2int, 1int, 1int))) == (1u64 << 36u64));
    assert(shift_spec(c, -1) == Some((-2int, 1int, 5int)));
    assert(coord_bits(Some((-2int, 1int, 5int))) == (1u64 << 38u64));
}

proof fn edge_black_37()
    ensures
        edge_table(Color::Black, 37usize) == edge_neighbors_geo(37, Color::Black),
{
    reveal(edge_table);
    bv_edge_black();
    let c = field_at(37, Color::Black);
    assert(c == Some((-2int, 1int, 2int)));
    lemma_fold3(flip_spec(c), shift_spec(c, 1), shift_spec(c, -1));
    assert(flip_spec(c) == Some((-1int, 0int, 5int)));
    assert(coord_bits(Some((-1int, 0int, 5int))) == (1u64 << 26u64));
    assert(shift_spec(c, 1) == Some((-2int, 1int, 3int)));
    assert(coord_bits(Some((-2int, 1int, 3int))) == (1u64 << 37u64));
    assert(shift_spec(c, -1) == Some((-2int, 1int, 1int)));
    assert(coord_bits(Some((-2int, 1int, 1int))) == (1u64 << 36u64));
}

proof fn edge_black_38()
    ensures
        edge_table(Color::Black, 38usize) == edge_neighbors_geo(38, Color::Black),
{
    reveal(edge_table);
    bv_edge_black();
    let c = field_at(38, Color::Black);
    assert(c == Some((-2int, 1int, 4int)));
    lemma_fold3(flip_spec(c), shift_spec(c, 1), shift_spec(c, -1));
    assert(flip_spec(c) == None::<(int, int, int)>);
    assert(shift_spec(c, 1) == Some((-2int, 1int, 5int)));
    assert(coord_bits(Some((-2int, 1int, 5int))) == (1u64 << 38u64));
    assert(shift_spec(c, -1) == Some((-2int, 1int, 3int)));
    assert(coord_bits(Some((-2int, 1int, 3int))) == (1u64 << 37u64));
}

proof fn edge_black_39()
    ensures
        edge_table(Color::Black, 39usize) == edge_neighbors_geo(39, Color::Black),
{
    reveal(edge_table);
    bv_edge_black();
    let c = field_at(39, Color::Black);
    assert(c == Some((-1int, 1int, 0int)));
    lemma_fold3(flip_spec(c), shift_spec(c, 1), shift_spec(c, -1));
    assert(flip_spec(c) == Some((-1int, 2int, 3int)));
    assert(coord_bits(Some((-1int, 2int, 3int))) == (1u64 << 52u64));
    assert(shift_spec(c, 1) == Some((-1int, 1int, 1int)));
    assert(coord_bits(Some((-1int, 1int, 1int))) == (1u64 << 39u64));
    assert(shift_spec(c, -1) == Some((-1int, 1int, 5int)));
    assert(coord_bits(Some((-1int, 1int, 5int))) == (1u64 << 41u64));
}

proof fn edge_black_40()
    ensures
        edge_table(Color::Black, 40usize) == edge_neighbors_geo(40, Color::Black),
{
    reveal(edge_table);
    bv_edge_black();
    let c = field_at(40, Color::Black);
    assert(c == Some((-1int, 1int, 2int)));
    lemma_fold3(flip_spec(c), shift_spec(c, 1), shift_spec(c, -1));
    assert(flip_spec(c) == Some((0int, 0int, 5int)));
    assert(coord_bits(Some((0int, 0int, 5int))) == (1u64 << 29u64));
    assert(shift_spec(c, 1) == Some((-1int, 1int, 3int)));
    assert(coord_bits(Some((-1int, 1int, 3int))) == (1u64 << 40u64));
    assert(shift_spec(c, -1) == Some((-1int, 1int, 1int)));
    assert(coord_bits(Some((-1int, 1int, 1int))) == (1u64 << 39u64));
}

proof fn edge_black_41()
    ensures
        edge_table(Color::Black, 41usize) == edge_neighbors_geo(41, Color::Black),
{
    reveal(edge_table);
    bv_edge_black();
    let c = field_at(41, Color::Black);
    assert(c == Some((-1int, 1int, 4int)));
    lemma_fold3(flip_spec(c), shift_spec(c, 1), shift_spec(c, -1));
    assert(flip_spec(c) == Some((-2int, 1int, 1int)));
    assert(coord_bits(Some((-2int, 1int, 1int))) == (1u64 << 36u64));
    assert(shift_spec(c, 1) == Some((-1int, 1int, 5int)));
    assert(coord_bits(Some((-1int, 1int, 5int))) == (1u64 << 41u64));
    assert(shift_spec(c, -1) == Some((-1int, 1int, 3int)));
    assert(coord_bits(Some((-1int, 1int, 3int))) == (1u64 << 40u64));
}

proof fn edge_black_42()
    ensures
        edge_table(Color::Black, 42usize) == edge_neighbors_geo(42, Color::Black),
{
    reveal(edge_table);
    bv_edge_black();
    let c = field_at(42, Color::Black);
    assert(c == Some((0int, 1int, 0int)));
    lemma_fold3(flip_spec(c), shift_spec(c, 1), shift_spec(c, -1));
    assert(flip_spec(c) == Some((0int, 2int, 3int)));
    assert(coord_bits(Some((0int, 2int, 3int))) == (1u64 << 55u64));
    assert(shift_spec(c, 1) == Some((0int, 1int, 1int)));
    assert(coord_bits(Some((0int, 1int, 1int))) == (1u64 << 42u64));
    assert(shift_spec(c, -1) == Some((0int, 1int, 5int)));
    assert(coord_bits(Some((0int, 1int, 5int))) == (1u64 << 44u64));
}

proof fn edge_black_43()
    ensures
        edge_table(Color::Black, 43usize) == edge_neighbors_geo(43, Color::Black),
{
    reveal(edge_table);
    bv_edge_black();
    let c = field_at(43, Color::Black);
    assert(c == Some((0int, 1int, 2int)));
    lemma_fold3(flip_spec(c), shift_spec(c, 1), shift_spec(c, -1));
    assert(flip_spec(c) == Some((1int, 0int, 5int)));
    assert(coord_bits(Some((1int, 0int, 5int))) == (1u64 << 32u64));
    assert(shift_spec(c, 1) == Some((0int, 1int, 3int)));
    assert(coord_bits(Some((0int, 1int, 3int))) == (1u64 << 43u64));
    assert(shift_spec(c, -1) == Some((0int, 1int, 1int)));
    assert(coord_bits(Some((0int, 1int, 1int))) == (1u64 << 42u64));
}

proof fn edge_black_44()
    ensures
        edge_table(Color::Black, 44usize) == edge_neighbors_geo(44, Color::Black),
{
    reveal(edge_table);
    bv_edge_black();
    let c = field_at(44, Color::Black);
    assert(c == Some((0int, 1int, 4int)));
    lemma_fold3(flip_spec(c), shift_spec(c, 1), shift_spec(c, -1));
    assert(flip_spec(c) == Some((-1int, 1int, 1int)));
    assert(coord_bits(Some((-1int, 1int, 1int))) == (1u64 << 39u64));
    assert(shift_spec(c, 1) == Some((0int, 1int, 5int)));
    assert(coord_bits(Some((0int, 1int, 5int))) == (1u64 << 44u64));
    assert(shift_spec(c, -1) == Some((0int, 1int, 3int)));
    assert(coord_bits(Some((0int, 1int, 3int))) == (1u64 << 43u64));
}

proof fn edge_black_45()
    ensures
        edge_table(Color::Black, 45usize) == edge_neighbors_geo(45, Color::Black),
{
    reveal(edge_table);
    bv_edge_black();
    let c = field_at(45, Color::Black);
    assert(c == Some((1int, 1int, 0int)));
    lemma_fold3(flip_spec(c), shift_spec(c, 1), shift_spec(c, -1));
    assert(flip_spec(c) == None::<(int, int, int)>);
    assert(shift_spec(c, 1) == Some((1int, 1int, 1int)));
    assert(coord_bits(Some((1int, 1int, 1int))) == (1u64 << 45u64));
    assert(shift_spec(c, -1) == Some((1int, 1int, 5int)));
    assert(coord_bits(Some((1int, 1int, 5int))) == (1u64 << 47u64));
}

proof fn edge_black_46()
    ensures
        edge_table(Color::Black, 46usize) == edge_neighbors_geo(46, Color::Black),
{
    reveal(edge_table);
    bv_edge_black();
    let c = field_at(46, Color::Black);
    assert(c == Some((1int, 1int, 2int)));
    lemma_fold3(flip_spec(c), shift_spec(c, 1), shift_spec(c, -1));
    assert(flip_spec(c) == Some((2int, 0int, 5int)));
    assert(coord_bits(Some((2int, 0int, 5int))) == (1u64 << 35u64));
    assert(shift_spec(c, 1) == Some((1int, 1int, 3int)));
    assert(coord_bits(Some((1int, 1int, 3int))) == (1u64 << 46u64));
    assert(shift_spec(c, -1) == Some((1int, 1int, 1int)));
    assert(coord_bits(Some((1int, 1int, 1int))) == (1u64 << 45u64));
}

proof fn edge_black_47()
    ensures
        edge_table(Color::Black, 47usize) == edge_neighbors_geo(47, Color::Black),
{
    reveal(edge_table);
    bv_edge_black();
    let c = field_at(47, Color::Black);
    assert(c == Some((1int, 1int, 4int)));
    lemma_fold3(flip_spec(c), shift_spec(c, 1), shift_spec(c, -1));
    assert(flip_spec(c) == Some((0int, 1int, 1int)));
    assert(coord_bits(Some((0int, 1int, 1int))) == (1u64 << 42u64));
    assert(shift_spec(c, 1) == Some((1int, 1int, 5int)));
    assert(coord_bits(Some((1int, 1int, 5int))) == (1u64 << 47u64));
    assert(shift_spec(c, -1) == Some((1int, 1int, 3int)));
    assert(coord_bits(Some((1int, 1int, 3int))) == (1u64 << 46u64));
}

proof fn edge_black_48()
    ensures
        edge_table(Color::Black, 48usize) == edge_neighbors_geo(48, Color::Black),
{
    reveal(edge_table);
    bv_edge_black();
    let c = field_at(48, Color::Black);
    assert(c == Some((-2int, 2int, 0int)));
    lemma_fold3(flip_spec(c), shift_spec(c, 1), shift_spec(c, -1));
    assert(flip_spec(c) == None::<(int, int, int)>);
    assert(shift_spec(c, 1) == Some((-2int, 2int, 1int)));
    assert(coord_bits(Some((-2int, 2int, 1int))) == (1u64 << 48u64));
    assert(shift_spec(c, -1) == Some((-2int, 2int, 5int)));
    assert(coord_bits(Some((-2int, 2int, 5int))) == (1u64 << 50u64));
}

proof fn edge_black_49()
    ensures
        edge_table(Color::Black, 49usize) == edge_neighbors_geo(49, Color::Black),
{
    reveal(edge_table);
    bv_edge_black();
    let c = field_at(49, Color::Black);
    assert(c == Some((-2int, 2int, 2int)));
    lemma_fold3(flip_spec(c), shift_spec(c, 1), shift_spec(c, -1));
    assert(flip_spec(c) == Some((-1int, 1int, 5int)));
    assert(coord_bits(Some((-1int, 1int, 5int))) == (1u64 << 41u64));
    assert(shift_spec(c, 1) == Some((-2int, 2int, 3int)));
    assert(coord_bits(Some((-2int, 2int, 3int))) == (1u64 << 49u64));
    assert(shift_spec(c, -1) == Some((-2int, 2int, 1int)));
    assert(coord_bits(Some((-2int, 2int, 1int))) == (1u64 << 48u64));
}

proof fn edge_black_50()
    ensures
        edge_table(Color::Black, 50usize) == edge_neighbors_geo(50, Color::Black),
{
    reveal(edge_table);
    bv_edge_black();
    let c = field_at(50, Color::Black);
    assert(c == Some((-2int, 2int, 4int)));
    lemma_fold3(flip_spec(c), shift_spec(c, 1), shift_spec(c, -1));
    assert(flip_spec(c) == None::<(int, int, int)>);
    assert(shift_spec(c, 1) == Some((-2int, 2int, 5int)));
    assert(coord_bits(Some((-2int, 2int, 5int))) == (1u64 << 50u64));
    assert(shift_spec(c, -1) == Some((-2int, 2int, 3int)));
    assert(coord_bits(Some((-2int, 2int, 3int))) == (1u64 << 49u64));
}

proof fn edge_black_51()
    ensures
        edge_table(Color::Black, 51usize) == edge_neighbors_geo(51, Color::Black),
{
    reveal(edge_table);
    bv_edge_black();
    let c = field_at(51, Color::Black);
    assert(c == Some((-1int, 2int, 0int)));
    lemma_fold3(flip_spec(c), shift_spec(c, 1), shift_spec(c, -1));
    assert(flip_spec(c) == None::<(int, int, int)>);
    assert(shift_spec(c, 1) == Some((-1int, 2int, 1int)));
    assert(coord_bits(Some((-1int, 2int, 1int))) == (1u64 << 51u64));
    assert(shift_spec(c, -1) == Some((-1int, 2int, 5int)));
    assert(coord_bits(Some((-1int, 2int, 5int))) == (1u64 << 53u64));
}

proof fn edge_black_52()
    ensures
        edge_table(Color::Black, 52usize) == edge_neighbors_geo(52, Color::Black),
{
    reveal(edge_table);
    bv_edge_black();
    let c = field_at(52, Color::Black);
    assert(c == Some((-1int, 2int, 2int)));
    lemma_fold3(flip_spec(c), shift_spec(c, 1), shift_spec(c, -1));
    assert(flip_spec(c) == Some((0int, 1int, 5int)));
    assert(coord_bits(Some((0int, 1int, 5int))) == (1u64 << 44u64));
    assert(shift_spec(c, 1) == Some((-1int, 2int, 3int)));
    assert(coord_bits(Some((-1int, 2int, 3int))) == (1u64 << 52u64));
    assert(shift_spec(c, -1) == Some((-1int, 2int, 1int)));
    assert(coord_bits(Some((-1int, 2int, 1int))) == (1u64 << 51u64));
}

proof fn edge_black_53()
    ensures
        edge_table(Color::Black, 53usize) == edge_neighbors_geo(53, Color::Black),
{
    reveal(edge_table);
    bv_edge_black();
    let c = field_at(53, Color::Black);
    assert(c == Some((-1int, 2int, 4int)));
    lemma_fold3(flip_spec(c), shift_spec(c, 1), shift_spec(c, -1));
    assert(flip_spec(c) == Some((-2int, 2int, 1int)));
    assert(coord_bits(Some((-2int, 2int, 1int))) == (1u64 << 48u64));
    assert(shift_spec(c, 1) == Some((-1int, 2int, 5int)));
    assert(coord_bits(Some((-1int, 2int, 5int))) == (1u64 << 53u64));
    assert(shift_spec(c, -1) == Some((-1int, 2int, 3int)));
    assert(coord_bits(Some((-1int, 2int, 3int))) == (1u64 << 52u64));
}

proof fn edge_black_54()
    ensures
        edge_table(Color::Black, 54usize) == edge_neighbors_geo(54, Color::Black),
{
    reveal(edge_table);
    bv_edge_black();
    let c = field_at(54, Color::Black);
    assert(c == Some((0int, 2int, 0int)));
    lemma_fold3(flip_spec(c), shift_spec(c, 1), shift_spec(c, -1));
    assert(flip_spec(c) == None::<(int, int, int)>);
    assert(shift_spec(c, 1) == Some((0int, 2int, 1int)));
    assert(coord_bits(Some((0int, 2int, 1int))) == (1u64 << 54u64));
    assert(shift_spec(c, -1) == Some((0int, 2int, 5int)));
    assert(coord_bits(Some((0int, 2int, 5int))) == (1u64 << 56u64));
}

proof fn edge_black_55()
    ensures
        edge_table(Color::Black, 55usize) == edge_neighbors_geo(55, Color::Black),
{
    reveal(edge_table);
    bv_edge_black();
    let c = field_at(55, Color::Black);
    assert(c == Some((0int, 2int, 2int)));
    lemma_fold3(flip_spec(c), shift_spec(c, 1), shift_spec(c, -1));
    assert(flip_spec(c) == Some((1int, 1int, 5int)));
    assert(coord_bits(Some((1int, 1int, 5int))) == (1u64 << 47u64));
    assert(shift_spec(c, 1) == Some((0int, 2int, 3int)));
    assert(coord_bits(Some((0int, 2int, 3int))) == (1u64 << 55u64));
    assert(shift_spec(c, -1) == Some((0int, 2int, 1int)));
    assert(coord_bits(Some((0int, 2int, 1int))) == (1u64 << 54u64));
}

proof fn edge_black_56()
    ensures
        edge_table(Color::Black, 56usize) == edge_neighbors_geo(56, Color::Black),
{
    reveal(edge_table);
    bv_edge_black();
    let c = field_at(56, Color::Black);
    assert(c == Some((0int, 2int, 4int)));
    lemma_fold3(flip_spec(c), shift_spec(c, 1), shift_spec(c, -1));
    assert(flip_spec(c) == Some((-1int, 2int, 1int)));
    assert(coord_bits(Some((-1int, 2int, 1int))) == (1u64 << 51u64));
    assert(shift_spec(c, 1) == Some((0int, 2int, 5int)));
    assert(coord_bits(Some((0int, 2int, 5int))) == (1u64 << 56u64));
    assert(shift_spec(c, -1) == Some((0int, 2int, 3int)));
    assert(coord_bits(Some((0int, 2int, 3int))) == (1u64 << 55u64));
}

/// Entry `i` of the edge table of black fields is the geometry.
pub proof fn lemma_edge_black(i: int)
    requires
        0 <= i < 57,
    ensures
        edge_table(Color::Black, i as usize) == edge_neighbors_geo(i, Color::Black),
{
    if i == 0 {
        edge_black_0();
    }
    if i == 1 {
        edge_black_1();
    }
    if i == 2 {
        edge_black_2();
    }
    if i == 3 {
        edge_black_3();
    }
    if i == 4 {
        edge_black_4();
    }
    if i == 5 {
        edge_black_5();
    }
    if i == 6 {
        edge_black_6();
    }
    if i == 7 {
        edge_black_7();
    }
    if i == 8 {
        edge_black_8();
    }
    if i == 9 {
        edge_black_9();
    }
    if i == 10 {
        edge_black_10();
    }
    if i == 11 {
        edge_black_11();
    }
    if i == 12 {
        edge_black_12();
    }
    if i == 13 {
        edge_black_13();
    }
    if i == 14 {
        edge_black_14();
    }
    if i == 15 {
        edge_black_15();
    }
    if i == 16 {
        edge_black_16();
    }
    if i == 17 {
        edge_black_17();
    }
    if i == 18 {
        edge_black_18();
    }
    if i == 19 {
        edge_black_19();
    }
    if i == 20 {
        edge_black_20();
    }
    if i == 21 {
        edge_black_21();
    }
    if i == 22 {
        edge_black_22();
    }
    if i == 23 {
        edge_black_23();
    }
    if i == 24 {
        edge_black_24();
    }
    if i == 25 {
        edge_black_25();
    }
    if i == 26 {
        edge_black_26();
    }
    if i == 27 {
        edge_black_27();
    }
    if i == 28 {
        edge_black_28();
    }
    if i == 29 {
        edge_black_29();
    }
    if i == 30 {
        edge_black_30();
    }
    if i == 31 {
        edge_black_31();
    }
    if i == 32 {
        edge_black_32();
    }
    if i == 33 {
        edge_black_33();
    }
    if i == 34 {
        edge_black_34();
    }
    if i == 35 {
        edge_black_35();
    }
    if i == 36 {
        edge_black_36();
    }
    if i == 37 {
        edge_black_37();
    }
    if i == 38 {
        edge_black_38();
    }
    if i == 39 {
        edge_black_39();
    }
    if i == 40 {
        edge_black_40();
    }
    if i == 41 {
        edge_black_41();
    }
    if i == 42 {
        edge_black_42();
    }
    if i == 43 {
        edge_black_43();
    }
    if i == 44 {
        edge_black_44();
    }
    if i == 45 {
        edge_black_45();
    }
    if i == 46 {
        edge_black_46();
    }
    if i == 47 {
        edge_black_47();
    }
    if i == 48 {
        edge_black_48();
    }
    if i == 49 {
        edge_black_49();
    }
    if i == 50 {
        edge_black_50();
    }
    if i == 51 {
        edge_black_51();
    }
    if i == 52 {
        edge_black_52();
    }
    if i == 53 {
        edge_black_53();
    }
    if i == 54 {
        edge_black_54();
    }
    if i == 55 {
        edge_black_55();
    }
    if i == 56 {
        edge_black_56();
    }
}

proof fn bv_vertex_white()
    by (bit_vector)
    ensures
        8246u64 == ((((((0u64 | (1u64 << 5u64)) | (1u64 << 4u64)) | 0u64) | (1u64 << 13u64)) | (1u64 << 1u64)) | (1u64 << 2u64)),
        5u64 == ((((((0u64 | 0u64) | 0u64) | 0u64) | 0u64) | (1u64 << 2u64)) | (1u64 << 0u64)),
        9731u64 == ((((((0u64 | (1u64 << 10u64)) | (1u64 << 9u64)) | (1u64 << 13u64)) | 0u64) | (1u64 << 0u64)) | (1u64 << 1u64)),
        65968u64 == ((((((0u64 | (1u64 << 8u64)) | (1u64 << 7u64)) | 0u64) | (1u64 << 16u64)) | (1u64 << 4u64)) | (1u64 << 5u64)),
        41u64 == ((((((0u64 | 0u64) | 0u64) | (1u64 << 0u64)) | 0u64) | (1u64 << 5u64)) | (1u64 << 3u64)),
        77849u64 == ((((((0u64 | (1u64 << 13u64)) | (1u64 << 12u64)) | (1u64 << 16u64)) | (1u64 << 0u64)) | (1u64 << 3u64)) | (1u64 << 4u64)),
        524672u64 == ((((((0u64 | 0u64) | 0u64) | 0u64) | (1u64 << 19u64)) | (1u64 << 7u64)) | (1u64 << 8u64)),
        328u64 == ((((((0u64 | 0u64) | 0u64) | (1u64 << 3u64)) | 0u64) | (1u64 << 8u64)) | (1u64 << 6u64)),
        622792u64 == ((((((0u64 | (1u64 << 16u64)) | (1u64 << 15u64)) | (1u64 << 19u64)) | (1u64 << 3u64)) | (1u64 << 6u64)) | (1u64 << 7u64)),
        33582084u64 == ((((((0u64 | (1u64 << 14u64)) | (1u64 << 13u64)) | (1u64 << 2u64)) | (1u64 << 25u64)) | (1u64 << 10u64)) | (1u64 << 11u64)),
        2564u64 == ((((((0u64 | 0u64) | 0u64) | 0u64) | (1u64 << 2u64)) | (1u64 << 11u64)) | (1u64 << 9u64)),
        39847424u64 == ((((((0u64 | (1u64 << 22u64)) | (1u64 << 21u64)) | (1u64 << 25u64)) | 0u64) | (1u64 << 9u64)) | (1u64 << 10u64)),
        268656672u64 == ((((((0u64 | (1u64 << 17u64)) | (1u64 << 16u64)) | (1u64 << 5u64)) | (1u64 << 28u64)) | (1u64 << 13u64)) | (1u64 << 14u64)),
        21029u64 == ((((((0u64 | (1u64 << 0u64)) | (1u64 << 2u64)) | (1u64 << 9u64)) | (1u64 << 5u64)) | (1u64 << 14u64)) | (1u64 << 12u64)),
        318779904u64 == ((((((0u64 | (1u64 << 25u64)) | (1u64 << 24u64)) | (1u64 << 28u64)) | (1u64 << 9u64)) | (1u64 << 12u64)) | (1u64 << 13u64)),
        2149253376u64 == ((((((0u64 | (1u64 << 20u64)) | (1u64 << 19u64)) | (1u64 << 8u64)) | (1u64 << 31u64)) | (1u64 << 16u64)) | (1u64 << 17u64)),
        168232u64 == ((((((0u64 | (1u64 << 3u64)) | (1u64 << 5u64)) | (1u64 << 12u64)) | (1u64 << 8u64)) | (1u64 << 17u64)) | (1u64 << 15u64)),
        2550239232u64 == ((((((0u64 | (1u64 << 28u64)) | (1u64 << 27u64)) | (1u64 << 31u64)) | (1u64 << 12u64)) | (1u64 << 15u64)) | (1u64 << 16u64)),
        17181442048u64 == ((((((0u64 | 0u64) | 0u64) | 0u64) | (1u64 << 34u64)) | (1u64 << 19u64)) | (1u64 << 20u64)),
        1343808u64 == ((((((0u64 | (1u64 << 6u64)) | (1u64 << 8u64)) | (1u64 << 15u64)) | 0u64) | (1u64 << 20u64)) | (1u64 << 18u64)),
        20401913856u64 == ((((((0u64 | (1u64 << 31u64)) | (1u64 << 30u64)) | (1u64 << 34u64)) | (1u64 << 15u64)) | (1u64 << 18u64)) | (1u64 << 19u64)),
        137552201728u64 == ((((((0u64 | (1u64 << 26u64)) | (1u64 << 25u64)) | (1u64 << 11u64)) | (1u64 << 37u64)) | (1u64 << 22u64)) | (1u64 << 23u64)),
        10487808u64 == ((((((0u64 | 0u64) | 0u64) | 0u64) | (1u64 << 11u64)) | (1u64 << 23u64)) | (1u64 << 21u64)),
        137445244928u64 == ((((((0u64 | 0u64) | 0u64) | (1u64 << 37u64)) | 0u64) | (1u64 << 21u64)) | (1u64 << 22u64)),
        1100417613824u64 == ((((((0u64 | (1u64 << 29u64)) | (1u64 << 28u64)) | (1u64 << 14u64)) | (1u64 << 40u64)) | (1u64 << 25u64)) | (1u64 << 26u64)),
        86002176u64 == ((((((0u64 | (1u64 << 9u64)) | (1u64 << 11u64)) | (1u64 << 21u64)) | (1u64 << 14u64)) | (1u64 << 26u64)) | (1u64 << 24u64)),
        1305722486784u64 == ((((((0u64 | (1u64 << 37u64)) | (1u64 << 36u64)) | (1u64 << 40u64)) | (1u64 << 21u64)) | (1u64 << 24u64)) | (1u64 << 25u64)),
        8803340910592u64 == ((((((0u64 | (1u64 << 32u64)) | (1u64 << 31u64)) | (1u64 << 17u64)) | (1u64 << 43u64)) | (1u64 << 28u64)) | (1u64 << 29u64)),
        688017408u64 == ((((((0u64 | (1u64 << 12u64)) | (1u64 << 14u64)) | (1u64 << 24u64)) | (1u64 << 17u64)) | (1u64 << 29u64)) | (1u64 << 27u64)),
        10445779894272u64 == ((((((0u64 | (1u64 << 40u64)) | (1u64 << 39u64)) | (1u64 << 43u64)) | (1u64 << 24u64)) | (1u64 << 27u64)) | (1u64 << 28u64)),
        70426727284736u64 == ((((((0u64 | (1u64 << 35u64)) | (1u64 << 34u64)) | (1u64 << 20u64)) | (1u64 << 46u64)) | (1u64 << 31u64)) | (1u64 << 32u64)),
        5504139264u64 == ((((((0u64 | (1u64 << 15u64)) | (1u64 << 17u64)) | (1u64 << 27u64)) | (1u64 << 20u64)) | (1u64 << 32u64)) | (1u64 << 30u64)),
        83566239154176u64 == ((((((0u64 | (1u64 << 43u64)) | (1u64 << 42u64)) | (1u64 << 46u64)) | (1u64 << 27u64)) | (1u64 << 30u64)) | (1u64 << 31u64)),
        51539607552u64 == ((((((0u64 | 0u64) | 0u64) | 0u64) | 0u64) | (1u64 << 34u64)) | (1u64 << 35u64)),
        44024725504u64 == ((((((0u64 | (1u64 << 18u64)) | (1u64 << 20u64)) | (1u64 << 30u64)) | 0u64) | (1u64 << 35u64)) | (1u64 << 33u64)),
        105579959812096u64 == ((((((0u64 | (1u64 << 46u64)) | (1u64 << 45u64)) | 0u64) | (1u64 << 30u64)) | (1u64 << 33u64)) | (1u64 << 34u64)),
        566660872273920u64 == ((((((0u64 | (1u64 << 41u64)) | (1u64 << 40u64)) | (1u64 << 26u64)) | (1u64 << 49u64)) | (1u64 << 37u64)) | (1u64 << 38u64)),
        343674978304u64 == ((((((0u64 | (1u64 << 21u64)) | (1u64 << 23u64)) | 0u64) | (1u64 << 26u64)) | (1u64 << 38u64)) | (1u64 << 36u64)),
        563156111851520u64 == ((((((0u64 | 0u64) | 0u64) | (1u64 << 49u64)) | 0u64) | (1u64 << 36u64)) | (1u64 << 37u64)),
        4533286978191360u64 == ((((((0u64 | (1u64 << 44u64)) | (1u64 << 43u64)) | (1u64 << 29u64)) | (1u64 << 52u64)) | (1u64 << 40u64)) | (1u64 << 41u64)),
        2818119303168u64 == ((((((0u64 | (1u64 << 24u64)) | (1u64 << 26u64)) | (1u64 << 36u64)) | (1u64 << 29u64)) | (1u64 << 41u64)) | (1u64 << 39u64)),
        5349742544420864u64 == ((((((0u64 | (1u64 << 49u64)) | (1u64 << 48u64)) | (1u64 << 52u64)) | (1u64 << 36u64)) | (1u64 << 39u64)) | (1u64 << 40u64)),
        36266295825530880u64 == ((((((0u64 | (1u64 << 47u64)) | (1u64 << 46u64)) | (1u64 << 32u64)) | (1u64 << 55u64)) | (1u64 << 43u64)) | (1u64 << 44u64)),
        22544954425344u64 == ((((((0u64 | (1u64 << 27u64)) | (1u64 << 29u64)) | (1u64 << 39u64)) | (1u64 << 32u64)) | (1u64 << 44u64)) | (1u64 << 42u64)),
        42797940355366912u64 == ((((((0u64 | (1u64 << 52u64)) | (1u64 << 51u64)) | (1u64 << 55u64)) | (1u64 << 39u64)) | (1u64 << 42u64)) | (1u64 << 43u64)),
        211140592271360u64 == ((((((0u64 | 0u64) | 0u64) | (1u64 << 35u64)) | 0u64) | (1u64 << 46u64)) | (1u64 << 47u64)),
        180359635402752u64 == ((((((0u64 | (1u64 << 30u64)) | (1u64 << 32u64)) | (1u64 << 42u64)) | (1u64 << 35u64)) | (1u64 << 47u64)) | (1u64 << 45u64)),
        54153146691223552u64 == ((((((0u64 | (1u64 << 55u64)) | (1u64 << 54u64)) | 0u64) | (1u64 << 42u64)) | (1u64 << 45u64)) | (1u64 << 46u64)),
        15201847765630976u64 == ((((((0u64 | (1u64 << 53u64)) | (1u64 << 52u64)) | (1u64 << 41u64)) | 0u64) | (1u64 << 49u64)) | (1u64 << 50u64)),
        1409917504192512u64 == ((((((0u64 | (1u64 << 36u64)) | (1u64 << 38u64)) | 0u64) | (1u64 << 41u64)) | (1u64 << 50u64)) | (1u64 << 48u64)),
        844424930131968u64 == ((((((0u64 | 0u64) | 0u64) | 0u64) | 0u64) | (1u64 << 48u64)) | (1u64 << 49u64)),
        121614782125047808u64 == ((((((0u64 | (1u64 << 56u64)) | (1u64 << 55u64)) | (1u64 << 44u64)) | 0u64) | (1u64 << 52u64)) | (1u64 << 53u64)),
        11560815010250752u64 == ((((((0u64 | (1u64 << 39u64)) | (1u64 << 41u64)) | (1u64 << 48u64)) | (1u64 << 44u64)) | (1u64 << 53u64)) | (1u64 << 51u64)),
        7036874417766400u64 == ((((((0u64 | 0u64) | 0u64) | 0u64) | (1u64 << 48u64)) | (1u64 << 51u64)) | (1u64 << 52u64)),
        108227128545247232u64 == ((((((0u64 | 0u64) | 0u64) | (1u64 << 47u64)) | 0u64) | (1u64 << 55u64)) | (1u64 << 56u64)),
        92486520082006016u64 == ((((((0u64 | (1u64 << 42u64)) | (1u64 << 44u64)) | (1u64 << 51u64)) | (1u64 << 47u64)) | (1u64 << 56u64)) | (1u64 << 54u64)),
        56294995342131200u64 == ((((((0u64 | 0u64) | 0u64) | 0u64) | (1u64 << 51u64)) | (1u64 << 54u64)) | (1u64 << 55u64)),
{
}

proof fn vertex_white_0()
    ensures
        vertex_table(Color::White, 0usize) == vertex_neighbors_geo(0, Color::White),
{
    reveal(vertex_table);
    bv_vertex_white();
    let c = field_at(0, Color::White);
    assert(c == Some((0int, -2int, 1int)));
    lemma_fold6(shift_spec(flip_spec(c), 1), shift_spec(flip_spec(c), -1), flip_spec(shift_spec(c, 1)), flip_spec(shift_spec(c, -1)), shift_spec(c, 2), shift_spec(c, -2));
    assert(shift_spec(flip_spec(c), 1) == Some((1int, -2int, 5int)));
    assert(coord_bits(Some((1int, -2int, 5int))) == (1u64 << 5u64));
    assert(shift_spec(flip_spec(c), -1) == Some((1int, -2int, 3int)));
    assert(coord_bits(Some((1int, -2int, 3int))) == (1u64 << 4u64));
    assert(flip_spec(shift_spec(c, 1)) == None::<(int, int, int)>);
    assert(flip_spec(shift_spec(c, -1)) == Some((0int, -1int, 3int)));
    assert(coord_bits(Some((0int, -1int, 3int))) == (1u64 << 13u64));
    assert(shift_spec(c, 2) == Some((0int, -2int, 3int)));
    assert(coord_bits(Some((0int, -2int, 3int))) == (1u64 << 1u64));
    assert(shift_spec(c, -2) == Some((0int, -2int, 5int)));
    assert(coord_bits(Some((0int, -2int, 5int))) == (1u64 << 2u64));
}

proof fn vertex_white_1()
    ensures
        vertex_table(Color::White, 1usize) == vertex_neighbors_geo(1, Color::White),
{
    reveal(vertex_table);
    bv_vertex_white();
    let c = field_at(1, Color::White);
    assert(c == Some((0int, -2int, 3int)));
    lemma_fold6(shift_spec(flip_spec(c), 1), shift_spec(flip_spec(c), -1), flip_spec(shift_spec(c, 1)), flip_spec(shift_spec(c, -1)), shift_spec(c, 2), shift_spec(c, -2));
    assert(shift_spec(flip_spec(c), 1) == None::<(int, int, int)>);
    assert(shift_spec(flip_spec(c), -1) == None::<(int, int, int)>);
    assert(flip_spec(shift_spec(c, 1)) == None::<(int, int, int)>);
    assert(flip_spec(shift_spec(c, -1)) == None::<(int, int, int)>);
    assert(shift_spec(c, 2) == Some((0int, -2int, 5int)));
    assert(coord_bits(Some((0int, -2int, 5int))) == (1u64 << 2u64));
    assert(shift_spec(c, -2) == Some((0int, -2int, 1int)));
    assert(coord_bits(Some((0int, -2int, 1int))) == (1u64 << 0u64));
}

proof fn vertex_white_2()
    ensures
        vertex_table(Color::White, 2usize) == vertex_neighbors_geo(2, Color::White),
{
    reveal(vertex_table);
    bv_vertex_white();
    let c = field_at(2, Color::White);
    assert(c == Some((0int, -2int, 5int)));
    lemma_fold6(shift_spec(flip_spec(c), 1), shift_spec(flip_spec(c), -1), flip_spec(shift_spec(c, 1)), flip_spec(shift_spec(c, -1)), shift_spec(c, 2), shift_spec(c, -2));
    assert(shift_spec(flip_spec(c), 1) == Some((-1int, -1int, 3int)));
    assert(coord_bits(Some((-1int, -1int, 3int))) == (1u64 << 10u64));
    assert(shift_spec(flip_spec(c), -1) == Some((-1int, -1int, 1int)));
    assert(coord_bits(Some((-1int, -1int, 1int))) == (1u64 << 9u64));
    assert(flip_spec(shift_spec(c, 1)) == Some((0int, -1int, 3int)));
    assert(coord_bits(Some((0int, -1int, 3int))) == (1u64 << 13u64));
    assert(flip_spec(shift_spec(c, -1)) == None::<(int, int, int)>);
    assert(shift_spec(c, 2) == Some((0int, -2int, 1int)));
    assert(coord_bits(Some((0int, -2int, 1int))) == (1u64 << 0u64));
    assert(shift_spec(c, -2) == Some((0int, -2int, 3int)));
    assert(coord_bits(Some((0int, -2int, 3int))) == (1u64 << 1u64));
}

proof fn vertex_white_3()
    ensures
        vertex_table(Color::White, 3usize) == vertex_neighbors_geo(3, Color::White),
{
    reveal(vertex_table);
    bv_vertex_white();
    let c = field_at(3, Color::White);
    assert(c == Some((1int, -2int, 1int)));
    lemma_fold6(shift_spec(flip_spec(c), 1), shift_spec(flip_spec(c), -1), flip_spec(shift_spec(c, 1)), flip_spec(shift_spec(c, -1)), shift_spec(c, 2), shift_spec(c, -2));
    assert(shift_spec(flip_spec(c), 1) == Some((2int, -2int, 5int)));
    assert(coord_bits(Some((2int, -2int, 5int))) == (1u64 << 8u64));
    assert(shift_spec(flip_spec(c), -1) == Some((2int, -2int, 3int)));
    assert(coord_bits(Some((2int, -2int, 3int))) == (1u64 << 7u64));
    assert(flip_spec(shift_spec(c, 1)) == None::<(int, int, int)>);
    assert(flip_spec(shift_spec(c, -1)) == Some((1int, -1int, 3int)));
    assert(coord_bits(Some((1int, -1int, 3int))) == (1u64 << 16u64));
    assert(shift_spec(c, 2) == Some((1int, -2int, 3int)));
    assert(coord_bits(Some((1int, -2int, 3int))) == (1u64 << 4u64));
    assert(shift_spec(c, -2) == Some((1int, -2int, 5int)));
    assert(coord_bits(Some((1int, -2int, 5int))) == (1u64 << 5u64));
}

proof fn vertex_white_4()
    ensures
        vertex_table(Color::White, 4usize) == vertex_neighbors_geo(4, Color::White),
{
    reveal(vertex_table);
    bv_vertex_white();
    let c = field_at(4, Color::White);
    assert(c == Some((1int, -2int, 3int)));
    lemma_fold6(shift_spec(flip_spec(c), 1), shift_spec(flip_spec(c), -1), flip_spec(shift_spec(c, 1)), flip_spec(shift_spec(c, -1)), shift_spec(c, 2), shift_spec(c, -2));
    assert(shift_spec(flip_spec(c), 1) == None::<(int, int, int)>);
    assert(shift_spec(flip_spec(c), -1) == None::<(int, int, int)>);
    assert(flip_spec(shift_spec(c, 1)) == Some((0int, -2int, 1int)));
    assert(coord_bits(Some((0int, -2int, 1int))) == (1u64 << 0u64));
    assert(flip_spec(shift_spec(c, -1)) == None::<(int, int, int)>);
    assert(shift_spec(c, 2) == Some((1int, -2int, 5int)));
    assert(coord_bits(Some((1int, -2int, 5int))) == (1u64 << 5u64));
    assert(shift_spec(c, -2) == Some((1int, -2int, 1int)));
    assert(coord_bits(Some((1int, -2int, 1int))) == (1u64 << 3u64));
}

proof fn vertex_white_5()
    ensures
        vertex_table(Color::White, 5usize) == vertex_neighbors_geo(5, Color::White),
{
    reveal(vertex_table);
    bv_vertex_white();
    let c = field_at(5, Color::White);
    assert(c == Some((1int, -2int, 5int)));
    lemma_fold6(shift_spec(flip_spec(c), 1), shift_spec(flip_spec(c), -1), flip_spec(shift_spec(c, 1)), flip_spec(shift_spec(c, -1)), shift_spec(c, 2), shift_spec(c, -2));
    assert(shift_spec(flip_spec(c), 1) == Some((0int, -1int, 3int)));
    assert(coord_bits(Some((0int, -1int, 3int))) == (1u64 << 13u64));
    assert(shift_spec(flip_spec(c), -1) == Some((0int, -1int, 1int)));
    assert(coord_bits(Some((0int, -1int, 1int))) == (1u64 << 12u64));
    assert(flip_spec(shift_spec(c, 1)) == Some((1int, -1int, 3int)));
    assert(coord_bits(Some((1int, -1int, 3int))) == (1u64 << 16u64));
    assert(flip_spec(shift_spec(c, -1)) == Some((0int, -2int, 1int)));
    assert(coord_bits(Some((0int, -2int, 1int))) == (1u64 << 0u64));
    assert(shift_spec(c, 2) == Some((1int, -2int, 1int)));
    assert(coord_bits(Some((1int, -2int, 1int))) == (1u64 << 3u64));
    assert(shift_spec(c, -2) == Some((1int, -2int, 3int)));
    assert(coord_bits(Some((1int, -2int, 3int))) == (1u64 << 4u64));
}

proof fn vertex_white_6()
    ensures
        vertex_table(Color::White, 6usize) == vertex_neighbors_geo(6, Color::White),
{
    reveal(vertex_table);
    bv_vertex_white();
    let c = field_at(6, Color::White);
    assert(c == Some((2int, -2int, 1int)));
    lemma_fold6(shift_spec(flip_spec(c), 1), shift_spec(flip_spec(c), -1), flip_spec(shift_spec(c, 1)), flip_spec(shift_spec(c, -1)), shift_spec(c, 2), shift_spec(c, -2));
    assert(shift_spec(flip_spec(c), 1) == None::<(int, int, int)>);
    assert(shift_spec(flip_spec(c), -1) == None::<(int, int, int)>);
    assert(flip_spec(shift_spec(c, 1)) == None::<(int, int, int)>);
    assert(flip_spec(shift_spec(c, -1)) == Some((2int, -1int, 3int)));
    assert(coord_bits(Some((2int, -1int, 3int))) == (1u64 << 19u64));
    assert(shift_spec(c, 2) == Some((2int, -2int, 3int)));
    assert(coord_bits(Some((2int, -2int, 3int))) == (1u64 << 7u64));
    assert(shift_spec(c, -2) == Some((2int, -2int, 5int)));
    assert(coord_bits(Some((2int, -2int, 5int))) == (1u64 << 8u64));
}

proof fn vertex_white_7()
    ensures
        vertex_table(Color::White, 7usize) == vertex_neighbors_geo(7, Color::White),
{
    reveal(vertex_table);
    bv_vertex_white();
    let c = field_at(7, Color::White);
    assert(c == Some((2int, -2int, 3int)));
    lemma_fold6(shift_spec(flip_spec(c), 1), shift_spec(flip_spec(c), -1), flip_spec(shift_spec(c, 1)), flip_spec(shift_spec(c, -1)), shift_spec(c, 2), shift_spec(c, -2));
    assert(shift_spec(flip_spec(c), 1) == None::<(int, int, int)>);
    assert(shift_spec(flip_spec(c), -1) == None::<(int, int, int)>);
    assert(flip_spec(shift_spec(c, 1)) == Some((1int, -2int, 1int)));
    assert(coord_bits(Some((1int, -2int, 1int))) == (1u64 << 3u64));
    assert(flip_spec(shift_spec(c, -1)) == None::<(int, int, int)>);
    assert(shift_spec(c, 2) == Some((2int, -2int, 5int)));
    assert(coord_bits(Some((2int, -2int, 5int))) == (1u64 << 8u64));
    assert(shift_spec(c, -2) == Some((2int, -2int, 1int)));
    assert(coord_bits(Some((2int, -2int, 1int))) == (1u64 << 6u64));
}

proof fn vertex_white_8()
    ensures
        vertex_table(Color::White, 8usize) == vertex_neighbors_geo(8, Color::White),
{
    reveal(vertex_table);
    bv_vertex_white();
    let c = field_at(8, Color::White);
    assert(c == Some((2int, -2int, 5int)));
    lemma_fold6(shift_spec(flip_spec(c), 1), shift_spec(flip_spec(c), -1), flip_spec(shift_spec(c, 1)), flip_spec(shift_spec(c, -1)), shift_spec(c, 2), shift_spec(c, -2));
    assert(shift_spec(flip_spec(c), 1) == Some((1int, -1int, 3int)));
    assert(coord_bits(Some((1int, -1int, 3int))) == (1u64 << 16u64));
    assert(shift_spec(flip_spec(c), -1) == Some((1int, -1int, 1int)));
    assert(coord_bits(Some((1int, -1int, 1int))) == (1u64 << 15u64));
    assert(flip_spec(shift_spec(c, 1)) == Some((2int, -1int, 3int)));
    assert(coord_bits(Some((2int, -1int, 3int))) == (1u64 << 19u64));
    assert(flip_spec(shift_spec(c, -1)) == Some((1int, -2int, 1int)));
    assert(coord_bits(Some((1int, -2int, 1int))) == (1u64 << 3u64));
    assert(shift_spec(c, 2) == Some((2int, -2int, 1int)));
    assert(coord_bits(Some((2int, -2int, 1int))) == (1u64 << 6u64));
    assert(shift_spec(c, -2) == Some((2int, -2int, 3int)));
    assert(coord_bits(Some((2int, -2int, 3int))) == (1u64 << 7u64));
}

proof fn vertex_white_9()
    ensures
        vertex_table(Color::White, 9usize) == vertex_neighbors_geo(9, Color::White),
{
    reveal(vertex_table);
    bv_vertex_white();
    let c = field_at(9, Color::White);
    assert(c == Some((-1int, -1int, 1int)));
    lemma_fold6(shift_spec(flip_spec(c), 1), shift_spec(flip_spec(c), -1), flip_spec(shift_spec(c, 1)), flip_spec(shift_spec(c, -1)), shift_spec(c, 2), shift_spec(c, -2));
    assert(shift_spec(flip_spec(c), 1) == Some((0int, -1int, 5int)));
    assert(coord_bits(Some((0int, -1int, 5int))) == (1u64 << 14u64));
    assert(shift_spec(flip_spec(c), -1) == Some((0int, -1int, 3int)));
    assert(coord_bits(Some((0int, -1int, 3int))) == (1u64 << 13u64));
    assert(flip_spec(shift_spec(c, 1)) == Some((0int, -2int, 5int)));
    assert(coord_bits(Some((0int, -2int, 5int))) == (1u64 << 2u64));
    assert(flip_spec(shift_spec(c, -1)) == Some((-1int, 0int, 3int)));
    assert(coord_bits(Some((-1int, 0int, 3int))) == (1u64 << 25u64));
    assert(shift_spec(c, 2) == Some((-1int, -1int, 3int)));
    assert(coord_bits(Some((-1int, -1int, 3int))) == (1u64 << 10u64));
    assert(shift_spec(c, -2) == Some((-1int, -1int, 5int)));
    assert(coord_bits(Some((-1int, -1int, 5int))) == (1u64 << 11u64));
}

proof fn vertex_white_10()
    ensures
        vertex_table(Color::White, 10usize) == vertex_neighbors_geo(10, Color::White),
{
    reveal(vertex_table);
    bv_vertex_white();
    let c = field_at(10, Color::White);
    assert(c == Some((-1int, -1int, 3int)));
    lemma_fold6(shift_spec(flip_spec(c), 1), shift_spec(flip_spec(c), -1), flip_spec(shift_spec(c, 1)), flip_spec(shift_spec(c, -1)), shift_spec(c, 2), shift_spec(c, -2));
    assert(shift_spec(flip_spec(c), 1) == None::<(int, int, int)>);
    assert(shift_spec(flip_spec(c), -1) == None::<(int, int, int)>);
    assert(flip_spec(shift_spec(c, 1)) == None::<(int, int, int)>);
    assert(flip_spec(shift_spec(c, -1)) == Some((0int, -2int, 5int)));
    assert(coord_bits(Some((0int, -2int, 5int))) == (1u64 << 2u64));
    assert(shift_spec(c, 2) == Some((-1int, -1int, 5int)));
    assert(coord_bits(Some((-1int, -1int, 5int))) == (1u64 << 11u64));
    assert(shift_spec(c, -2) == Some((-1int, -1int, 1int)));
    assert(coord_bits(Some((-1int, -1int, 1int))) == (1u64 << 9u64));
}

proof fn vertex_white_11()
    ensures
        vertex_table(Color::White, 11usize) == vertex_neighbors_geo(11, Color::White),
{
    reveal(vertex_table);
    bv_vertex_white();
    let c = field_at(11, Color::White);
    assert(c == Some((-1int, -1int, 5int)));
    lemma_fold6(shift_spec(flip_spec(c), 1), shift_spec(flip_spec(c), -1), flip_spec(shift_spec(c, 1)), flip_spec(shift_spec(c, -1)), shift_spec(c, 2), shift_spec(c, -2));
    assert(shift_spec(flip_spec(c), 1) == Some((-2int, 0int, 3int)));
    assert(coord_bits(Some((-2int, 0int, 3int))) == (1u64 << 22u64));
    assert(shift_spec(flip_spec(c), -1) == Some((-2int, 0int, 1int)));
    assert(coord_bits(Some((-2int, 0int, 1int))) == (1u64 << 21u64));
    assert(flip_spec(shift_spec(c, 1)) == Some((-1int, 0int, 3int)));
    assert(coord_bits(Some((-1int, 0int, 3int))) == (1u64 << 25u64));
    assert(flip_spec(shift_spec(c, -1)) == None::<(int, int, int)>);
    assert(shift_spec(c, 2) == Some((-1int, -1int, 1int)));
    assert(coord_bits(Some((-1int, -1int, 1int))) == (1u64 << 9u64));
    assert(shift_spec(c, -2) == Some((-1int, -1int, 3int)));
    assert(coord_bits(Some((-1int, -1int, 3int))) == (1u64 << 10u64));
}

proof fn vertex_white_12()
    ensures
        vertex_table(Color::White, 12usize) == vertex_neighbors_geo(12, Color::White),
{
    reveal(vertex_table);
    bv_vertex_white();
    let c = field_at(12, Color::White);
    assert(c == Some((0int, -1int, 1int)));
    lemma_fold6(shift_spec(flip_spec(c), 1), shift_spec(flip_spec(c), -1), flip_spec(shift_spec(c, 1)), flip_spec(shift_spec(c, -1)), shift_spec(c, 2), shift_spec(c, -2));
    assert(shift_spec(flip_spec(c), 1) == Some((1int, -1int, 5int)));
    assert(coord_bits(Some((1int, -1int, 5int))) == (1u64 << 17u64));
    assert(shift_spec(flip_spec(c), -1) == Some((1int, -1int, 3int)));
    assert(coord_bits(Some((1int, -1int, 3int))) == (1u64 << 16u64));
    assert(flip_spec(shift_spec(c, 1)) == Some((1int, -2int, 5int)));
    assert(coord_bits(Some((1int, -2int, 5int))) == (1u64 << 5u64));
    assert(flip_spec(shift_spec(c, -1)) == Some((0int, 0int, 3int)));
    assert(coord_bits(Some((0int, 0int, 3int))) == (1u64 << 28u64));
    assert(shift_spec(c, 2) == Some((0int, -1int, 3int)));
    assert(coord_bits(Some((0int, -1int, 3int))) == (1u64 << 13u64));
    assert(shift_spec(c, -2) == Some((0int, -1int, 5int)));
    assert(coord_bits(Some((0int, -1int, 5int))) == (1u64 << 14u64));
}

proof fn vertex_white_13()
    ensures
        vertex_table(Color::White, 13usize) == vertex_neighbors_geo(13, Color::White),
{
    reveal(vertex_table);
    bv_vertex_white();
    let c = field_at(13, Color::White);
    assert(c == Some((0int, -1int, 3int)));
    lemma_fold6(shift_spec(flip_spec(c), 1), shift_spec(flip_spec(c), -1), flip_spec(shift_spec(c, 1)), flip_spec(shift_spec(c, -1)), shift_spec(c, 2), shift_spec(c, -2));
    assert(shift_spec(flip_spec(c), 1) == Some((0int, -2int, 1int)));
    assert(coord_bits(Some((0int, -2int, 1int))) == (1u64 << 0u64));
    assert(shift_spec(flip_spec(c), -1) == Some((0int, -2int, 5int)));
    assert(coord_bits(Some((0int, -2int, 5int))) == (1u64 << 2u64));
    assert(flip_spec(shift_spec(c, 1)) == Some((-1int, -1int, 1int)));
    assert(coord_bits(Some((-1int, -1int, 1int))) == (1u64 << 9u64));
    assert(flip_spec(shift_spec(c, -1)) == Some((1int, -2int, 5int)));
    assert(coord_bits(Some((1int, -2int, 5int))) == (1u64 << 5u64));
    assert(shift_spec(c, 2) == Some((0int, -1int, 5int)));
    assert(coord_bits(Some((0int, -1int, 5int))) == (1u64 << 14u64));
    assert(shift_spec(c, -2) == Some((0int, -1int, 1int)));
    assert(coord_bits(Some((0int, -1int, 1int))) == (1u64 << 12u64));
}

proof fn vertex_white_14()
    ensures
        vertex_table(Color::White, 14usize) == vertex_neighbors_geo(14, Color::White),
{
    reveal(vertex_table);
    bv_vertex_white();
    let c = field_at(14, Color::White);
    assert(c == Some((0int, -1int, 5int)));
    lemma_fold6(shift_spec(flip_spec(c), 1), shift_spec(flip_spec(c), -1), flip_spec(shift_spec(c, 1)), flip_spec(shift_spec(c, -1)), shift_spec(c, 2), shift_spec(c, -2));
    assert(shift_spec(flip_spec(c), 1) == Some((-1int, 0int, 3int)));
    assert(coord_bits(Some((-1int, 0int, 3int))) == (1u64 << 25u64));
    assert(shift_spec(flip_spec(c), -1) == Some((-1int, 0int, 1int)));
    assert(coord_bits(Some((-1int, 0int, 1int))) == (1u64 << 24u64));
    assert(flip_spec(shift_spec(c, 1)) == Some((0int, 0int, 3int)));
    assert(coord_bits(Some((0int, 0int, 3int))) == (1u64 << 28u64));
    assert(flip_spec(shift_spec(c, -1)) == Some((-1int, -1int, 1int)));
    assert(coord_bits(Some((-1int, -1int, 1int))) == (1u64 << 9u64));
    assert(shift_spec(c, 2) == Some((0int, -1int, 1int)));
    assert(coord_bits(Some((0int, -1int, 1int))) == (1u64 << 12u64));
    assert(shift_spec(c, -2) == Some((0int, -1int, 3int)));
    assert(coord_bits(Some((0int, -1int, 3int))) == (1u64 << 13u64));
}

proof fn vertex_white_15()
    ensures
        vertex_table(Color::White, 15usize) == vertex_neighbors_geo(15, Color::White),
{
    reveal(vertex_table);
    bv_vertex_white();
    let c = field_at(15, Color::White);
    assert(c == Some((1int, -1int, 1int)));
    lemma_fold6(shift_spec(flip_spec(c), 1), shift_spec(flip_spec(c), -1), flip_spec(shift_spec(c, 1)), flip_spec(shift_spec(c, -1)), shift_spec(c, 2), shift_spec(c, -2));
    assert(shift_spec(flip_spec(c), 1) == Some((2int, -1int, 5int)));
    assert(coord_bits(Some((2int, -1int, 5int))) == (1u64 << 20u64));
    assert(shift_spec(flip_spec(c), -1) == Some((2int, -1int, 3int)));
    assert(coord_bits(Some((2int, -1int, 3int))) == (1u64 << 19u64));
    assert(flip_spec(shift_spec(c, 1)) == Some((2int, -2int, 5int)));
    assert(coord_bits(Some((2int, -2int, 5int))) == (1u64 << 8u64));
    assert(flip_spec(shift_spec(c, -1)) == Some((1int, 0int, 3int)));
    assert(coord_bits(Some((1int, 0int, 3int))) == (1u64 << 31u64));
    assert(shift_spec(c, 2) == Some((1int, -1int, 3int)));
    assert(coord_bits(Some((1int, -1int, 3int))) == (1u64 << 16u64));
    assert(shift_spec(c, -2) == Some((1int, -1int, 5int)));
    assert(coord_bits(Some((1int, -1int, 5int))) == (1u64 << 17u64));
}

proof fn vertex_white_16()
    ensures
        vertex_table(Color::White, 16usize) == vertex_neighbors_geo(16, Color::White),
{
    reveal(vertex_table);
    bv_vertex_white();
    let c = field_at(16, Color::White);
    assert(c == Some((1int, -1int, 3int)));
    lemma_fold6(shift_spec(flip_spec(c), 1), shift_spec(flip_spec(c), -1), flip_spec(shift_spec(c, 1)), flip_spec(shift_spec(c, -1)), shift_spec(c, 2), shift_spec(c, -2));
    assert(shift_spec(flip_spec(c), 1) == Some((1int, -2int, 1int)));
    assert(coord_bits(Some((1int, -2int, 1int))) == (1u64 << 3u64));
    assert(shift_spec(flip_spec(c), -1) == Some((1int, -2int, 5int)));
    assert(coord_bits(Some((1int, -2int, 5int))) == (1u64 << 5u64));
    assert(flip_spec(shift_spec(c, 1)) == Some((0int, -1int, 1int)));
    assert(coord_bits(Some((0int, -1int, 1int))) == (1u64 << 12u64));
    assert(flip_spec(shift_spec(c, -1)) == Some((2int, -2int, 5int)));
    assert(coord_bits(Some((2int, -2int, 5int))) == (1u64 << 8u64));
    assert(shift_spec(c, 2) == Some((1int, -1int, 5int)));
    assert(coord_bits(Some((1int, -1int, 5int))) == (1u64 << 17u64));
    assert(shift_spec(c, -2) == Some((1int, -1int, 1int)));
    assert(coord_bits(Some((1int, -1int, 1int))) == (1u64 << 15u64));
}

proof fn vertex_white_17()
    ensures
        vertex_table(Color::White, 17usize) == vertex_neighbors_geo(17, Color::White),
{
    reveal(vertex_table);
    bv_vertex_white();
    let c = field_at(17, Color::White);
    assert(c == Some((1int, -1int, 5int)));
    lemma_fold6(shift_spec(flip_spec(c), 1), shift_spec(flip_spec(c), -1), flip_spec(shift_spec(c, 1)), flip_spec(shift_spec(c, -1)), shift_spec(c, 2), shift_spec(c, -2));
    assert(shift_spec(flip_spec(c), 1) == Some((0int, 0int, 3int)));
    assert(coord_bits(Some((0int, 0int, 3int))) == (1u64 << 28u64));
    assert(shift_spec(flip_spec(c), -1) == Some((0int, 0int, 1int)));
    assert(coord_bits(Some((0int, 0int, 1int))) == (1u64 << 27u64));
    assert(flip_spec(shift_spec(c, 1)) == Some((1int, 0int, 3int)));
    assert(coord_bits(Some((1int, 0int, 3int))) == (1u64 << 31u64));
    assert(flip_spec(shift_spec(c, -1)) == Some((0int, -1int, 1int)));
    assert(coord_bits(Some((0int, -1int, 1int))) == (1u64 << 12u64));
    assert(shift_spec(c, 2) == Some((1int, -1int, 1int)));
    assert(coord_bits(Some((1int, -1int, 1int))) == (1u64 << 15u64));
    assert(shift_spec(c, -2) == Some((1int, -1int, 3int)));
    assert(coord_bits(Some((1int, -1int, 3int))) == (1u64 << 16u64));
}

proof fn vertex_white_18()
    ensures
        vertex_table(Color::White, 18usize) == vertex_neighbors_geo(18, Color::White),
{
    reveal(vertex_table);
    bv_vertex_white();
    let c = field_at(18, Color::White);
    assert(c == Some((2int, -1int, 1int)));
    lemma_fold6(shift_spec(flip_spec(c), 1), shift_spec(flip_spec(c), -1), flip_spec(shift_spec(c, 1)), flip_spec(shift_spec(c, -1)), shift_spec(c, 2), shift_spec(c, -2));
    assert(shift_spec(flip_spec(c), 1) == None::<(int, int, int)>);
    assert(shift_spec(flip_spec(c), -1) == None::<(int, int, int)>);
    assert(flip_spec(shift_spec(c, 1)) == None::<(int, int, int)>);
    assert(flip_spec(shift_spec(c, -1)) == Some((2int, 0int, 3int)));
    assert(coord_bits(Some((2int, 0int, 3int))) == (1u64 << 34u64));
    assert(shift_spec(c, 2) == Some((2int, -1int, 3int)));
    assert(coord_bits(Some((2int, -1int, 3int))) == (1u64 << 19u64));
    assert(shift_spec(c, -2) == Some((2int, -1int, 5int)));
    assert(coord_bits(Some((2int, -1int, 5int))) == (1u64 << 20u64));
}

proof fn vertex_white_19()
    ensures
        vertex_table(Color::White, 19usize) == vertex_neighbors_geo(19, Color::White),
{
    reveal(vertex_table);
    bv_vertex_white();
    let c = field_at(19, Color::White);
    assert(c == Some((2int, -1int, 3int)));
    lemma_fold6(shift_spec(flip_spec(c), 1), shift_spec(flip_spec(c), -1), flip_spec(shift_spec(c, 1)), flip_spec(shift_spec(c, -1)), shift_spec(c, 2), shift_spec(c, -2));
    assert(shift_spec(flip_spec(c), 1) == Some((2int, -2int, 1int)));
    assert(coord_bits(Some((2int, -2int, 1int))) == (1u64 << 6u64));
    assert(shift_spec(flip_spec(c), -1) == Some((2int, -2int, 5int)));
    assert(coord_bits(Some((2int, -2int, 5int))) == (1u64 << 8u64));
    assert(flip_spec(shift_spec(c, 1)) == Some((1int, -1int, 1int)));
    assert(coord_bits(Some((1int, -1int, 1int))) == (1u64 << 15u64));
    assert(flip_spec(shift_spec(c, -1)) == None::<(int, int, int)>);
    assert(shift_spec(c, 2) == Some((2int, -1int, 5int)));
    assert(coord_bits(Some((2int, -1int, 5int))) == (1u64 << 20u64));
    assert(shift_spec(c, -2) == Some((2int, -1int, 1int)));
    assert(coord_bits(Some((2int, -1int, 1int))) == (1u64 << 18u64));
}

proof fn vertex_white_20()
    ensures
        vertex_table(Color::White, 20usize) == vertex_neighbors_geo(20, Color::White),
{
    reveal(vertex_table);
    bv_vertex_white();
    let c = field_at(20, Color::White);
    assert(c == Some((2int, -1int, 5int)));
    lemma_fold6(shift_spec(flip_spec(c), 1), shift_spec(flip_spec(c), -1), flip_spec(shift_spec(c, 1)), flip_spec(shift_spec(c, -1)), shift_spec(c, 2), shift_spec(c, -2));
    assert(shift_spec(flip_spec(c), 1) == Some((1int, 0int, 3int)));
    assert(coord_bits(Some((1int, 0int, 3int))) == (1u64 << 31u64));
    assert(shift_spec(flip_spec(c), -1) == Some((1int, 0int, 1int)));
    assert(coord_bits(Some((1int, 0int, 1int))) == (1u64 << 30u64));
    assert(flip_spec(shift_spec(c, 1)) == Some((2int, 0int, 3int)));
    assert(coord_bits(Some((2int, 0int, 3int))) == (1u64 << 34u64));
    assert(flip_spec(shift_spec(c, -1)) == Some((1int, -1int, 1int)));
    assert(coord_bits(Some((1int, -1int, 1int))) == (1u64 << 15u64));
    assert(shift_spec(c, 2) == Some((2int, -1int, 1int)));
    assert(coord_bits(Some((2int, -1int, 1int))) == (1u64 << 18u64));
    assert(shift_spec(c, -2) == Some((2int, -1int, 3int)));
    assert(coord_bits(Some((2int, -1int, 3int))) == (1u64 << 19u64));
}

proof fn vertex_white_21()
    ensures
        vertex_table(Color::White, 21usize) == vertex_neighbors_geo(21, Color::White),
{
    reveal(vertex_table);
    bv_vertex_white();
    let c = field_at(21, Color::White);
    assert(c == Some((-2int, 0int, 1int)));
    lemma_fold6(shift_spec(flip_spec(c), 1), shift_spec(flip_spec(c), -1), flip_spec(shift_spec(c, 1)), flip_spec(shift_spec(c, -1)), shift_spec(c, 2), shift_spec(c, -2));
    assert(shift_spec(flip_spec(c), 1) == Some((-1int, 0int, 5int)));
    assert(coord_bits(Some((-1int, 0int, 5int))) == (1u64 << 26u64));
    assert(shift_spec(flip_spec(c), -1) == Some((-1int, 0int, 3int)));
    assert(coord_bits(Some((-1int, 0int, 3int))) == (1u64 << 25u64));
    assert(flip_spec(shift_spec(c, 1)) == Some((-1int, -1int, 5int)));
    assert(coord_bits(Some((-1int, -1int, 5int))) == (1u64 << 11u64));
    assert(flip_spec(shift_spec(c, -1)) == Some((-2int, 1int, 3int)));
    assert(coord_bits(Some((-2int, 1int, 3int))) == (1u64 << 37u64));
    assert(shift_spec(c, 2) == Some((-2int, 0int, 3int)));
    assert(coord_bits(Some((-2int, 0int, 3int))) == (1u64 << 22u64));
    assert(shift_spec(c, -2) == Some((-2int, 0int, 5int)));
    assert(coord_bits(Some((-2int, 0int, 5int))) == (1u64 << 23u64));
}

proof fn vertex_white_22()
    ensures
        vertex_table(Color::White, 22usize) == vertex_neighbors_geo(22, Color::White),
{
    reveal(vertex_table);
    bv_vertex_white();
    let c = field_at(22, Color::White);
    assert(c == Some((-2int, 0int, 3int)));
    lemma_fold6(shift_spec(flip_spec(c), 1), shift_spec(flip_spec(c), -1), flip_spec(shift_spec(c, 1)), flip_spec(shift_spec(c, -1)), shift_spec(c, 2), shift_spec(c, -2));
    assert(shift_spec(flip_spec(c), 1) == None::<(int, int, int)>);
    assert(shift_spec(flip_spec(c), -1) == None::<(int, int, int)>);
    assert(flip_spec(shift_spec(c, 1)) == None::<(int, int, int)>);
    assert(flip_spec(shift_spec(c, -1)) == Some((-1int, -1int, 5int)));
    assert(coord_bits(Some((-1int, -1int, 5int))) == (1u64 << 11u64));
    assert(shift_spec(c, 2) == Some((-2int, 0int, 5int)));
    assert(coord_bits(Some((-2int, 0int, 5int))) == (1u64 << 23u64));
    assert(shift_spec(c, -2) == Some((-2int, 0int, 1int)));
    assert(coord_bits(Some((-2int, 0int, 1int))) == (1u64 << 21u64));
}

proof fn vertex_white_23()
    ensures
        vertex_table(Color::White, 23usize) == vertex_neighbors_geo(23, Color::White),
{
    reveal(vertex_table);
    bv_vertex_white();
    let c = field_at(23, Color::White);
    assert(c == Some((-2int, 0int, 5int)));
    lemma_fold6(shift_spec(flip_spec(c), 1), shift_spec(flip_spec(c), -1), flip_spec(shift_spec(c, 1)), flip_spec(shift_spec(c, -1)), shift_spec(c, 2), shift_spec(c, -2));
    assert(shift_spec(flip_spec(c), 1) == None::<(int, int, int)>);
    assert(shift_spec(flip_spec(c), -1) == None::<(int, int, int)>);
    assert(flip_spec(shift_spec(c, 1)) == Some((-2int, 1int, 3int)));
    assert(coord_bits(Some((-2int, 1int, 3int))) == (1u64 << 37u64));
    assert(flip_spec(shift_spec(c, -1)) == None::<(int, int, int)>);
    assert(shift_spec(c, 2) == Some((-2int, 0int, 1int)));
    assert(coord_bits(Some((-2int, 0int, 1int))) == (1u64 << 21u64));
    assert(shift_spec(c, -2) == Some((-2int, 0int, 3int)));
    assert(coord_bits(Some((-2int, 0int, 3int))) == (1u64 << 22u64));
}

proof fn vertex_white_24()
    ensures
        vertex_table(Color::White, 24usize) == vertex_neighbors_geo(24, Color::White),
{
    reveal(vertex_table);
    bv_vertex_white();
    let c = field_at(24, Color::White);
    assert(c == Some((-1int, 0int, 1int)));
    lemma_fold6(shift_spec(flip_spec(c), 1), shift_spec(flip_spec(c), -1), flip_spec(shift_spec(c, 1)), flip_spec(shift_spec(c, -1)), shift_spec(c, 2), shift_spec(c, -2));
    assert(shift_spec(flip_spec(c), 1) == Some((0int, 0int, 5int)));
    assert(coord_bits(Some((0int, 0int, 5int))) == (1u64 << 29u64));
    assert(shift_spec(flip_spec(c), -1) == Some((0int, 0int, 3int)));
    assert(coord_bits(Some((0int, 0int, 3int))) == (1u64 << 28u64));
    assert(flip_spec(shift_spec(c, 1)) == Some((0int, -1int, 5int)));
    assert(coord_bits(Some((0int, -1int, 5int))) == (1u64 << 14u64));
    assert(flip_spec(shift_spec(c, -1)) == Some((-1int, 1int, 3int)));
    assert(coord_bits(Some((-1int, 1int, 3int))) == (1u64 << 40u64));
    assert(shift_spec(c, 2) == Some((-1int, 0int, 3int)));
    assert(coord_bits(Some((-1int, 0int, 3int))) == (1u64 << 25u64));
    assert(shift_spec(c, -2) == Some((-1int, 0int, 5int)));
    assert(coord_bits(Some((-1int, 0int, 5int))) == (1u64 << 26u64));
}

proof fn vertex_white_25()
    ensures
        vertex_table(Color::White, 25usize) == vertex_neighbors_geo(25, Color::White),
{
    reveal(vertex_table);
    bv_vertex_white();
    let c = field_at(25, Color::White);
    assert(c == Some((-1int, 0int, 3int)));
    lemma_fold6(shift_spec(flip_spec(c), 1), shift_spec(flip_spec(c), -1), flip_spec(shift_spec(c, 1)), flip_spec(shift_spec(c, -1)), shift_spec(c, 2), shift_spec(c, -2));
    assert(shift_spec(flip_spec(c), 1) == Some((-1int, -1int, 1int)));
    assert(coord_bits(Some((-1int, -1int, 1int))) == (1u64 << 9u64));
    assert(shift_spec(flip_spec(c), -1) == Some((-1int, -1int, 5int)));
    assert(coord_bits(Some((-1int, -1int, 5int))) == (1u64 << 11u64));
    assert(flip_spec(shift_spec(c, 1)) == Some((-2int, 0int, 1int)));
    assert(coord_bits(Some((-2int, 0int, 1int))) == (1u64 << 21u64));
    assert(flip_spec(shift_spec(c, -1)) == Some((0int, -1int, 5int)));
    assert(coord_bits(Some((0int, -1int, 5int))) == (1u64 << 14u64));
    assert(shift_spec(c, 2) == Some((-1int, 0int, 5int)));
    assert(coord_bits(Some((-1int, 0int, 5int))) == (1u64 << 26u64));
    assert(shift_spec(c, -2) == Some((-1int, 0int, 1int)));
    assert(coord_bits(Some((-1int, 0int, 1int))) == (1u64 << 24u64));
}

proof fn vertex_white_26()
    ensures
        vertex_table(Color::White, 26usize) == vertex_neighbors_geo(26, Color::White),
{
    reveal(vertex_table);
    bv_vertex_white();
    let c = field_at(26, Color::White);
    assert(c == Some((-1int, 0int, 5int)));
    lemma_fold6(shift_spec(flip_spec(c), 1), shift_spec(flip_spec(c), -1), flip_spec(shift_spec(c, 1)), flip_spec(shift_spec(c, -1)), shift_spec(c, 2), shift_spec(c, -2));
    assert(shift_spec(flip_spec(c), 1) == Some((-2int, 1int, 3int)));
    assert(coord_bits(Some((-2int, 1int, 3int))) == (1u64 << 37u64));
    assert(shift_spec(flip_spec(c), -1) == Some((-2int, 1int, 1int)));
    assert(coord_bits(Some((-2int, 1int, 1int))) == (1u64 << 36u64));
    assert(flip_spec(shift_spec(c, 1)) == Some((-1int, 1int, 3int)));
    assert(coord_bits(Some((-1int, 1int, 3int))) == (1u64 << 40u64));
    assert(flip_spec(shift_spec(c, -1)) == Some((-2int, 0int, 1int)));
    assert(coord_bits(Some((-2int, 0int, 1int))) == (1u64 << 21u64));
    assert(shift_spec(c, 2) == Some((-1int, 0int, 1int)));
    assert(coord_bits(Some((-1int, 0int, 1int))) == (1u64 << 24u64));
    assert(shift_spec(c, -2) == Some((-1int, 0int, 3int)));
    assert(coord_bits(Some((-1int, 0int, 3int))) == (1u64 << 25u64));
}

proof fn vertex_white_27()
    ensures
        vertex_table(Color::White, 27usize) == vertex_neighbors_geo(27, Color::White),
{
    reveal(vertex_table);
    bv_vertex_white();
    let c = field_at(27, Color::White);
    assert(c == Some((0int, 0int, 1int)));
    lemma_fold6(shift_spec(flip_spec(c), 1), shift_spec(flip_spec(c), -1), flip_spec(shift_spec(c, 1)), flip_spec(shift_spec(c, -1)), shift_spec(c, 2), shift_spec(c, -2));
    assert(shift_spec(flip_spec(c), 1) == Some((1int, 0int, 5int)));
    assert(coord_bits(Some((1int, 0int, 5int))) == (1u64 << 32u64));
    assert(shift_spec(flip_spec(c), -1) == Some((1int, 0int, 3int)));
    assert(coord_bits(Some((1int, 0int, 3int))) == (1u64 << 31u64));
    assert(flip_spec(shift_spec(c, 1)) == Some((1int, -1int, 5int)));
    assert(coord_bits(Some((1int, -1int, 5int))) == (1u64 << 17u64));
    assert(flip_spec(shift_spec(c, -1)) == Some((0int, 1int, 3int)));
    assert(coord_bits(Some((0int, 1int, 3int))) == (1u64 << 43u64));
    assert(shift_spec(c, 2) == Some((0int, 0int, 3int)));
    assert(coord_bits(Some((0int, 0int, 3int))) == (1u64 << 28u64));
    assert(shift_spec(c, -2) == Some((0int, 0int, 5int)));
    assert(coord_bits(Some((0int, 0int, 5int))) == (1u64 << 29u64));
}

proof fn vertex_white_28()
    ensures
        vertex_table(Color::White, 28usize) == vertex_neighbors_geo(28, Color::White),
{
    reveal(vertex_table);
    bv_vertex_white();
    let c = field_at(28, Color::White);
    assert(c == Some((0int, 0int, 3int)));
    lemma_fold6(shift_spec(flip_spec(c), 1), shift_spec(flip_spec(c), -1), flip_spec(shift_spec(c, 1)), flip_spec(shift_spec(c, -1)), shift_spec(c, 2), shift_spec(c, -2));
    assert(shift_spec(flip_spec(c), 1) == Some((0int, -1int, 1int)));
    assert(coord_bits(Some((0int, -1int, 1int))) == (1u64 << 12u64));
    assert(shift_spec(flip_spec(c), -1) == Some((0int, -1int, 5int)));
    assert(coord_bits(Some((0int, -1int, 5int))) == (1u64 << 14u64));
    assert(flip_spec(shift_spec(c, 1)) == Some((-1int, 0int, 1int)));
    assert(coord_bits(Some((-1int, 0int, 1int))) == (1u64 << 24u64));
    assert(flip_spec(shift_spec(c, -1)) == Some((1int, -1int, 5int)));
    assert(coord_bits(Some((1int, -1int, 5int))) == (1u64 << 17u64));
    assert(shift_spec(c, 2) == Some((0int, 0int, 5int)));
    assert(coord_bits(Some((0int, 0int, 5int))) == (1u64 << 29u64));
    assert(shift_spec(c, -2) == Some((0int, 0int, 1int)));
    assert(coord_bits(Some((0int, 0int, 1int))) == (1u64 << 27u64));
}

proof fn vertex_white_29()
    ensures
        vertex_table(Color::White, 29usize) == vertex_neighbors_geo(29, Color::White),
{
    reveal(vertex_table);
    bv_vertex_white();
    let c = field_at(29, Color::White);
    assert(c == Some((0int, 0int, 5int)));
    lemma_fold6(shift_spec(flip_spec(c), 1), shift_spec(flip_spec(c), -1), flip_spec(shift_spec(c, 1)), flip_spec(shift_spec(c, -1)), shift_spec(c, 2), shift_spec(c, -2));
    assert(shift_spec(flip_spec(c), 1) == Some((-1int, 1int, 3int)));
    assert(coord_bits(Some((-1int, 1int, 3int))) == (1u64 << 40u64));
    assert(shift_spec(flip_spec(c), -1) == Some((-1int, 1int, 1int)));
    assert(coord_bits(Some((-1int, 1int, 1int))) == (1u64 << 39u64));
    assert(flip_spec(shift_spec(c, 1)) == Some((0int, 1int, 3int)));
    assert(coord_bits(Some((0int, 1int, 3int))) == (1u64 << 43u64));
    assert(flip_spec(shift_spec(c, -1)) == Some((-1int, 0int, 1int)));
    assert(coord_bits(Some((-1int, 0int, 1int))) == (1u64 << 24u64));
    assert(shift_spec(c, 2) == Some((0int, 0int, 1int)));
    assert(coord_bits(Some((0int, 0int, 1int))) == (1u64 << 27u64));
    assert(shift_spec(c, -2) == Some((0int, 0int, 3int)));
    assert(coord_bits(Some((0int, 0int, 3int))) == (1u64 << 28u64));
}

proof fn vertex_white_30()
    ensures
        vertex_table(Color::White, 30usize) == vertex_neighbors_geo(30, Color::White),
{
    reveal(vertex_table);
    bv_vertex_white();
    let c = field_at(30, Color::White);
    assert(c == Some((1int, 0int, 1int)));
    lemma_fold6(shift_spec(flip_spec(c), 1), shift_spec(flip_spec(c), -1), flip_spec(shift_spec(c, 1)), flip_spec(shift_spec(c, -1)), shift_spec(c, 2), shift_spec(c, -2));
    assert(shift_spec(flip_spec(c), 1) == Some((2int, 0int, 5int)));
    assert(coord_bits(Some((2int, 0int, 5int))) == (1u64 << 35u64));
    assert(shift_spec(flip_spec(c), -1) == Some((2int, 0int, 3int)));
    assert(coord_bits(Some((2int, 0int, 3int))) == (1u64 << 34u64));
    assert(flip_spec(shift_spec(c, 1)) == Some((2int, -1int, 5int)));
    assert(coord_bits(Some((2int, -1int, 5int))) == (1u64 << 20u64));
    assert(flip_spec(shift_spec(c, -1)) == Some((1int, 1int, 3int)));
    assert(coord_bits(Some((1int, 1int, 3int))) == (1u64 << 46u64));
    assert(shift_spec(c, 2) == Some((1int, 0int, 3int)));
    assert(coord_bits(Some((1int, 0int, 3int))) == (1u64 << 31u64));
    assert(shift_spec(c, -2) == Some((1int, 0int, 5int)));
    assert(coord_bits(Some((1int, 0int, 5int))) == (1u64 << 32u64));
}

proof fn vertex_white_31()
    ensures
        vertex_table(Color::White, 31usize) == vertex_neighbors_geo(31, Color::White),
{
    reveal(vertex_table);
    bv_vertex_white();
    let c = field_at(31, Color::White);
    assert(c == Some((1int, 0int, 3int)));
    lemma_fold6(shift_spec(flip_spec(c), 1), shift_spec(flip_spec(c), -1), flip_spec(shift_spec(c, 1)), flip_spec(shift_spec(c, -1)), shift_spec(c, 2), shift_spec(c, -2));
    assert(shift_spec(flip_spec(c), 1) == Some((1int, -1int, 1int)));
    assert(coord_bits(Some((1int, -1int, 1int))) == (1u64 << 15u64));
    assert(shift_spec(flip_spec(c), -1) == Some((1int, -1int, 5int)));
    assert(coord_bits(Some((1int, -1int, 5int))) == (1u64 << 17u64));
    assert(flip_spec(shift_spec(c, 1)) == Some((0int, 0int, 1int)));
    assert(coord_bits(Some((0int, 0int, 1int))) == (1u64 << 27u64));
    assert(flip_spec(shift_spec(c, -1)) == Some((2int, -1int, 5int)));
    assert(coord_bits(Some((2int, -1int, 5int))) == (1u64 << 20u64));
    assert(shift_spec(c, 2) == Some((1int, 0int, 5int)));
    assert(coord_bits(Some((1int, 0int, 5int))) == (1u64 << 32u64));
    assert(shift_spec(c, -2) == Some((1int, 0int, 1int)));
    assert(coord_bits(Some((1int, 0int, 1int))) == (1u64 << 30u64));
}

proof fn vertex_white_32()
    ensures
        vertex_table(Color::White, 32usize) == vertex_neighbors_geo(32, Color::White),
{
    reveal(vertex_table);
    bv_vertex_white();
    let c = field_at(32, Color::White);
    assert(c == Some((1int, 0int, 5int)));
    lemma_fold6(shift_spec(flip_spec(c), 1), shift_spec(flip_spec(c), -1), flip_spec(shift_spec(c, 1)), flip_spec(shift_spec(c, -1)), shift_spec(c, 2), shift_spec(c, -2));
    assert(shift_spec(flip_spec(c), 1) == Some((0int, 1int, 3int)));
    assert(coord_bits(Some((0int, 1int, 3int))) == (1u64 << 43u64));
    assert(shift_spec(flip_spec(c), -1) == Some((0int, 1int, 1int)));
    assert(coord_bits(Some((0int, 1int, 1int))) == (1u64 << 42u64));
    assert(flip_spec(shift_spec(c, 1)) == Some((1int, 1int, 3int)));
    assert(coord_bits(Some((1int, 1int, 3int))) == (1u64 << 46u64));
    assert(flip_spec(shift_spec(c, -1)) == Some((0int, 0int, 1int)));
    assert(coord_bits(Some((0int, 0int, 1int))) == (1u64 << 27u64));
    assert(shift_spec(c, 2) == Some((1int, 0int, 1int)));
    assert(coord_bits(Some((1int, 0int, 1int))) == (1u64 << 30u64));
    assert(shift_spec(c, -2) == Some((1int, 0int, 3int)));
    assert(coord_bits(Some((1int, 0int, 3int))) == (1u64 << 31u64));
}

proof fn vertex_white_33()
    ensures
        vertex_table(Color::White, 33usize) == vertex_neighbors_geo(33, Color::White),
{
    reveal(vertex_table);
    bv_vertex_white();
    let c = field_at(33, Color::White);
    assert(c == Some((2int, 0int, 1int)));
    lemma_fold6(shift_spec(flip_spec(c), 1), shift_spec(flip_spec(c), -1), flip_spec(shift_spec(c, 1)), flip_spec(shift_spec(c, -1)), shift_spec(c, 2), shift_spec(c, -2));
    assert(shift_spec(flip_spec(c), 1) == None::<(int, int, int)>);
    assert(shift_spec(flip_spec(c), -1) == None::<(int, int, int)>);
    assert(flip_spec(shift_spec(c, 1)) == None::<(int, int, int)>);
    assert(flip_spec(shift_spec(c, -1)) == None::<(int, int, int)>);
    assert(shift_spec(c, 2) == Some((2int, 0int, 3int)));
    assert(coord_bits(Some((2int, 0int, 3int))) == (1u64 << 34u64));
    assert(shift_spec(c, -2) == Some((2int, 0int, 5int)));
    assert(coord_bits(Some((2int, 0int, 5int))) == (1u64 << 35u64));
}

proof fn vertex_white_34()
    ensures
        vertex_table(Color::White, 34usize) == vertex_neighbors_geo(34, Color::White),
{
    reveal(vertex_table);
    bv_vertex_white();
    let c = field_at(34, Color::White);
    assert(c == Some((2int, 0int, 3int)));
    lemma_fold6(shift_spec(flip_spec(c), 1), shift_spec(flip_spec(c), -1), flip_spec(shift_spec(c, 1)), flip_spec(shift_spec(c, -1)), shift_spec(c, 2), shift_spec(c, -2));
    assert(shift_spec(flip_spec(c), 1) == Some((2int, -1int, 1int)));
    assert(coord_bits(Some((2int, -1int, 1int))) == (1u64 << 18u64));
    assert(shift_spec(flip_spec(c), -1) == Some((2int, -1int, 5int)));
    assert(coord_bits(Some((2int, -1int, 5int))) == (1u64 << 20u64));
    assert(flip_spec(shift_spec(c, 1)) == Some((1int, 0int, 1int)));
    assert(coord_bits(Some((1int, 0int, 1int))) == (1u64 << 30u64));
    assert(flip_spec(shift_spec(c, -1)) == None::<(int, int, int)>);
    assert(shift_spec(c, 2) == Some((2int, 0int, 5int)));
    assert(coord_bits(Some((2int, 0int, 5int))) == (1u64 << 35u64));
    assert(shift_spec(c, -2) == Some((2int, 0int, 1int)));
    assert(coord_bits(Some((2int, 0int, 1int))) == (1u64 << 33u64));
}

proof fn vertex_white_35()
    ensures
        vertex_table(Color::White, 35usize) == vertex_neighbors_geo(35, Color::White),
{
    reveal(vertex_table);
    bv_vertex_white();
    let c = field_at(35, Color::White);
    assert(c == Some((2int, 0int, 5int)));
    lemma_fold6(shift_spec(flip_spec(c), 1), shift_spec(flip_spec(c), -1), flip_spec(shift_spec(c, 1)), flip_spec(shift_spec(c, -1)), shift_spec(c, 2), shift_spec(c, -2));
    assert(shift_spec(flip_spec(c), 1) == Some((1int, 1int, 3int)));
    assert(coord_bits(Some((1int, 1int, 3int))) == (1u64 << 46u64));
    assert(shift_spec(flip_spec(c), -1) == Some((1int, 1int, 1int)));
    assert(coord_bits(Some((1int, 1int, 1int))) == (1u64 << 45u64));
    assert(flip_spec(shift_spec(c, 1)) == None::<(int, int, int)>);
    assert(flip_spec(shift_spec(c, -1)) == Some((1int, 0int, 1int)));
    assert(coord_bits(Some((1int, 0int, 1int))) == (1u64 << 30u64));
    assert(shift_spec(c, 2) == Some((2int, 0int, 1int)));
    assert(coord_bits(Some((2int, 0int, 1int))) == (1u64 << 33u64));
    assert(shift_spec(c, -2) == Some((2int, 0int, 3int)));
    assert(coord_bits(Some((2int, 0int, 3int))) == (1u64 << 34u64));
}

proof fn vertex_white_36()
    ensures
        vertex_table(Color::White, 36usize) == vertex_neighbors_geo(36, Color::White),
{
    reveal(vertex_table);
    bv_vertex_white();
    let c = field_at(36, Color::White);
    assert(c == Some((-2int, 1int, 1int)));
    lemma_fold6(shift_spec(flip_spec(c), 1), shift_spec(flip_spec(c), -1), flip_spec(shift_spec(c, 1)), flip_spec(shift_spec(c, -1)), shift_spec(c, 2), shift_spec(c, -2));
    assert(shift_spec(flip_spec(c), 1) == Some((-1int, 1int, 5int)));
    assert(coord_bits(Some((-1int, 1int, 5int))) == (1u64 << 41u64));
    assert(shift_spec(flip_spec(c), -1) == Some((-1int, 1int, 3int)));
    assert(coord_bits(Some((-1int, 1int, 3int))) == (1u64 << 40u64));
    assert(flip_spec(shift_spec(c, 1)) == Some((-1int, 0int, 5int)));
    assert(coord_bits(Some((-1int, 0int, 5int))) == (1u64 << 26u64));
    assert(flip_spec(shift_spec(c, -1)) == Some((-2int, 2int, 3int)));
    assert(coord_bits(Some((-2int, 2int, 3int))) == (1u64 << 49u64));
    assert(shift_spec(c, 2) == Some((-2int, 1int, 3int)));
    assert(coord_bits(Some((-2int, 1int, 3int))) == (1u64 << 37u64));
    assert(shift_spec(c, -2) == Some((-2int, 1int, 5int)));
    assert(coord_bits(Some((-2int, 1int, 5int))) == (1u64 << 38u64));
}

proof fn vertex_white_37()
    ensures
        vertex_table(Color::White, 37usize) == vertex_neighbors_geo(37, Color::White),
{
    reveal(vertex_table);
    bv_vertex_white();
    let c = field_at(37, Color::White);
    assert(c == Some((-2int, 1int, 3int)));
    lemma_fold6(shift_spec(flip_spec(c), 1), shift_spec(flip_spec(c), -1), flip_spec(shift_spec(c, 1)), flip_spec(shift_spec(c, -1)), shift_spec(c, 2), shift_spec(c, -2));
    assert(shift_spec(flip_spec(c), 1) == Some((-2int, 0int, 1int)));
    assert(coord_bits(Some((-2int, 0int, 1int))) == (1u64 << 21u64));
    assert(shift_spec(flip_spec(c), -1) == Some((-2int, 0int, 5int)));
    assert(coord_bits(Some((-2int, 0int, 5int))) == (1u64 << 23u64));
    assert(flip_spec(shift_spec(c, 1)) == None::<(int, int, int)>);
    assert(flip_spec(shift_spec(c, -1)) == Some((-1int, 0int, 5int)));
    assert(coord_bits(Some((-1int, 0int, 5int))) == (1u64 << 26u64));
    assert(shift_spec(c, 2) == Some((-2int, 1int, 5int)));
    assert(coord_bits(Some((-2int, 1int, 5int))) == (1u64 << 38u64));
    assert(shift_spec(c, -2) == Some((-2int, 1int, 1int)));
    assert(coord_bits(Some((-2int, 1int, 1int))) == (1u64 << 36u64));
}

proof fn vertex_white_38()
    ensures
        vertex_table(Color::White, 38usize) == vertex_neighbors_geo(38, Color::White),
{
    reveal(vertex_table);
    bv_vertex_white();
    let c = field_at(38, Color::White);
    assert(c == Some((-2int, 1int, 5int)));
    lemma_fold6(shift_spec(flip_spec(c), 1), shift_spec(flip_spec(c), -1), flip_spec(shift_spec(c, 1)), flip_spec(shift_spec(c, -1)), shift_spec(c, 2), shift_spec(c, -2));
    assert(shift_spec(flip_spec(c), 1) == None::<(int, int, int)>);
    assert(shift_spec(flip_spec(c), -1) == None::<(int, int, int)>);
    assert(flip_spec(shift_spec(c, 1)) == Some((-2int, 2int, 3int)));
    assert(coord_bits(Some((-2int, 2int, 3int))) == (1u64 << 49u64));
    assert(flip_spec(shift_spec(c, -1)) == None::<(int, int, int)>);
    assert(shift_spec(c, 2) == Some((-2int, 1int, 1int)));
    assert(coord_bits(Some((-2int, 1int, 1int))) == (1u64 << 36u64));
    assert(shift_spec(c, -2) == Some((-2int, 1int, 3int)));
    assert(coord_bits(Some((-2int, 1int, 3int))) == (1u64 << 37u64));
}

proof fn vertex_white_39()
    ensures
        vertex_table(Color::White, 39usize) == vertex_neighbors_geo(39, Color::White),
{
    reveal(vertex_table);
    bv_vertex_white();
    let c = field_at(39, Color::White);
    assert(c == Some((-1int, 1int, 1int)));
    lemma_fold6(shift_spec(flip_spec(c), 1), shift_spec(flip_spec(c), -1), flip_spec(shift_spec(c, 1)), flip_spec(shift_spec(c, -1)), shift_spec(c, 2), shift_spec(c, -2));
    assert(shift_spec(flip_spec(c), 1) == Some((0int, 1int, 5int)));
    assert(coord_bits(Some((0int, 1int, 5int))) == (1u64 << 44u64));
    assert(shift_spec(flip_spec(c), -1) == Some((0int, 1int, 3int)));
    assert(coord_bits(Some((0int, 1int, 3int))) == (1u64 << 43u64));
    assert(flip_spec(shift_spec(c, 1)) == Some((0int, 0int, 5int)));
    assert(coord_bits(Some((0int, 0int, 5int))) == (1u64 << 29u64));
    assert(flip_spec(shift_spec(c, -1)) == Some((-1int, 2int, 3int)));
    assert(coord_bits(Some((-1int, 2int, 3int))) == (1u64 << 52u64));
    assert(shift_spec(c, 2) == Some((-1int, 1int, 3int)));
    assert(coord_bits(Some((-1int, 1int, 3int))) == (1u64 << 40u64));
    assert(shift_spec(c, -2) == Some((-1int, 1int, 5int)));
    assert(coord_bits(Some((-1int, 1int, 5int))) == (1u64 << 41u64));
}

proof fn vertex_white_40()
    ensures
        vertex_table(Color::White, 40usize) == vertex_neighbors_geo(40, Color::White),
{
    reveal(vertex_table);
    bv_vertex_white();
    let c = field_at(40, Color::White);
    assert(c == Some((-1int, 1int, 3int)));
    lemma_fold6(shift_spec(flip_spec(c), 1), shift_spec(flip_spec(c), -1), flip_spec(shift_spec(c, 1)), flip_spec(shift_spec(c, -1)), shift_spec(c, 2), shift_spec(c, -2));
    assert(shift_spec(flip_spec(c), 1) == Some((-1int, 0int, 1int)));
    assert(coord_bits(Some((-1int, 0int, 1int))) == (1u64 << 24u64));
    assert(shift_spec(flip_spec(c), -1) == Some((-1int, 0int, 5int)));
    assert(coord_bits(Some((-1int, 0int, 5int))) == (1u64 << 26u64));
    assert(flip_spec(shift_spec(c, 1)) == Some((-2int, 1int, 1int)));
    assert(coord_bits(Some((-2int, 1int, 1int))) == (1u64 << 36u64));
    assert(flip_spec(shift_spec(c, -1)) == Some((0int, 0int, 5int)));
    assert(coord_bits(Some((0int, 0int, 5int))) == (1u64 << 29u64));
    assert(shift_spec(c, 2) == Some((-1int, 1int, 5int)));
    assert(coord_bits(Some((-1int, 1int, 5int))) == (1u64 << 41u64));
    assert(shift_spec(c, -2) == Some((-1int, 1int, 1int)));
    assert(coord_bits(Some((-1int, 1int, 1int))) == (1u64 << 39u64));
}

proof fn vertex_white_41()
    ensures
        vertex_table(Color::White, 41usize) == vertex_neighbors_geo(41, Color::White),
{
    reveal(vertex_table);
    bv_vertex_white();
    let c = field_at(41, Color::White);
    assert(c == Some((-1int, 1int, 5int)));
    lemma_fold6(shift_spec(flip_spec(c), 1), shift_spec(flip_spec(c), -1), flip_spec(shift_spec(c, 1)), flip_spec(shift_spec(c, -1)), shift_spec(c, 2), shift_spec(c, -2));
    assert(shift_spec(flip_spec(c), 1) == Some((-2int, 2int, 3int)));
    assert(coord_bits(Some((-2int, 2int, 3int))) == (1u64 << 49u64));
    assert(shift_spec(flip_spec(c), -1) == Some((-2int, 2int, 1int)));
    assert(coord_bits(Some((-2int, 2int, 1int))) == (1u64 << 48u64));
    assert(flip_spec(shift_spec(c, 1)) == Some((-1int, 2int, 3int)));
    assert(coord_bits(Some((-1int, 2int, 3int))) == (1u64 << 52u64));
    assert(flip_spec(shift_spec(c, -1)) == Some((-2int, 1int, 1int)));
    assert(coord_bits(Some((-2int, 1int, 1int))) == (1u64 << 36u64));
    assert(shift_spec(c, 2) == Some((-1int, 1int, 1int)));
    assert(coord_bits(Some((-1int, 1int, 1int))) == (1u64 << 39u64));
    assert(shift_spec(c, -2) == Some((-1int, 1int, 3int)));
    assert(coord_bits(Some((-1int, 1int, 3int))) == (1u64 << 40u64));
}

proof fn vertex_white_42()
    ensures
        vertex_table(Color::White, 42usize) == vertex_neighbors_geo(42, Color::White),
{
    reveal(vertex_table);
    bv_vertex_white();
    let c = field_at(42, Color::White);
    assert(c == Some((0int, 1int, 1int)));
    lemma_fold6(shift_spec(flip_spec(c), 1), shift_spec(flip_spec(c), -1), flip_spec(shift_spec(c, 1)), flip_spec(shift_spec(c, -1)), shift_spec(c, 2), shift_spec(c, -2));
    assert(shift_spec(flip_spec(c), 1) == Some((1int, 1int, 5int)));
    assert(coord_bits(Some((1int, 1int, 5int))) == (1u64 << 47u64));
    assert(shift_spec(flip_spec(c), -1) == Some((1int, 1int, 3int)));
    assert(coord_bits(Some((1int, 1int, 3int))) == (1u64 << 46u64));
    assert(flip_spec(shift_spec(c, 1)) == Some((1int, 0int, 5int)));
    assert(coord_bits(Some((1int, 0int, 5int))) == (1u64 << 32u64));
    assert(flip_spec(shift_spec(c, -1)) == Some((0int, 2int, 3int)));
    assert(coord_bits(Some((0int, 2int, 3int))) == (1u64 << 55u64));
    assert(shift_spec(c, 2) == Some((0int, 1int, 3int)));
    assert(coord_bits(Some((0int, 1int, 3int))) == (1u64 << 43u64));
    assert(shift_spec(c, -2) == Some((0int, 1int, 5int)));
    assert(coord_bits(Some((0int, 1int, 5int))) == (1u64 << 44u64));
}

proof fn vertex_white_43()
    ensures
        vertex_table(Color::White, 43usize) == vertex_neighbors_geo(43, Color::White),
{
    reveal(vertex_table);
    bv_vertex_white();
    let c = field_at(43, Color::White);
    assert(c == Some((0int, 1int, 3int)));
    lemma_fold6(shift_spec(flip_spec(c), 1), shift_spec(flip_spec(c), -1), flip_spec(shift_spec(c, 1)), flip_spec(shift_spec(c, -1)), shift_spec(c, 2), shift_spec(c, -2));
    assert(shift_spec(flip_spec(c), 1) == Some((0int, 0int, 1int)));
    assert(coord_bits(Some((0int, 0int, 1int))) == (1u64 << 27u64));
    assert(shift_spec(flip_spec(c), -1) == Some((0int, 0int, 5int)));
    assert(coord_bits(Some((0int, 0int, 5int))) == (1u64 << 29u64));
    assert(flip_spec(shift_spec(c, 1)) == Some((-1int, 1int, 1int)));
    assert(coord_bits(Some((-1int, 1int, 1int))) == (1u64 << 39u64));
    assert(flip_spec(shift_spec(c, -1)) == Some((1int, 0int, 5int)));
    assert(coord_bits(Some((1int, 0int, 5int))) == (1u64 << 32u64));
    assert(shift_spec(c, 2) == Some((0int, 1int, 5int)));
    assert(coord_bits(Some((0int, 1int, 5int))) == (1u64 << 44u64));
    assert(shift_spec(c, -2) == Some((0int, 1int, 1int)));
    assert(coord_bits(Some((0int, 1int, 1int))) == (1u64 << 42u64));
}

proof fn vertex_white_44()
    ensures
        vertex_table(Color::White, 44usize) == vertex_neighbors_geo(44, Color::White),
{
    reveal(vertex_table);
    bv_vertex_white();
    let c = field_at(44, Color::White);
    assert(c == Some((0int, 1int, 5int)));
    lemma_fold6(shift_spec(flip_spec(c), 1), shift_spec(flip_spec(c), -1), flip_spec(shift_spec(c, 1)), flip_spec(shift_spec(c, -1)), shift_spec(c, 2), shift_spec(c, -2));
    assert(shift_spec(flip_spec(c), 1) == Some((-1int, 2int, 3int)));
    assert(coord_bits(Some((-1int, 2int, 3int))) == (1u64 << 52u64));
    assert(shift_spec(flip_spec(c), -1) == Some((-1int, 2int, 1int)));
    assert(coord_bits(Some((-1int, 2int, 1int))) == (1u64 << 51u64));
    assert(flip_spec(shift_spec(c, 1)) == Some((0int, 2int, 3int)));
    assert(coord_bits(Some((0int, 2int, 3int))) == (1u64 << 55u64));
    assert(flip_spec(shift_spec(c, -1)) == Some((-1int, 1int, 1int)));
    assert(coord_bits(Some((-1int, 1int, 1int))) == (1u64 << 39u64));
    assert(shift_spec(c, 2) == Some((0int, 1int, 1int)));
    assert(coord_bits(Some((0int, 1int, 1int))) == (1u64 << 42u64));
    assert(shift_spec(c, -2) == Some((0int, 1int, 3int)));
    assert(coord_bits(Some((0int, 1int, 3int))) == (1u64 << 43u64));
}

proof fn vertex_white_45()
    ensures
        vertex_table(Color::White, 45usize) == vertex_neighbors_geo(45, Color::White),
{
    reveal(vertex_table);
    bv_vertex_white();
    let c = field_at(45, Color::White);
    assert(c == Some((1int, 1int, 1int)));
    lemma_fold6(shift_spec(flip_spec(c), 1), shift_spec(flip_spec(c), -1), flip_spec(shift_spec(c, 1)), flip_spec(shift_spec(c, -1)), shift_spec(c, 2), shift_spec(c, -2));
    assert(shift_spec(flip_spec(c), 1) == None::<(int, int, int)>);
    assert(shift_spec(flip_spec(c), -1) == None::<(int, int, int)>);
    assert(flip_spec(shift_spec(c, 1)) == Some((2int, 0int, 5int)));
    assert(coord_bits(Some((2int, 0int, 5int))) == (1u64 << 35u64));
    assert(flip_spec(shift_spec(c, -1)) == None::<(int, int, int)>);
    assert(shift_spec(c, 2) == Some((1int, 1int, 3int)));
    assert(coord_bits(Some((1int, 1int, 3int))) == (1u64 << 46u64));
    assert(shift_spec(c, -2) == Some((1int, 1int, 5int)));
    assert(coord_bits(Some((1int, 1int, 5int))) == (1u64 << 47u64));
}

proof fn vertex_white_46()
    ensures
        vertex_table(Color::White, 46usize) == vertex_neighbors_geo(46, Color::White),
{
    reveal(vertex_table);
    bv_vertex_white();
    let c = field_at(46, Color::White);
    assert(c == Some((1int, 1int, 3int)));
    lemma_fold6(shift_spec(flip_spec(c), 1), shift_spec(flip_spec(c), -1), flip_spec(shift_spec(c, 1)), flip_spec(shift_spec(c, -1)), shift_spec(c, 2), shift_spec(c, -2));
    assert(shift_spec(flip_spec(c), 1) == Some((1int, 0int, 1int)));
    assert(coord_bits(Some((1int, 0int, 1int))) == (1u64 << 30u64));
    assert(shift_spec(flip_spec(c), -1) == Some((1int, 0int, 5int)));
    assert(coord_bits(Some((1int, 0int, 5int))) == (1u64 << 32u64));
    assert(flip_spec(shift_spec(c, 1)) == Some((0int, 1int, 1int)));
    assert(coord_bits(Some((0int, 1int, 1int))) == (1u64 << 42u64));
    assert(flip_spec(shift_spec(c, -1)) == Some((2int, 0int, 5int)));
    assert(coord_bits(Some((2int, 0int, 5int))) == (1u64 << 35u64));
    assert(shift_spec(c, 2) == Some((1int, 1int, 5int)));
    assert(coord_bits(Some((1int, 1int, 5int))) == (1u64 << 47u64));
    assert(shift_spec(c, -2) == Some((1int, 1int, 1int)));
    assert(coord_bits(Some((1int, 1int, 1int))) == (1u64 << 45u64));
}

proof fn vertex_white_47()
    ensures
        vertex_table(Color::White, 47usize) == vertex_neighbors_geo(47, Color::White),
{
    reveal(vertex_table);
    bv_vertex_white();
    let c = field_at(47, Color::White);
    assert(c == Some((1int, 1int, 5int)));
    lemma_fold6(shift_spec(flip_spec(c), 1), shift_spec(flip_spec(c), -1), flip_spec(shift_spec(c, 1)), flip_spec(shift_spec(c, -1)), shift_spec(c, 2), shift_spec(c, -2));
    assert(shift_spec(flip_spec(c), 1) == Some((0int, 2int, 3int)));
    assert(coord_bits(Some((0int, 2int, 3int))) == (1u64 << 55u64));
    assert(shift_spec(flip_spec(c), -1) == Some((0int, 2int, 1int)));
    assert(coord_bits(Some((0int, 2int, 1int))) == (1u64 << 54u64));
    assert(flip_spec(shift_spec(c, 1)) == None::<(int, int, int)>);
    assert(flip_spec(shift_spec(c, -1)) == Some((0int, 1int, 1int)));
    assert(coord_bits(Some((0int, 1int, 1int))) == (1u64 << 42u64));
    assert(shift_spec(c, 2) == Some((1int, 1int, 1int)));
    assert(coord_bits(Some((1int, 1int, 1int))) == (1u64 << 45u64));
    assert(shift_spec(c, -2) == Some((1int, 1int, 3int)));
    assert(coord_bits(Some((1int, 1int, 3int))) == (1u64 << 46u64));
}

proof fn vertex_white_48()
    ensures
        vertex_table(Color::White, 48usize) == vertex_neighbors_geo(48, Color::White),
{
    reveal(vertex_table);
    bv_vertex_white();
    let c = field_at(48, Color::White);
    assert(c == Some((-2int, 2int, 1int)));
    lemma_fold6(shift_spec(flip_spec(c), 1), shift_spec(flip_spec(c), -1), flip_spec(shift_spec(c, 1)), flip_spec(shift_spec(c, -1)), shift_spec(c, 2), shift_spec(c, -2));
    assert(shift_spec(flip_spec(c), 1) == Some((-1int, 2int, 5int)));
    assert(coord_bits(Some((-1int, 2int, 5int))) == (1u64 << 53u64));
    assert(shift_spec(flip_spec(c), -1) == Some((-1int, 2int, 3int)));
    assert(coord_bits(Some((-1int, 2int, 3int))) == (1u64 << 52u64));
    assert(flip_spec(shift_spec(c, 1)) == Some((-1int, 1int, 5int)));
    assert(coord_bits(Some((-1int, 1int, 5int))) == (1u64 << 41u64));
    assert(flip_spec(shift_spec(c, -1)) == None::<(int, int, int)>);
    assert(shift_spec(c, 2) == Some((-2int, 2int, 3int)));
    assert(coord_bits(Some((-2int, 2int, 3int))) == (1u64 << 49u64));
    assert(shift_spec(c, -2) == Some((-2int, 2int, 5int)));
    assert(coord_bits(Some((-2int, 2int, 5int))) == (1u64 << 50u64));
}

proof fn vertex_white_49()
    ensures
        vertex_table(Color::White, 49usize) == vertex_neighbors_geo(49, Color::White),
{
    reveal(vertex_table);
    bv_vertex_white();
    let c = field_at(49, Color::White);
    assert(c == Some((-2int, 2int, 3int)));
    lemma_fold6(shift_spec(flip_spec(c), 1), shift_spec(flip_spec(c), -1), flip_spec(shift_spec(c, 1)), flip_spec(shift_spec(c, -1)), shift_spec(c, 2), shift_spec(c, -2));
    assert(shift_spec(flip_spec(c), 1) == Some((-2int, 1int, 1int)));
    assert(coord_bits(Some((-2int, 1int, 1int))) == (1u64 << 36u64));
    assert(shift_spec(flip_spec(c), -1) == Some((-2int, 1int, 5int)));
    assert(coord_bits(Some((-2int, 1int, 5int))) == (1u64 << 38u64));
    assert(flip_spec(shift_spec(c, 1)) == None::<(int, int, int)>);
    assert(flip_spec(shift_spec(c, -1)) == Some((-1int, 1int, 5int)));
    assert(coord_bits(Some((-1int, 1int, 5int))) == (1u64 << 41u64));
    assert(shift_spec(c, 2) == Some((-2int, 2int, 5int)));
    assert(coord_bits(Some((-2int, 2int, 5int))) == (1u64 << 50u64));
    assert(shift_spec(c, -2) == Some((-2int, 2int, 1int)));
    assert(coord_bits(Some((-2int, 2int, 1int))) == (1u64 << 48u64));
}

proof fn vertex_white_50()
    ensures
        vertex_table(Color::White, 50usize) == vertex_neighbors_geo(50, Color::White),
{
    reveal(vertex_table);
    bv_vertex_white();
    let c = field_at(50, Color::White);
    assert(c == Some((-2int, 2int, 5int)));
    lemma_fold6(shift_spec(flip_spec(c), 1), shift_spec(flip_spec(c), -1), flip_spec(shift_spec(c, 1)), flip_spec(shift_spec(c, -1)), shift_spec(c, 2), shift_spec(c, -2));
    assert(shift_spec(flip_spec(c), 1) == None::<(int, int, int)>);
    assert(shift_spec(flip_spec(c), -1) == None::<(int, int, int)>);
    assert(flip_spec(shift_spec(c, 1)) == None::<(int, int, int)>);
    assert(flip_spec(shift_spec(c, -1)) == None::<(int, int, int)>);
    assert(shift_spec(c, 2) == Some((-2int, 2int, 1int)));
    assert(coord_bits(Some((-2int, 2int, 1int))) == (1u64 << 48u64));
    assert(shift_spec(c, -2) == Some((-2int, 2int, 3int)));
    assert(coord_bits(Some((-2int, 2int, 3int))) == (1u64 << 49u64));
}

proof fn vertex_white_51()
    ensures
        vertex_table(Color::White, 51usize) == vertex_neighbors_geo(51, Color::White),
{
    reveal(vertex_table);
    bv_vertex_white();
    let c = field_at(51, Color::White);
    assert(c == Some((-1int, 2int, 1int)));
    lemma_fold6(shift_spec(flip_spec(c), 1), shift_spec(flip_spec(c), -1), flip_spec(shift_spec(c, 1)), flip_spec(shift_spec(c, -1)), shift_spec(c, 2), shift_spec(c, -2));
    assert(shift_spec(flip_spec(c), 1) == Some((0int, 2int, 5int)));
    assert(coord_bits(Some((0int, 2int, 5int))) == (1u64 << 56u64));
    assert(shift_spec(flip_spec(c), -1) == Some((0int, 2int, 3int)));
    assert(coord_bits(Some((0int, 2int, 3int))) == (1u64 << 55u64));
    assert(flip_spec(shift_spec(c, 1)) == Some((0int, 1int, 5int)));
    assert(coord_bits(Some((0int, 1int, 5int))) == (1u64 << 44u64));
    assert(flip_spec(shift_spec(c, -1)) == None::<(int, int, int)>);
    assert(shift_spec(c, 2) == Some((-1int, 2int, 3int)));
    assert(coord_bits(Some((-1int, 2int, 3int))) == (1u64 << 52u64));
    assert(shift_spec(c, -2) == Some((-1int, 2int, 5int)));
    assert(coord_bits(Some((-1int, 2int, 5int))) == (1u64 << 53u64));
}

proof fn vertex_white_52()
    ensures
        vertex_table(Color::White, 52usize) == vertex_neighbors_geo(52, Color::White),
{
    reveal(vertex_table);
    bv_vertex_white();
    let c = field_at(52, Color::White);
    assert(c == Some((-1int, 2int, 3int)));
    lemma_fold6(shift_spec(flip_spec(c), 1), shift_spec(flip_spec(c), -1), flip_spec(shift_spec(c, 1)), flip_spec(shift_spec(c, -1)), shift_spec(c, 2), shift_spec(c, -2));
    assert(shift_spec(flip_spec(c), 1) == Some((-1int, 1int, 1int)));
    assert(coord_bits(Some((-1int, 1int, 1int))) == (1u64 << 39u64));
    assert(shift_spec(flip_spec(c), -1) == Some((-1int, 1int, 5int)));
    assert(coord_bits(Some((-1int, 1int, 5int))) == (1u64 << 41u64));
    assert(flip_spec(shift_spec(c, 1)) == Some((-2int, 2int, 1int)));
    assert(coord_bits(Some((-2int, 2int, 1int))) == (1u64 << 48u64));
    assert(flip_spec(shift_spec(c, -1)) == Some((0int, 1int, 5int)));
    assert(coord_bits(Some((0int, 1int, 5int))) == (1u64 << 44u64));
    assert(shift_spec(c, 2) == Some((-1int, 2int, 5int)));
    assert(coord_bits(Some((-1int, 2int, 5int))) == (1u64 << 53u64));
    assert(shift_spec(c, -2) == Some((-1int, 2int, 1int)));
    assert(coord_bits(Some((-1int, 2int, 1int))) == (1u64 << 51u64));
}

proof fn vertex_white_53()
    ensures
        vertex_table(Color::White, 53usize) == vertex_neighbors_geo(53, Color::White),
{
    reveal(vertex_table);
    bv_vertex_white();
    let c = field_at(53, Color::White);
    assert(c == Some((-1int, 2int, 5int)));
    lemma_fold6(shift_spec(flip_spec(c), 1), shift_spec(flip_spec(c), -1), flip_spec(shift_spec(c, 1)), flip_spec(shift_spec(c, -1)), shift_spec(c, 2), shift_spec(c, -2));
    assert(shift_spec(flip_spec(c), 1) == None::<(int, int, int)>);
    assert(shift_spec(flip_spec(c), -1) == None::<(int, int, int)>);
    assert(flip_spec(shift_spec(c, 1)) == None::<(int, int, int)>);
    assert(flip_spec(shift_spec(c, -1)) == Some((-2int, 2int, 1int)));
    assert(coord_bits(Some((-2int, 2int, 1int))) == (1u64 << 48u64));
    assert(shift_spec(c, 2) == Some((-1int, 2int, 1int)));
    assert(coord_bits(Some((-1int, 2int, 1int))) == (1u64 << 51u64));
    assert(shift_spec(c, -2) == Some((-1int, 2int, 3int)));
    assert(coord_bits(Some((-1int, 2int, 3int))) == (1u64 << 52u64));
}

proof fn vertex_white_54()
    ensures
        vertex_table(Color::White, 54usize) == vertex_neighbors_geo(54, Color::White),
{
    reveal(vertex_table);
    bv_vertex_white();
    let c = field_at(54, Color::White);
    assert(c == Some((0int, 2int, 1int)));
    lemma_fold6(shift_spec(flip_spec(c), 1), shift_spec(flip_spec(c), -1), flip_spec(shift_spec(c, 1)), flip_spec(shift_spec(c, -1)), shift_spec(c, 2), shift_spec(c, -2));
    assert(shift_spec(flip_spec(c), 1) == None::<(int, int, int)>);
    assert(shift_spec(flip_spec(c), -1) == None::<(int, int, int)>);
    assert(flip_spec(shift_spec(c, 1)) == Some((1int, 1int, 5int)));
    assert(coord_bits(Some((1int, 1int, 5int))) == (1u64 << 47u64));
    assert(flip_spec(shift_spec(c, -1)) == None::<(int, int, int)>);
    assert(shift_spec(c, 2) == Some((0int, 2int, 3int)));
    assert(coord_bits(Some((0int, 2int, 3int))) == (1u64 << 55u64));
    assert(shift_spec(c, -2) == Some((0int, 2int, 5int)));
    assert(coord_bits(Some((0int, 2int, 5int))) == (1u64 << 56u64));
}

proof fn vertex_white_55()
    ensures
        vertex_table(Color::White, 55usize) == vertex_neighbors_geo(55, Color::White),
{
    reveal(vertex_table);
    bv_vertex_white();
    let c = field_at(55, Color::White);
    assert(c == Some((0int, 2int, 3int)));
    lemma_fold6(shift_spec(flip_spec(c), 1), shift_spec(flip_spec(c), -1), flip_spec(shift_spec(c, 1)), flip_spec(shift_spec(c, -1)), shift_spec(c, 2), shift_spec(c, -2));
    assert(shift_spec(flip_spec(c), 1) == Some((0int, 1int, 1int)));
    assert(coord_bits(Some((0int, 1int, 1int))) == (1u64 << 42u64));
    assert(shift_spec(flip_spec(c), -1) == Some((0int, 1int, 5int)));
    assert(coord_bits(Some((0int, 1int, 5int))) == (1u64 << 44u64));
    assert(flip_spec(shift_spec(c, 1)) == Some((-1int, 2int, 1int)));
    assert(coord_bits(Some((-1int, 2int, 1int))) == (1u64 << 51u64));
    assert(flip_spec(shift_spec(c, -1)) == Some((1int, 1int, 5int)));
    assert(coord_bits(Some((1int, 1int, 5int))) == (1u64 << 47u64));
    assert(shift_spec(c, 2) == Some((0int, 2int, 5int)));
    assert(coord_bits(Some((0int, 2int, 5int))) == (1u64 << 56u64));
    assert(shift_spec(c, -2) == Some((0int, 2int, 1int)));
    assert(coord_bits(Some((0int, 2int, 1int))) == (1u64 << 54u64));
}

proof fn vertex_white_56()
    ensures
        vertex_table(Color::White, 56usize) == vertex_neighbors_geo(56, Color::White),
{
    reveal(vertex_table);
    bv_vertex_white();
    let c = field_at(56, Color::White);
    assert(c == Some((0int, 2int, 5int)));
    lemma_fold6(shift_spec(flip_spec(c), 1), shift_spec(flip_spec(c), -1), flip_spec(shift_spec(c, 1)), flip_spec(shift_spec(c, -1)), shift_spec(c, 2), shift_spec(c, -2));
    assert(shift_spec(flip_spec(c), 1) == None::<(int, int, int)>);
    assert(shift_spec(flip_spec(c), -1) == None::<(int, int, int)>);
    assert(flip_spec(shift_spec(c, 1)) == None::<(int, int, int)>);
    assert(flip_spec(shift_spec(c, -1)) == Some((-1int, 2int, 1int)));
    assert(coord_bits(Some((-1int, 2int, 1int))) == (1u64 << 51u64));
    assert(shift_spec(c, 2) == Some((0int, 2int, 1int)));
    assert(coord_bits(Some((0int, 2int, 1int))) == (1u64 << 54u64));
    assert(shift_spec(c, -2) == Some((0int, 2int, 3int)));
    assert(coord_bits(Some((0int, 2int, 3int))) == (1u64 << 55u64));
}

/// Entry `i` of the vertex table of white fields is the geometry.
pub proof fn lemma_vertex_white(i: int)
    requires
        0 <= i < 57,
    ensures
        vertex_table(Color::White, i as usize) == vertex_neighbors_geo(i, Color::White),
{
    if i == 0 {
        vertex_white_0();
    }
    if i == 1 {
        vertex_white_1();
    }
    if i == 2 {
        vertex_white_2();
    }
    if i == 3 {
        vertex_white_3();
    }
    if i == 4 {
        vertex_white_4();
    }
    if i == 5 {
        vertex_white_5();
    }
    if i == 6 {
        vertex_white_6();
    }
    if i == 7 {
        vertex_white_7();
    }
    if i == 8 {
        vertex_white_8();
    }
    if i == 9 {
        vertex_white_9();
    }
    if i == 10 {
        vertex_white_10();
    }
    if i == 11 {
        vertex_white_11();
    }
    if i == 12 {
        vertex_white_12();
    }
    if i == 13 {
        vertex_white_13();
    }
    if i == 14 {
        vertex_white_14();
    }
    if i == 15 {
        vertex_white_15();
    }
    if i == 16 {
        vertex_white_16();
    }
    if i == 17 {
        vertex_white_17();
    }
    if i == 18 {
        vertex_white_18();
    }
    if i == 19 {
        vertex_white_19();
    }
    if i == 20 {
        vertex_white_20();
    }
    if i == 21 {
        vertex_white_21();
    }
    if i == 22 {
        vertex_white_22();
    }
    if i == 23 {
        vertex_white_23();
    }
    if i == 24 {
        vertex_white_24();
    }
    if i == 25 {
        vertex_white_25();
    }
    if i == 26 {
        vertex_white_26();
    }
    if i == 27 {
        vertex_white_27();
    }
    if i == 28 {
        vertex_white_28();
    }
    if i == 29 {
        vertex_white_29();
    }
    if i == 30 {
        vertex_white_30();
    }
    if i == 31 {
        vertex_white_31();
    }
    if i == 32 {
        vertex_white_32();
    }
    if i == 33 {
        vertex_white_33();
    }
    if i == 34 {
        vertex_white_34();
    }
    if i == 35 {
        vertex_white_35();
    }
    if i == 36 {
        vertex_white_36();
    }
    if i == 37 {
        vertex_white_37();
    }
    if i == 38 {
        vertex_white_38();
    }
    if i == 39 {
        vertex_white_39();
    }
    if i == 40 {
        vertex_white_40();
    }
    if i == 41 {
        vertex_white_41();
    }
    if i == 42 {
        vertex_white_42();
    }
    if i == 43 {
        vertex_white_43();
    }
    if i == 44 {
        vertex_white_44();
    }
    if i == 45 {
        vertex_white_45();
    }
    if i == 46 {
        vertex_white_46();
    }
    if i == 47 {
        vertex_white_47();
    }
    if i == 48 {
        vertex_white_48();
    }
    if i == 49 {
        vertex_white_49();
    }
    if i == 50 {
        vertex_white_50();
    }
    if i == 51 {
        vertex_white_51();
    }
    if i == 52 {
        vertex_white_52();
    }
    if i == 53 {
        vertex_white_53();
    }
    if i == 54 {
        vertex_white_54();
    }
    if i == 55 {
        vertex_white_55();
    }
    if i == 56 {
        vertex_white_56();
    }
}

proof fn bv_vertex_black()
    by (bit_vector)
    ensures
        25638u64 == ((((((0u64 | (1u64 << 14u64)) | (1u64 << 13u64)) | (1u64 << 5u64)) | (1u64 << 10u64)) | (1u64 << 1u64)) | (1u64 << 2u64)),
        37u64 == ((((((0u64 | 0u64) | 0u64) | 0u64) | (1u64 << 5u64)) | (1u64 << 2u64)) | (1u64 << 0u64)),
        1027u64 == ((((((0u64 | 0u64) | 0u64) | (1u64 << 10u64)) | 0u64) | (1u64 << 0u64)) | (1u64 << 1u64)),
        205104u64 == ((((((0u64 | (1u64 << 17u64)) | (1u64 << 16u64)) | (1u64 << 8u64)) | (1u64 << 13u64)) | (1u64 << 4u64)) | (1u64 << 5u64)),
        296u64 == ((((((0u64 | 0u64) | 0u64) | 0u64) | (1u64 << 8u64)) | (1u64 << 5u64)) | (1u64 << 3u64)),
        8219u64 == ((((((0u64 | (1u64 << 1u64)) | (1u64 << 0u64)) | (1u64 << 13u64)) | 0u64) | (1u64 << 3u64)) | (1u64 << 4u64)),
        1638784u64 == ((((((0u64 | (1u64 << 20u64)) | (1u64 << 19u64)) | 0u64) | (1u64 << 16u64)) | (1u64 << 7u64)) | (1u64 << 8u64)),
        320u64 == ((((((0u64 | 0u64) | 0u64) | 0u64) | 0u64) | (1u64 << 8u64)) | (1u64 << 6u64)),
        65752u64 == ((((((0u64 | (1u64 << 4u64)) | (1u64 << 3u64)) | (1u64 << 16u64)) | 0u64) | (1u64 << 6u64)) | (1u64 << 7u64)),
        104877056u64 == ((((((0u64 | (1u64 << 26u64)) | (1u64 << 25u64)) | (1u64 << 14u64)) | (1u64 << 22u64)) | (1u64 << 10u64)) | (1u64 << 11u64)),
        18949u64 == ((((((0u64 | (1u64 << 0u64)) | (1u64 << 2u64)) | 0u64) | (1u64 << 14u64)) | (1u64 << 11u64)) | (1u64 << 9u64)),
        4195840u64 == ((((((0u64 | 0u64) | 0u64) | (1u64 << 22u64)) | 0u64) | (1u64 << 9u64)) | (1u64 << 10u64)),
        839016448u64 == ((((((0u64 | (1u64 << 29u64)) | (1u64 << 28u64)) | (1u64 << 17u64)) | (1u64 << 25u64)) | (1u64 << 13u64)) | (1u64 << 14u64)),
        151593u64 == ((((((0u64 | (1u64 << 3u64)) | (1u64 << 5u64)) | (1u64 << 0u64)) | (1u64 << 17u64)) | (1u64 << 14u64)) | (1u64 << 12u64)),
        33568257u64 == ((((((0u64 | (1u64 << 10u64)) | (1u64 << 9u64)) | (1u64 << 25u64)) | (1u64 << 0u64)) | (1u64 << 12u64)) | (1u64 << 13u64)),
        6712131584u64 == ((((((0u64 | (1u64 << 32u64)) | (1u64 << 31u64)) | (1u64 << 20u64)) | (1u64 << 28u64)) | (1u64 << 16u64)) | (1u64 << 17u64)),
        1212744u64 == ((((((0u64 | (1u64 << 6u64)) | (1u64 << 8u64)) | (1u64 << 3u64)) | (1u64 << 20u64)) | (1u64 << 17u64)) | (1u64 << 15u64)),
        268546056u64 == ((((((0u64 | (1u64 << 13u64)) | (1u64 << 12u64)) | (1u64 << 28u64)) | (1u64 << 3u64)) | (1u64 << 15u64)) | (1u64 << 16u64)),
        53688664064u64 == ((((((0u64 | (1u64 << 35u64)) | (1u64 << 34u64)) | 0u64) | (1u64 << 31u64)) | (1u64 << 19u64)) | (1u64 << 20u64)),
        1310784u64 == ((((((0u64 | 0u64) | 0u64) | (1u64 << 6u64)) | 0u64) | (1u64 << 20u64)) | (1u64 << 18u64)),
        2148368448u64 == ((((((0u64 | (1u64 << 16u64)) | (1u64 << 15u64)) | (1u64 << 31u64)) | (1u64 << 6u64)) | (1u64 << 18u64)) | (1u64 << 19u64)),
        412396552192u64 == ((((((0u64 | (1u64 << 38u64)) | (1u64 << 37u64)) | (1u64 << 26u64)) | 0u64) | (1u64 << 22u64)) | (1u64 << 23u64)),
        77597184u64 == ((((((0u64 | (1u64 << 9u64)) | (1u64 << 11u64)) | 0u64) | (1u64 << 26u64)) | (1u64 << 23u64)) | (1u64 << 21u64)),
        6291456u64 == ((((((0u64 | 0u64) | 0u64) | 0u64) | 0u64) | (1u64 << 21u64)) | (1u64 << 22u64)),
        3436611371008u64 == ((((((0u64 | (1u64 << 41u64)) | (1u64 << 40u64)) | (1u64 << 29u64)) | (1u64 << 37u64)) | (1u64 << 25u64)) | (1u64 << 26u64)),
        620777984u64 == ((((((0u64 | (1u64 << 12u64)) | (1u64 << 14u64)) | (1u64 << 9u64)) | (1u64 << 29u64)) | (1u64 << 26u64)) | (1u64 << 24u64)),
        137495577088u64 == ((((((0u64 | (1u64 << 22u64)) | (1u64 << 21u64)) | (1u64 << 37u64)) | (1u64 << 9u64)) | (1u64 << 24u64)) | (1u64 << 25u64)),
        27492890968064u64 == ((((((0u64 | (1u64 << 44u64)) | (1u64 << 43u64)) | (1u64 << 32u64)) | (1u64 << 40u64)) | (1u64 << 28u64)) | (1u64 << 29u64)),
        4966223872u64 == ((((((0u64 | (1u64 << 15u64)) | (1u64 << 17u64)) | (1u64 << 12u64)) | (1u64 << 32u64)) | (1u64 << 29u64)) | (1u64 << 27u64)),
        1099964616704u64 == ((((((0u64 | (1u64 << 25u64)) | (1u64 << 24u64)) | (1u64 << 40u64)) | (1u64 << 12u64)) | (1u64 << 27u64)) | (1u64 << 28u64)),
        219943127744512u64 == ((((((0u64 | (1u64 << 47u64)) | (1u64 << 46u64)) | (1u64 << 35u64)) | (1u64 << 43u64)) | (1u64 << 31u64)) | (1u64 << 32u64)),
        39729790976u64 == ((((((0u64 | (1u64 << 18u64)) | (1u64 << 20u64)) | (1u64 << 15u64)) | (1u64 << 35u64)) | (1u64 << 32u64)) | (1u64 << 30u64)),
        8799716933632u64 == ((((((0u64 | (1u64 << 28u64)) | (1u64 << 27u64)) | (1u64 << 43u64)) | (1u64 << 15u64)) | (1u64 << 30u64)) | (1u64 << 31u64)),
        70420283785216u64 == ((((((0u64 | 0u64) | 0u64) | 0u64) | (1u64 << 46u64)) | (1u64 << 34u64)) | (1u64 << 35u64)),
        42949935104u64 == ((((((0u64 | 0u64) | 0u64) | (1u64 << 18u64)) | 0u64) | (1u64 << 35u64)) | (1u64 << 33u64)),
        70397735469056u64 == ((((((0u64 | (1u64 << 31u64)) | (1u64 << 30u64)) | (1u64 << 46u64)) | (1u64 << 18u64)) | (1u64 << 33u64)) | (1u64 << 34u64)),
        1691461200379904u64 == ((((((0u64 | (1u64 << 50u64)) | (1u64 << 49u64)) | (1u64 << 41u64)) | 0u64) | (1u64 << 37u64)) | (1u64 << 38u64)),
        2542706622464u64 == ((((((0u64 | (1u64 << 24u64)) | (1u64 << 26u64)) | (1u64 << 21u64)) | (1u64 << 41u64)) | (1u64 << 38u64)) | (1u64 << 36u64)),
        206160527360u64 == ((((((0u64 | 0u64) | 0u64) | 0u64) | (1u64 << 21u64)) | (1u64 << 36u64)) | (1u64 << 37u64)),
        14094639556460544u64 == ((((((0u64 | (1u64 << 53u64)) | (1u64 << 52u64)) | (1u64 << 44u64)) | (1u64 << 49u64)) | (1u64 << 40u64)) | (1u64 << 41u64)),
        20341652979712u64 == ((((((0u64 | (1u64 << 27u64)) | (1u64 << 29u64)) | (1u64 << 24u64)) | (1u64 << 44u64)) | (1u64 << 41u64)) | (1u64 << 39u64)),
        564805396070400u64 == ((((((0u64 | (1u64 << 37u64)) | (1u64 << 36u64)) | (1u64 << 49u64)) | (1u64 << 24u64)) | (1u64 << 39u64)) | (1u64 << 40u64)),
        112757116451684352u64 == ((((((0u64 | (1u64 << 56u64)) | (1u64 << 55u64)) | (1u64 << 47u64)) | (1u64 << 52u64)) | (1u64 << 43u64)) | (1u64 << 44u64)),
        162733223837696u64 == ((((((0u64 | (1u64 << 30u64)) | (1u64 << 32u64)) | (1u64 << 27u64)) | (1u64 << 47u64)) | (1u64 << 44u64)) | (1u64 << 42u64)),
        4518443168563200u64 == ((((((0u64 | (1u64 << 40u64)) | (1u64 << 39u64)) | (1u64 << 52u64)) | (1u64 << 27u64)) | (1u64 << 42u64)) | (1u64 << 43u64)),
        36239903251496960u64 == ((((((0u64 | 0u64) | 0u64) | 0u64) | (1u64 << 55u64)) | (1u64 << 46u64)) | (1u64 << 47u64)),
        175965883858944u64 == ((((((0u64 | (1u64 << 33u64)) | (1u64 << 35u64)) | (1u64 << 30u64)) | 0u64) | (1u64 << 47u64)) | (1u64 << 45u64)),
        36147545348505600u64 == ((((((0u64 | (1u64 << 43u64)) | (1u64 << 42u64)) | (1u64 << 55u64)) | (1u64 << 30u64)) | (1u64 << 45u64)) | (1u64 << 46u64)),
        10696049115004928u64 == ((((((0u64 | 0u64) | 0u64) | (1u64 << 53u64)) | 0u64) | (1u64 << 49u64)) | (1u64 << 50u64)),
        10417391636840448u64 == ((((((0u64 | (1u64 << 39u64)) | (1u64 << 41u64)) | (1u64 << 36u64)) | (1u64 << 53u64)) | (1u64 << 50u64)) | (1u64 << 48u64)),
        844493649608704u64 == ((((((0u64 | 0u64) | 0u64) | 0u64) | (1u64 << 36u64)) | (1u64 << 48u64)) | (1u64 << 49u64)),
        85568392920039424u64 == ((((((0u64 | 0u64) | 0u64) | (1u64 << 56u64)) | 0u64) | (1u64 << 52u64)) | (1u64 << 53u64)),
        83339133094723584u64 == ((((((0u64 | (1u64 << 42u64)) | (1u64 << 44u64)) | (1u64 << 39u64)) | (1u64 << 56u64)) | (1u64 << 53u64)) | (1u64 << 51u64)),
        7600374127001600u64 == ((((((0u64 | (1u64 << 49u64)) | (1u64 << 48u64)) | 0u64) | (1u64 << 39u64)) | (1u64 << 51u64)) | (1u64 << 52u64)),
        108086391056891904u64 == ((((((0u64 | 0u64) | 0u64) | 0u64) | 0u64) | (1u64 << 55u64)) | (1u64 << 56u64)),
        90252312454365184u64 == ((((((0u64 | (1u64 << 45u64)) | (1u64 << 47u64)) | (1u64 << 42u64)) | 0u64) | (1u64 << 56u64)) | (1u64 << 54u64)),
        60802993016012800u64 == ((((((0u64 | (1u64 << 52u64)) | (1u64 << 51u64)) | 0u64) | (1u64 << 42u64)) | (1u64 << 54u64)) | (1u64 << 55u64)),
{
}

proof fn vertex_black_0()
    ensures
        vertex_table(Color::Black, 0usize) == vertex_neighbors_geo(0, Color::Black),
{
    reveal(vertex_table);
    bv_vertex_black();
    let c = field_at(0, Color::Black);
    assert(c == Some((0int, -2int, 0int)));
    lemma_fold6(shift_spec(flip_spec(c), 1), shift_spec(flip_spec(c), -1), flip_spec(shift_spec(c, 1)), flip_spec(shift_spec(c, -1)), shift_spec(c, 2), shift_spec(c, -2));
    assert(shift_spec(flip_spec(c), 1) == Some((0int, -1int, 4int)));
    assert(coord_bits(Some((0int, -1int, 4int))) == (1u64 << 14u64));
    assert(shift_spec(flip_spec(c), -1) == Some((0int, -1int, 2int)));
    assert(coord_bits(Some((0int, -1int, 2int))) == (1u64 << 13u64));
    assert(flip_spec(shift_spec(c, 1)) == Some((1int, -2int, 4int)));
    assert(coord_bits(Some((1int, -2int, 4int))) == (1u64 << 5u64));
    assert(flip_spec(shift_spec(c, -1)) == Some((-1int, -1int, 2int)));
    assert(coord_bits(Some((-1int, -1int, 2int))) == (1u64 << 10u64));
    assert(shift_spec(c, 2) == Some((0int, -2int, 2int)));
    assert(coord_bits(Some((0int, -2int, 2int))) == (1u64 << 1u64));
    assert(shift_spec(c, -2) == Some((0int, -2int, 4int)));
    assert(coord_bits(Some((0int, -2int, 4int))) == (1u64 << 2u64));
}

proof fn vertex_black_1()
    ensures
        vertex_table(Color::Black, 1usize) == vertex_neighbors_geo(1, Color::Black),
{
    reveal(vertex_table);
    bv_vertex_black();
    let c = field_at(1, Color::Black);
    assert(c == Some((0int, -2int, 2int)));
    lemma_fold6(shift_spec(flip_spec(c), 1), shift_spec(flip_spec(c), -1), flip_spec(shift_spec(c, 1)), flip_spec(shift_spec(c, -1)), shift_spec(c, 2), shift_spec(c, -2));
    assert(shift_spec(flip_spec(c), 1) == None::<(int, int, int)>);
    assert(shift_spec(flip_spec(c), -1) == None::<(int, int, int)>);
    assert(flip_spec(shift_spec(c, 1)) == None::<(int, int, int)>);
    assert(flip_spec(shift_spec(c, -1)) == Some((1int, -2int, 4int)));
    assert(coord_bits(Some((1int, -2int, 4int))) == (1u64 << 5u64));
    assert(shift_spec(c, 2) == Some((0int, -2int, 4int)));
    assert(coord_bits(Some((0int, -2int, 4int))) == (1u64 << 2u64));
    assert(shift_spec(c, -2) == Some((0int, -2int, 0int)));
    assert(coord_bits(Some((0int, -2int, 0int))) == (1u64 << 0u64));
}

proof fn vertex_black_2()
    ensures
        vertex_table(Color::Black, 2usize) == vertex_neighbors_geo(2, Color::Black),
{
    reveal(vertex_table);
    bv_vertex_black();
    let c = field_at(2, Color::Black);
    assert(c == Some((0int, -2int, 4int)));
    lemma_fold6(shift_spec(flip_spec(c), 1), shift_spec(flip_spec(c), -1), flip_spec(shift_spec(c, 1)), flip_spec(shift_spec(c, -1)), shift_spec(c, 2), shift_spec(c, -2));
    assert(shift_spec(flip_spec(c), 1) == None::<(int, int, int)>);
    assert(shift_spec(flip_spec(c), -1) == None::<(int, int, int)>);
    assert(flip_spec(shift_spec(c, 1)) == Some((-1int, -1int, 2int)));
    assert(coord_bits(Some((-1int, -1int, 2int))) == (1u64 << 10u64));
    assert(flip_spec(shift_spec(c, -1)) == None::<(int, int, int)>);
    assert(shift_spec(c, 2) == Some((0int, -2int, 0int)));
    assert(coord_bits(Some((0int, -2int, 0int))) == (1u64 << 0u64));
    assert(shift_spec(c, -2) == Some((0int, -2int, 2int)));
    assert(coord_bits(Some((0int, -2int, 2int))) == (1u64 << 1u64));
}

proof fn vertex_black_3()
    ensures
        vertex_table(Color::Black, 3usize) == vertex_neighbors_geo(3, Color::Black),
{
    reveal(vertex_table);
    bv_vertex_black();
    let c = field_at(3, Color::Black);
    assert(c == Some((1int, -2int, 0int)));
    lemma_fold6(shift_spec(flip_spec(c), 1), shift_spec(flip_spec(c), -1), flip_spec(shift_spec(c, 1)), flip_spec(shift_spec(c, -1)), shift_spec(c, 2), shift_spec(c, -2));
    assert(shift_spec(flip_spec(c), 1) == Some((1int, -1int, 4int)));
    assert(coord_bits(Some((1int, -1int, 4int))) == (1u64 << 17u64));
    assert(shift_spec(flip_spec(c), -1) == Some((1int, -1int, 2int)));
    assert(coord_bits(Some((1int, -1int, 2int))) == (1u64 << 16u64));
    assert(flip_spec(shift_spec(c, 1)) == Some((2int, -2int, 4int)));
    assert(coord_bits(Some((2int, -2int, 4int))) == (1u64 << 8u64));
    assert(flip_spec(shift_spec(c, -1)) == Some((0int, -1int, 2int)));
    assert(coord_bits(Some((0int, -1int, 2int))) == (1u64 << 13u64));
    assert(shift_spec(c, 2) == Some((1int, -2int, 2int)));
    assert(coord_bits(Some((1int, -2int, 2int))) == (1u64 << 4u64));
    assert(shift_spec(c, -2) == Some((1int, -2int, 4int)));
    assert(coord_bits(Some((1int, -2int, 4int))) == (1u64 << 5u64));
}

proof fn vertex_black_4()
    ensures
        vertex_table(Color::Black, 4usize) == vertex_neighbors_geo(4, Color::Black),
{
    reveal(vertex_table);
    bv_vertex_black();
    let c = field_at(4, Color::Black);
    assert(c == Some((1int, -2int, 2int)));
    lemma_fold6(shift_spec(flip_spec(c), 1), shift_spec(flip_spec(c), -1), flip_spec(shift_spec(c, 1)), flip_spec(shift_spec(c, -1)), shift_spec(c, 2), shift_spec(c, -2));
    assert(shift_spec(flip_spec(c), 1) == None::<(int, int, int)>);
    assert(shift_spec(flip_spec(c), -1) == None::<(int, int, int)>);
    assert(flip_spec(shift_spec(c, 1)) == None::<(int, int, int)>);
    assert(flip_spec(shift_spec(c, -1)) == Some((2int, -2int, 4int)));
    assert(coord_bits(Some((2int, -2int, 4int))) == (1u64 << 8u64));
    assert(shift_spec(c, 2) == Some((1int, -2int, 4int)));
    assert(coord_bits(Some((1int, -2int, 4int))) == (1u64 << 5u64));
    assert(shift_spec(c, -2) == Some((1int, -2int, 0int)));
    assert(coord_bits(Some((1int, -2int, 0int))) == (1u64 << 3u64));
}

proof fn vertex_black_5()
    ensures
        vertex_table(Color::Black, 5usize) == vertex_neighbors_geo(5, Color::Black),
{
    reveal(vertex_table);
    bv_vertex_black();
    let c = field_at(5, Color::Black);
    assert(c == Some((1int, -2int, 4int)));
    lemma_fold6(shift_spec(flip_spec(c), 1), shift_spec(flip_spec(c), -1), flip_spec(shift_spec(c, 1)), flip_spec(shift_spec(c, -1)), shift_spec(c, 2), shift_spec(c, -2));
    assert(shift_spec(flip_spec(c), 1) == Some((0int, -2int, 2int)));
    assert(coord_bits(Some((0int, -2int, 2int))) == (1u64 << 1u64));
    assert(shift_spec(flip_spec(c), -1) == Some((0int, -2int, 0int)));
    assert(coord_bits(Some((0int, -2int, 0int))) == (1u64 << 0u64));
    assert(flip_spec(shift_spec(c, 1)) == Some((0int, -1int, 2int)));
    assert(coord_bits(Some((0int, -1int, 2int))) == (1u64 << 13u64));
    assert(flip_spec(shift_spec(c, -1)) == None::<(int, int, int)>);
    assert(shift_spec(c, 2) == Some((1int, -2int, 0int)));
    assert(coord_bits(Some((1int, -2int, 0int))) == (1u64 << 3u64));
    assert(shift_spec(c, -2) == Some((1int, -2int, 2int)));
    assert(coord_bits(Some((1int, -2int, 2int))) == (1u64 << 4u64));
}

proof fn vertex_black_6()
    ensures
        vertex_table(Color::Black, 6usize) == vertex_neighbors_geo(6, Color::Black),
{
    reveal(vertex_table);
    bv_vertex_black();
    let c = field_at(6, Color::Black);
    assert(c == Some((2int, -2int, 0int)));
    lemma_fold6(shift_spec(flip_spec(c), 1), shift_spec(flip_spec(c), -1), flip_spec(shift_spec(c, 1)), flip_spec(shift_spec(c, -1)), shift_spec(c, 2), shift_spec(c, -2));
    assert(shift_spec(flip_spec(c), 1) == Some((2int, -1int, 4int)));
    assert(coord_bits(Some((2int, -1int, 4int))) == (1u64 << 20u64));
    assert(shift_spec(flip_spec(c), -1) == Some((2int, -1int, 2int)));
    assert(coord_bits(Some((2int, -1int, 2int))) == (1u64 << 19u64));
    assert(flip_spec(shift_spec(c, 1)) == None::<(int, int, int)>);
    assert(flip_spec(shift_spec(c, -1)) == Some((1int, -1int, 2int)));
    assert(coord_bits(Some((1int, -1int, 2int))) == (1u64 << 16u64));
    assert(shift_spec(c, 2) == Some((2int, -2int, 2int)));
    assert(coord_bits(Some((2int, -2int, 2int))) == (1u64 << 7u64));
    assert(shift_spec(c, -2) == Some((2int, -2int, 4int)));
    assert(coord_bits(Some((2int, -2int, 4int))) == (1u64 << 8u64));
}

proof fn vertex_black_7()
    ensures
        vertex_table(Color::Black, 7usize) == vertex_neighbors_geo(7, Color::Black),
{
    reveal(vertex_table);
    bv_vertex_black();
    let c = field_at(7, Color::Black);
    assert(c == Some((2int, -2int, 2int)));
    lemma_fold6(shift_spec(flip_spec(c), 1), shift_spec(flip_spec(c), -1), flip_spec(shift_spec(c, 1)), flip_spec(shift_spec(c, -1)), shift_spec(c, 2), shift_spec(c, -2));
    assert(shift_spec(flip_spec(c), 1) == None::<(int, int, int)>);
    assert(shift_spec(flip_spec(c), -1) == None::<(int, int, int)>);
    assert(flip_spec(shift_spec(c, 1)) == None::<(int, int, int)>);
    assert(flip_spec(shift_spec(c, -1)) == None::<(int, int, int)>);
    assert(shift_spec(c, 2) == Some((2int, -2int, 4int)));
    assert(coord_bits(Some((2int, -2int, 4int))) == (1u64 << 8u64));
    assert(shift_spec(c, -2) == Some((2int, -2int, 0int)));
    assert(coord_bits(Some((2int, -2int, 0int))) == (1u64 << 6u64));
}

proof fn vertex_black_8()
    ensures
        vertex_table(Color::Black, 8usize) == vertex_neighbors_geo(8, Color::Black),
{
    reveal(vertex_table);
    bv_vertex_black();
    let c = field_at(8, Color::Black);
    assert(c == Some((2int, -2int, 4int)));
    lemma_fold6(shift_spec(flip_spec(c), 1), shift_spec(flip_spec(c), -1), flip_spec(shift_spec(c, 1)), flip_spec(shift_spec(c, -1)), shift_spec(c, 2), shift_spec(c, -2));
    assert(shift_spec(flip_spec(c), 1) == Some((1int, -2int, 2int)));
    assert(coord_bits(Some((1int, -2int, 2int))) == (1u64 << 4u64));
    assert(shift_spec(flip_spec(c), -1) == Some((1int, -2int, 0int)));
    assert(coord_bits(Some((1int, -2int, 0int))) == (1u64 << 3u64));
    assert(flip_spec(shift_spec(c, 1)) == Some((1int, -1int, 2int)));
    assert(coord_bits(Some((1int, -1int, 2int))) == (1u64 << 16u64));
    assert(flip_spec(shift_spec(c, -1)) == None::<(int, int, int)>);
    assert(shift_spec(c, 2) == Some((2int, -2int, 0int)));
    assert(coord_bits(Some((2int, -2int, 0int))) == (1u64 << 6u64));
    assert(shift_spec(c, -2) == Some((2int, -2int, 2int)));
    assert(coord_bits(Some((2int, -2int, 2int))) == (1u64 << 7u64));
}

proof fn vertex_black_9()
    ensures
        vertex_table(Color::Black, 9usize) == vertex_neighbors_geo(9, Color::Black),
{
    reveal(vertex_table);
    bv_vertex_black();
    let c = field_at(9, Color::Black);
    assert(c == Some((-1int, -1int, 0int)));
    lemma_fold6(shift_spec(flip_spec(c), 1), shift_spec(flip_spec(c), -1), flip_spec(shift_spec(c, 1)), flip_spec(shift_spec(c, -1)), shift_spec(c, 2), shift_spec(c, -2));
    assert(shift_spec(flip_spec(c), 1) == Some((-1int, 0int, 4int)));
    assert(coord_bits(Some((-1int, 0int, 4int))) == (1u64 << 26u64));
    assert(shift_spec(flip_spec(c), -1) == Some((-1int, 0int, 2int)));
    assert(coord_bits(Some((-1int, 0int, 2int))) == (1u64 << 25u64));
    assert(flip_spec(shift_spec(c, 1)) == Some((0int, -1int, 4int)));
    assert(coord_bits(Some((0int, -1int, 4int))) == (1u64 << 14u64));
    assert(flip_spec(shift_spec(c, -1)) == Some((-2int, 0int, 2int)));
    assert(coord_bits(Some((-2int, 0int, 2int))) == (1u64 << 22u64));
    assert(shift_spec(c, 2) == Some((-1int, -1int, 2int)));
    assert(coord_bits(Some((-1int, -1int, 2int))) == (1u64 << 10u64));
    assert(shift_spec(c, -2) == Some((-1int, -1int, 4int)));
    assert(coord_bits(Some((-1int, -1int, 4int))) == (1u64 << 11u64));
}

proof fn vertex_black_10()
    ensures
        vertex_table(Color::Black, 10usize) == vertex_neighbors_geo(10, Color::Black),
{
    reveal(vertex_table);
    bv_vertex_black();
    let c = field_at(10, Color::Black);
    assert(c == Some((-1int, -1int, 2int)));
    lemma_fold6(shift_spec(flip_spec(c), 1), shift_spec(flip_spec(c), -1), flip_spec(shift_spec(c, 1)), flip_spec(shift_spec(c, -1)), shift_spec(c, 2), shift_spec(c, -2));
    assert(shift_spec(flip_spec(c), 1) == Some((0int, -2int, 0int)));
    assert(coord_bits(Some((0int, -2int, 0int))) == (1u64 << 0u64));
    assert(shift_spec(flip_spec(c), -1) == Some((0int, -2int, 4int)));
    assert(coord_bits(Some((0int, -2int, 4int))) == (1u64 << 2u64));
    assert(flip_spec(shift_spec(c, 1)) == None::<(int, int, int)>);
    assert(flip_spec(shift_spec(c, -1)) == Some((0int, -1int, 4int)));
    assert(coord_bits(Some((0int, -1int, 4int))) == (1u64 << 14u64));
    assert(shift_spec(c, 2) == Some((-1int, -1int, 4int)));
    assert(coord_bits(Some((-1int, -1int, 4int))) == (1u64 << 11u64));
    assert(shift_spec(c, -2) == Some((-1int, -1int, 0int)));
    assert(coord_bits(Some((-1int, -1int, 0int))) == (1u64 << 9u64));
}

proof fn vertex_black_11()
    ensures
        vertex_table(Color::Black, 11usize) == vertex_neighbors_geo(11, Color::Black),
{
    reveal(vertex_table);
    bv_vertex_black();
    let c = field_at(11, Color::Black);
    assert(c == Some((-1int, -1int, 4int)));
    lemma_fold6(shift_spec(flip_spec(c), 1), shift_spec(flip_spec(c), -1), flip_spec(shift_spec(c, 1)), flip_spec(shift_spec(c, -1)), shift_spec(c, 2), shift_spec(c, -2));
    assert(shift_spec(flip_spec(c), 1) == None::<(int, int, int)>);
    assert(shift_spec(flip_spec(c), -1) == None::<(int, int, int)>);
    assert(flip_spec(shift_spec(c, 1)) == Some((-2int, 0int, 2int)));
    assert(coord_bits(Some((-2int, 0int, 2int))) == (1u64 << 22u64));
    assert(flip_spec(shift_spec(c, -1)) == None::<(int, int, int)>);
    assert(shift_spec(c, 2) == Some((-1int, -1int, 0int)));
    assert(coord_bits(Some((-1int, -1int, 0int))) == (1u64 << 9u64));
    assert(shift_spec(c, -2) == Some((-1int, -1int, 2int)));
    assert(coord_bits(Some((-1int, -1int, 2int))) == (1u64 << 10u64));
}

proof fn vertex_black_12()
    ensures
        vertex_table(Color::Black, 12usize) == vertex_neighbors_geo(12, Color::Black),
{
    reveal(vertex_table);
    bv_vertex_black();
    let c = field_at(12, Color::Black);
    assert(c == Some((0int, -1int, 0int)));
    lemma_fold6(shift_spec(flip_spec(c), 1), shift_spec(flip_spec(c), -1), flip_spec(shift_spec(c, 1)), flip_spec(shift_spec(c, -1)), shift_spec(c, 2), shift_spec(c, -2));
    assert(shift_spec(flip_spec(c), 1) == Some((0int, 0int, 4int)));
    assert(coord_bits(Some((0int, 0int, 4int))) == (1u64 << 29u64));
    assert(shift_spec(flip_spec(c), -1) == Some((0int, 0int, 2int)));
    assert(coord_bits(Some((0int, 0int, 2int))) == (1u64 << 28u64));
    assert(flip_spec(shift_spec(c, 1)) == Some((1int, -1int, 4int)));
    assert(coord_bits(Some((1int, -1int, 4int))) == (1u64 << 17u64));
    assert(flip_spec(shift_spec(c, -1)) == Some((-1int, 0int, 2int)));
    assert(coord_bits(Some((-1int, 0int, 2int))) == (1u64 << 25u64));
    assert(shift_spec(c, 2) == Some((0int, -1int, 2int)));
    assert(coord_bits(Some((0int, -1int, 2int))) == (1u64 << 13u64));
    assert(shift_spec(c, -2) == Some((0int, -1int, 4int)));
    assert(coord_bits(Some((0int, -1int, 4int))) == (1u64 << 14u64));
}

proof fn vertex_black_13()
    ensures
        vertex_table(Color::Black, 13usize) == vertex_neighbors_geo(13, Color::Black),
{
    reveal(vertex_table);
    bv_vertex_black();
    let c = field_at(13, Color::Black);
    assert(c == Some((0int, -1int, 2int)));
    lemma_fold6(shift_spec(flip_spec(c), 1), shift_spec(flip_spec(c), -1), flip_spec(shift_spec(c, 1)), flip_spec(shift_spec(c, -1)), shift_spec(c, 2), shift_spec(c, -2));
    assert(shift_spec(flip_spec(c), 1) == Some((1int, -2int, 0int)));
    assert(coord_bits(Some((1int, -2int, 0int))) == (1u64 << 3u64));
    assert(shift_spec(flip_spec(c), -1) == Some((1int, -2int, 4int)));
    assert(coord_bits(Some((1int, -2int, 4int))) == (1u64 << 5u64));
    assert(flip_spec(shift_spec(c, 1)) == Some((0int, -2int, 0int)));
    assert(coord_bits(Some((0int, -2int, 0int))) == (1u64 << 0u64));
    assert(flip_spec(shift_spec(c, -1)) == Some((1int, -1int, 4int)));
    assert(coord_bits(Some((1int, -1int, 4int))) == (1u64 << 17u64));
    assert(shift_spec(c, 2) == Some((0int, -1int, 4int)));
    assert(coord_bits(Some((0int, -1int, 4int))) == (1u64 << 14u64));
    assert(shift_spec(c, -2) == Some((0int, -1int, 0int)));
    assert(coord_bits(Some((0int, -1int, 0int))) == (1u64 << 12u64));
}

proof fn vertex_black_14()
    ensures
        vertex_table(Color::Black, 14usize) == vertex_neighbors_geo(14, Color::Black),
{
    reveal(vertex_table);
    bv_vertex_black();
    let c = field_at(14, Color::Black);
    assert(c == Some((0int, -1int, 4int)));
    lemma_fold6(shift_spec(flip_spec(c), 1), shift_spec(flip_spec(c), -1), flip_spec(shift_spec(c, 1)), flip_spec(shift_spec(c, -1)), shift_spec(c, 2), shift_spec(c, -2));
    assert(shift_spec(flip_spec(c), 1) == Some((-1int, -1int, 2int)));
    assert(coord_bits(Some((-1int, -1int, 2int))) == (1u64 << 10u64));
    assert(shift_spec(flip_spec(c), -1) == Some((-1int, -1int, 0int)));
    assert(coord_bits(Some((-1int, -1int, 0int))) == (1u64 << 9u64));
    assert(flip_spec(shift_spec(c, 1)) == Some((-1int, 0int, 2int)));
    assert(coord_bits(Some((-1int, 0int, 2int))) == (1u64 << 25u64));
    assert(flip_spec(shift_spec(c, -1)) == Some((0int, -2int, 0int)));
    assert(coord_bits(Some((0int, -2int, 0int))) == (1u64 << 0u64));
    assert(shift_spec(c, 2) == Some((0int, -1int, 0int)));
    assert(coord_bits(Some((0int, -1int, 0int))) == (1u64 << 12u64));
    assert(shift_spec(c, -2) == Some((0int, -1int, 2int)));
    assert(coord_bits(Some((0int, -1int, 2int))) == (1u64 << 13u64));
}

proof fn vertex_black_15()
    ensures
        vertex_table(Color::Black, 15usize) == vertex_neighbors_geo(15, Color::Black),
{
    reveal(vertex_table);
    bv_vertex_black();
    let c = field_at(15, Color::Black);
    assert(c == Some((1int, -1int, 0int)));
    lemma_fold6(shift_spec(flip_spec(c), 1), shift_spec(flip_spec(c), -1), flip_spec(shift_spec(c, 1)), flip_spec(shift_spec(c, -1)), shift_spec(c, 2), shift_spec(c, -2));
    assert(shift_spec(flip_spec(c), 1) == Some((1int, 0int, 4int)));
    assert(coord_bits(Some((1int, 0int, 4int))) == (1u64 << 32u64));
    assert(shift_spec(flip_spec(c), -1) == Some((1int, 0int, 2int)));
    assert(coord_bits(Some((1int, 0int, 2int))) == (1u64 << 31u64));
    assert(flip_spec(shift_spec(c, 1)) == Some((2int, -1int, 4int)));
    assert(coord_bits(Some((2int, -1int, 4int))) == (1u64 << 20u64));
    assert(flip_spec(shift_spec(c, -1)) == Some((0int, 0int, 2int)));
    assert(coord_bits(Some((0int, 0int, 2int))) == (1u64 << 28u64));
    assert(shift_spec(c, 2) == Some((1int, -1int, 2int)));
    assert(coord_bits(Some((1int, -1int, 2int))) == (1u64 << 16u64));
    assert(shift_spec(c, -2) == Some((1int, -1int, 4int)));
    assert(coord_bits(Some((1int, -1int, 4int))) == (1u64 << 17u64));
}

proof fn vertex_black_16()
    ensures
        vertex_table(Color::Black, 16usize) == vertex_neighbors_geo(16, Color::Black),
{
    reveal(vertex_table);
    bv_vertex_black();
    let c = field_at(16, Color::Black);
    assert(c == Some((1int, -1int, 2int)));
    lemma_fold6(shift_spec(flip_spec(c), 1), shift_spec(flip_spec(c), -1), flip_spec(shift_spec(c, 1)), flip_spec(shift_spec(c, -1)), shift_spec(c, 2), shift_spec(c, -2));
    assert(shift_spec(flip_spec(c), 1) == Some((2int, -2int, 0int)));
    assert(coord_bits(Some((2int, -2int, 0int))) == (1u64 << 6u64));
    assert(shift_spec(flip_spec(c), -1) == Some((2int, -2int, 4int)));
    assert(coord_bits(Some((2int, -2int, 4int))) == (1u64 << 8u64));
    assert(flip_spec(shift_spec(c, 1)) == Some((1int, -2int, 0int)));
    assert(coord_bits(Some((1int, -2int, 0int))) == (1u64 << 3u64));
    assert(flip_spec(shift_spec(c, -1)) == Some((2int, -1int, 4int)));
    assert(coord_bits(Some((2int, -1int, 4int))) == (1u64 << 20u64));
    assert(shift_spec(c, 2) == Some((1int, -1int, 4int)));
    assert(coord_bits(Some((1int, -1int, 4int))) == (1u64 << 17u64));
    assert(shift_spec(c, -2) == Some((1int, -1int, 0int)));
    assert(coord_bits(Some((1int, -1int, 0int))) == (1u64 << 15u64));
}

proof fn vertex_black_17()
    ensures
        vertex_table(Color::Black, 17usize) == vertex_neighbors_geo(17, Color::Black),
{
    reveal(vertex_table);
    bv_vertex_black();
    let c = field_at(17, Color::Black);
    assert(c == Some((1int, -1int, 4int)));
    lemma_fold6(shift_spec(flip_spec(c), 1), shift_spec(flip_spec(c), -1), flip_spec(shift_spec(c, 1)), flip_spec(shift_spec(c, -1)), shift_spec(c, 2), shift_spec(c, -2));
    assert(shift_spec(flip_spec(c), 1) == Some((0int, -1int, 2int)));
    assert(coord_bits(Some((0int, -1int, 2int))) == (1u64 << 13u64));
    assert(shift_spec(flip_spec(c), -1) == Some((0int, -1int, 0int)));
    assert(coord_bits(Some((0int, -1int, 0int))) == (1u64 << 12u64));
    assert(flip_spec(shift_spec(c, 1)) == Some((0int, 0int, 2int)));
    assert(coord_bits(Some((0int, 0int, 2int))) == (1u64 << 28u64));
    assert(flip_spec(shift_spec(c, -1)) == Some((1int, -2int, 0int)));
    assert(coord_bits(Some((1int, -2int, 0int))) == (1u64 << 3u64));
    assert(shift_spec(c, 2) == Some((1int, -1int, 0int)));
    assert(coord_bits(Some((1int, -1int, 0int))) == (1u64 << 15u64));
    assert(shift_spec(c, -2) == Some((1int, -1int, 2int)));
    assert(coord_bits(Some((1int, -1int, 2int))) == (1u64 << 16u64));
}

proof fn vertex_black_18()
    ensures
        vertex_table(Color::Black, 18usize) == vertex_neighbors_geo(18, Color::Black),
{
    reveal(vertex_table);
    bv_vertex_black();
    let c = field_at(18, Color::Black);
    assert(c == Some((2int, -1int, 0int)));
    lemma_fold6(shift_spec(flip_spec(c), 1), shift_spec(flip_spec(c), -1), flip_spec(shift_spec(c, 1)), flip_spec(shift_spec(c, -1)), shift_spec(c, 2), shift_spec(c, -2));
    assert(shift_spec(flip_spec(c), 1) == Some((2int, 0int, 4int)));
    assert(coord_bits(Some((2int, 0int, 4int))) == (1u64 << 35u64));
    assert(shift_spec(flip_spec(c), -1) == Some((2int, 0int, 2int)));
    assert(coord_bits(Some((2int, 0int, 2int))) == (1u64 << 34u64));
    assert(flip_spec(shift_spec(c, 1)) == None::<(int, int, int)>);
    assert(flip_spec(shift_spec(c, -1)) == Some((1int, 0int, 2int)));
    assert(coord_bits(Some((1int, 0int, 2int))) == (1u64 << 31u64));
    assert(shift_spec(c, 2) == Some((2int, -1int, 2int)));
    assert(coord_bits(Some((2int, -1int, 2int))) == (1u64 << 19u64));
    assert(shift_spec(c, -2) == Some((2int, -1int, 4int)));
    assert(coord_bits(Some((2int, -1int, 4int))) == (1u64 << 20u64));
}

proof fn vertex_black_19()
    ensures
        vertex_table(Color::Black, 19usize) == vertex_neighbors_geo(19, Color::Black),
{
    reveal(vertex_table);
    bv_vertex_black();
    let c = field_at(19, Color::Black);
    assert(c == Some((2int, -1int, 2int)));
    lemma_fold6(shift_spec(flip_spec(c), 1), shift_spec(flip_spec(c), -1), flip_spec(shift_spec(c, 1)), flip_spec(shift_spec(c, -1)), shift_spec(c, 2), shift_spec(c, -2));
    assert(shift_spec(flip_spec(c), 1) == None::<(int, int, int)>);
    assert(shift_spec(flip_spec(c), -1) == None::<(int, int, int)>);
    assert(flip_spec(shift_spec(c, 1)) == Some((2int, -2int, 0int)));
    assert(coord_bits(Some((2int, -2int, 0int))) == (1u64 << 6u64));
    assert(flip_spec(shift_spec(c, -1)) == None::<(int, int, int)>);
    assert(shift_spec(c, 2) == Some((2int, -1int, 4int)));
    assert(coord_bits(Some((2int, -1int, 4int))) == (1u64 << 20u64));
    assert(shift_spec(c, -2) == Some((2int, -1int, 0int)));
    assert(coord_bits(Some((2int, -1int, 0int))) == (1u64 << 18u64));
}

proof fn vertex_black_20()
    ensures
        vertex_table(Color::Black, 20usize) == vertex_neighbors_geo(20, Color::Black),
{
    reveal(vertex_table);
    bv_vertex_black();
    let c = field_at(20, Color::Black);
    assert(c == Some((2int, -1int, 4int)));
    lemma_fold6(shift_spec(flip_spec(c), 1), shift_spec(flip_spec(c), -1), flip_spec(shift_spec(c, 1)), flip_spec(shift_spec(c, -1)), shift_spec(c, 2), shift_spec(c, -2));
    assert(shift_spec(flip_spec(c), 1) == Some((1int, -1int, 2int)));
    assert(coord_bits(Some((1int, -1int, 2int))) == (1u64 << 16u64));
    assert(shift_spec(flip_spec(c), -1) == Some((1int, -1int, 0int)));
    assert(coord_bits(Some((1int, -1int, 0int))) == (1u64 << 15u64));
    assert(flip_spec(shift_spec(c, 1)) == Some((1int, 0int, 2int)));
    assert(coord_bits(Some((1int, 0int, 2int))) == (1u64 << 31u64));
    assert(flip_spec(shift_spec(c, -1)) == Some((2int, -2int, 0int)));
    assert(coord_bits(Some((2int, -2int, 0int))) == (1u64 << 6u64));
    assert(shift_spec(c, 2) == Some((2int, -1int, 0int)));
    assert(coord_bits(Some((2int, -1int, 0int))) == (1u64 << 18u64));
    assert(shift_spec(c, -2) == Some((2int, -1int, 2int)));
    assert(coord_bits(Some((2int, -1int, 2int))) == (1u64 << 19u64));
}

proof fn vertex_black_21()
    ensures
        vertex_table(Color::Black, 21usize) == vertex_neighbors_geo(21, Color::Black),
{
    reveal(vertex_table);
    bv_vertex_black();
    let c = field_at(21, Color::Black);
    assert(c == Some((-2int, 0int, 0int)));
    lemma_fold6(shift_spec(flip_spec(c), 1), shift_spec(flip_spec(c), -1), flip_spec(shift_spec(c, 1)), flip_spec(shift_spec(c, -1)), shift_spec(c, 2), shift_spec(c, -2));
    assert(shift_spec(flip_spec(c), 1) == Some((-2int, 1int, 4int)));
    assert(coord_bits(Some((-2int, 1int, 4int))) == (1u64 << 38u64));
    assert(shift_spec(flip_spec(c), -1) == Some((-2int, 1int, 2int)));
    assert(coord_bits(Some((-2int, 1int, 2int))) == (1u64 << 37u64));
    assert(flip_spec(shift_spec(c, 1)) == Some((-1int, 0int, 4int)));
    assert(coord_bits(Some((-1int, 0int, 4int))) == (1u64 << 26u64));
    assert(flip_spec(shift_spec(c, -1)) == None::<(int, int, int)>);
    assert(shift_spec(c, 2) == Some((-2int, 0int, 2int)));
    assert(coord_bits(Some((-2int, 0int, 2int))) == (1u64 << 22u64));
    assert(shift_spec(c, -2) == Some((-2int, 0int, 4int)));
    assert(coord_bits(Some((-2int, 0int, 4int))) == (1u64 << 23u64));
}

proof fn vertex_black_22()
    ensures
        vertex_table(Color::Black, 22usize) == vertex_neighbors_geo(22, Color::Black),
{
    reveal(vertex_table);
    bv_vertex_black();
    let c = field_at(22, Color::Black);
    assert(c == Some((-2int, 0int, 2int)));
    lemma_fold6(shift_spec(flip_spec(c), 1), shift_spec(flip_spec(c), -1), flip_spec(shift_spec(c, 1)), flip_spec(shift_spec(c, -1)), shift_spec(c, 2), shift_spec(c, -2));
    assert(shift_spec(flip_spec(c), 1) == Some((-1int, -1int, 0int)));
    assert(coord_bits(Some((-1int, -1int, 0int))) == (1u64 << 9u64));
    assert(shift_spec(flip_spec(c), -1) == Some((-1int, -1int, 4int)));
    assert(coord_bits(Some((-1int, -1int, 4int))) == (1u64 << 11u64));
    assert(flip_spec(shift_spec(c, 1)) == None::<(int, int, int)>);
    assert(flip_spec(shift_spec(c, -1)) == Some((-1int, 0int, 4int)));
    assert(coord_bits(Some((-1int, 0int, 4int))) == (1u64 << 26u64));
    assert(shift_spec(c, 2) == Some((-2int, 0int, 4int)));
    assert(coord_bits(Some((-2int, 0int, 4int))) == (1u64 << 23u64));
    assert(shift_spec(c, -2) == Some((-2int, 0int, 0int)));
    assert(coord_bits(Some((-2int, 0int, 0int))) == (1u64 << 21u64));
}

proof fn vertex_black_23()
    ensures
        vertex_table(Color::Black, 23usize) == vertex_neighbors_geo(23, Color::Black),
{
    reveal(vertex_table);
    bv_vertex_black();
    let c = field_at(23, Color::Black);
    assert(c == Some((-2int, 0int, 4int)));
    lemma_fold6(shift_spec(flip_spec(c), 1), shift_spec(flip_spec(c), -1), flip_spec(shift_spec(c, 1)), flip_spec(shift_spec(c, -1)), shift_spec(c, 2), shift_spec(c, -2));
    assert(shift_spec(flip_spec(c), 1) == None::<(int, int, int)>);
    assert(shift_spec(flip_spec(c), -1) == None::<(int, int, int)>);
    assert(flip_spec(shift_spec(c, 1)) == None::<(int, int, int)>);
    assert(flip_spec(shift_spec(c, -1)) == None::<(int, int, int)>);
    assert(shift_spec(c, 2) == Some((-2int, 0int, 0int)));
    assert(coord_bits(Some((-2int, 0int, 0int))) == (1u64 << 21u64));
    assert(shift_spec(c, -2) == Some((-2int, 0int, 2int)));
    assert(coord_bits(Some((-2int, 0int, 2int))) == (1u64 << 22u64));
}

proof fn vertex_black_24()
    ensures
        vertex_table(Color::Black, 24usize) == vertex_neighbors_geo(24, Color::Black),
{
    reveal(vertex_table);
    bv_vertex_black();
    let c = field_at(24, Color::Black);
    assert(c == Some((-1int, 0int, 0int)));
    lemma_fold6(shift_spec(flip_spec(c), 1), shift_spec(flip_spec(c), -1), flip_spec(shift_spec(c, 1)), flip_spec(shift_spec(c, -1)), shift_spec(c, 2), shift_spec(c, -2));
    assert(shift_spec(flip_spec(c), 1) == Some((-1int, 1int, 4int)));
    assert(coord_bits(Some((-1int, 1int, 4int))) == (1u64 << 41u64));
    assert(shift_spec(flip_spec(c), -1) == Some((-1int, 1int, 2int)));
    assert(coord_bits(Some((-1int, 1int, 2int))) == (1u64 << 40u64));
    assert(flip_spec(shift_spec(c, 1)) == Some((0int, 0int, 4int)));
    assert(coord_bits(Some((0int, 0int, 4int))) == (1u64 << 29u64));
    assert(flip_spec(shift_spec(c, -1)) == Some((-2int, 1int, 2int)));
    assert(coord_bits(Some((-2int, 1int, 2int))) == (1u64 << 37u64));
    assert(shift_spec(c, 2) == Some((-1int, 0int, 2int)));
    assert(coord_bits(Some((-1int, 0int, 2int))) == (1u64 << 25u64));
    assert(shift_spec(c, -2) == Some((-1int, 0int, 4int)));
    assert(coord_bits(Some((-1int, 0int, 4int))) == (1u64 << 26u64));
}

proof fn vertex_black_25()
    ensures
        vertex_table(Color::Black, 25usize) == vertex_neighbors_geo(25, Color::Black),
{
    reveal(vertex_table);
    bv_vertex_black();
    let c = field_at(25, Color::Black);
    assert(c == Some((-1int, 0int, 2int)));
    lemma_fold6(shift_spec(flip_spec(c), 1), shift_spec(flip_spec(c), -1), flip_spec(shift_spec(c, 1)), flip_spec(shift_spec(c, -1)), shift_spec(c, 2), shift_spec(c, -2));
    assert(shift_spec(flip_spec(c), 1) == Some((0int, -1int, 0int)));
    assert(coord_bits(Some((0int, -1int, 0int))) == (1u64 << 12u64));
    assert(shift_spec(flip_spec(c), -1) == Some((0int, -1int, 4int)));
    assert(coord_bits(Some((0int, -1int, 4int))) == (1u64 << 14u64));
    assert(flip_spec(shift_spec(c, 1)) == Some((-1int, -1int, 0int)));
    assert(coord_bits(Some((-1int, -1int, 0int))) == (1u64 << 9u64));
    assert(flip_spec(shift_spec(c, -1)) == Some((0int, 0int, 4int)));
    assert(coord_bits(Some((0int, 0int, 4int))) == (1u64 << 29u64));
    assert(shift_spec(c, 2) == Some((-1int, 0int, 4int)));
    assert(coord_bits(Some((-1int, 0int, 4int))) == (1u64 << 26u64));
    assert(shift_spec(c, -2) == Some((-1int, 0int, 0int)));
    assert(coord_bits(Some((-1int, 0int, 0int))) == (1u64 << 24u64));
}

proof fn vertex_black_26()
    ensures
        vertex_table(Color::Black, 26usize) == vertex_neighbors_geo(26, Color::Black),
{
    reveal(vertex_table);
    bv_vertex_black();
    let c = field_at(26, Color::Black);
    assert(c == Some((-1int, 0int, 4int)));
    lemma_fold6(shift_spec(flip_spec(c), 1), shift_spec(flip_spec(c), -1), flip_spec(shift_spec(c, 1)), flip_spec(shift_spec(c, -1)), shift_spec(c, 2), shift_spec(c, -2));
    assert(shift_spec(flip_spec(c), 1) == Some((-2int, 0int, 2int)));
    assert(coord_bits(Some((-2int, 0int, 2int))) == (1u64 << 22u64));
    assert(shift_spec(flip_spec(c), -1) == Some((-2int, 0int, 0int)));
    assert(coord_bits(Some((-2int, 0int, 0int))) == (1u64 << 21u64));
    assert(flip_spec(shift_spec(c, 1)) == Some((-2int, 1int, 2int)));
    assert(coord_bits(Some((-2int, 1int, 2int))) == (1u64 << 37u64));
    assert(flip_spec(shift_spec(c, -1)) == Some((-1int, -1int, 0int)));
    assert(coord_bits(Some((-1int, -1int, 0int))) == (1u64 << 9u64));
    assert(shift_spec(c, 2) == Some((-1int, 0int, 0int)));
    assert(coord_bits(Some((-1int, 0int, 0int))) == (1u64 << 24u64));
    assert(shift_spec(c, -2) == Some((-1int, 0int, 2int)));
    assert(coord_bits(Some((-1int, 0int, 2int))) == (1u64 << 25u64));
}

proof fn vertex_black_27()
    ensures
        vertex_table(Color::Black, 27usize) == vertex_neighbors_geo(27, Color::Black),
{
    reveal(vertex_table);
    bv_vertex_black();
    let c = field_at(27, Color::Black);
    assert(c == Some((0int, 0int, 0int)));
    lemma_fold6(shift_spec(flip_spec(c), 1), shift_spec(flip_spec(c), -1), flip_spec(shift_spec(c, 1)), flip_spec(shift_spec(c, -1)), shift_spec(c, 2), shift_spec(c, -2));
    assert(shift_spec(flip_spec(c), 1) == Some((0int, 1int, 4int)));
    assert(coord_bits(Some((0int, 1int, 4int))) == (1u64 << 44u64));
    assert(shift_spec(flip_spec(c), -1) == Some((0int, 1int, 2int)));
    assert(coord_bits(Some((0int, 1int, 2int))) == (1u64 << 43u64));
    assert(flip_spec(shift_spec(c, 1)) == Some((1int, 0int, 4int)));
    assert(coord_bits(Some((1int, 0int, 4int))) == (1u64 << 32u64));
    assert(flip_spec(shift_spec(c, -1)) == Some((-1int, 1int, 2int)));
    assert(coord_bits(Some((-1int, 1int, 2int))) == (1u64 << 40u64));
    assert(shift_spec(c, 2) == Some((0int, 0int, 2int)));
    assert(coord_bits(Some((0int, 0int, 2int))) == (1u64 << 28u64));
    assert(shift_spec(c, -2) == Some((0int, 0int, 4int)));
    assert(coord_bits(Some((0int, 0int, 4int))) == (1u64 << 29u64));
}

proof fn vertex_black_28()
    ensures
        vertex_table(Color::Black, 28usize) == vertex_neighbors_geo(28, Color::Black),
{
    reveal(vertex_table);
    bv_vertex_black();
    let c = field_at(28, Color::Black);
    assert(c == Some((0int, 0int, 2int)));
    lemma_fold6(shift_spec(flip_spec(c), 1), shift_spec(flip_spec(c), -1), flip_spec(shift_spec(c, 1)), flip_spec(shift_spec(c, -1)), shift_spec(c, 2), shift_spec(c, -2));
    assert(shift_spec(flip_spec(c), 1) == Some((1int, -1int, 0int)));
    assert(coord_bits(Some((1int, -1int, 0int))) == (1u64 << 15u64));
    assert(shift_spec(flip_spec(c), -1) == Some((1int, -1int, 4int)));
    assert(coord_bits(Some((1int, -1int, 4int))) == (1u64 << 17u64));
    assert(flip_spec(shift_spec(c, 1)) == Some((0int, -1int, 0int)));
    assert(coord_bits(Some((0int, -1int, 0int))) == (1u64 << 12u64));
    assert(flip_spec(shift_spec(c, -1)) == Some((1int, 0int, 4int)));
    assert(coord_bits(Some((1int, 0int, 4int))) == (1u64 << 32u64));
    assert(shift_spec(c, 2) == Some((0int, 0int, 4int)));
    assert(coord_bits(Some((0int, 0int, 4int))) == (1u64 << 29u64));
    assert(shift_spec(c, -2) == Some((0int, 0int, 0int)));
    assert(coord_bits(Some((0int, 0int, 0int))) == (1u64 << 27u64));
}

proof fn vertex_black_29()
    ensures
        vertex_table(Color::Black, 29usize) == vertex_neighbors_geo(29, Color::Black),
{
    reveal(vertex_table);
    bv_vertex_black();
    let c = field_at(29, Color::Black);
    assert(c == Some((0int, 0int, 4int)));
    lemma_fold6(shift_spec(flip_spec(c), 1), shift_spec(flip_spec(c), -1), flip_spec(shift_spec(c, 1)), flip_spec(shift_spec(c, -1)), shift_spec(c, 2), shift_spec(c, -2));
    assert(shift_spec(flip_spec(c), 1) == Some((-1int, 0int, 2int)));
    assert(coord_bits(Some((-1int, 0int, 2int))) == (1u64 << 25u64));
    assert(shift_spec(flip_spec(c), -1) == Some((-1int, 0int, 0int)));
    assert(coord_bits(Some((-1int, 0int, 0int))) == (1u64 << 24u64));
    assert(flip_spec(shift_spec(c, 1)) == Some((-1int, 1int, 2int)));
    assert(coord_bits(Some((-1int, 1int, 2int))) == (1u64 << 40u64));
    assert(flip_spec(shift_spec(c, -1)) == Some((0int, -1int, 0int)));
    assert(coord_bits(Some((0int, -1int, 0int))) == (1u64 << 12u64));
    assert(shift_spec(c, 2) == Some((0int, 0int, 0int)));
    assert(coord_bits(Some((0int, 0int, 0int))) == (1u64 << 27u64));
    assert(shift_spec(c, -2) == Some((0int, 0int, 2int)));
    assert(coord_bits(Some((0int, 0int, 2int))) == (1u64 << 28u64));
}

proof fn vertex_black_30()
    ensures
        vertex_table(Color::Black, 30usize) == vertex_neighbors_geo(30, Color::Black),
{
    reveal(vertex_table);
    bv_vertex_black();
    let c = field_at(30, Color::Black);
    assert(c == Some((1int, 0int, 0int)));
    lemma_fold6(shift_spec(flip_spec(c), 1), shift_spec(flip_spec(c), -1), flip_spec(shift_spec(c, 1)), flip_spec(shift_spec(c, -1)), shift_spec(c, 2), shift_spec(c, -2));
    assert(shift_spec(flip_spec(c), 1) == Some((1int, 1int, 4int)));
    assert(coord_bits(Some((1int, 1int, 4int))) == (1u64 << 47u64));
    assert(shift_spec(flip_spec(c), -1) == Some((1int, 1int, 2int)));
    assert(coord_bits(Some((1int, 1int, 2int))) == (1u64 << 46u64));
    assert(flip_spec(shift_spec(c, 1)) == Some((2int, 0int, 4int)));
    assert(coord_bits(Some((2int, 0int, 4int))) == (1u64 << 35u64));
    assert(flip_spec(shift_spec(c, -1)) == Some((0int, 1int, 2int)));
    assert(coord_bits(Some((0int, 1int, 2int))) == (1u64 << 43u64));
    assert(shift_spec(c, 2) == Some((1int, 0int, 2int)));
    assert(coord_bits(Some((1int, 0int, 2int))) == (1u64 << 31u64));
    assert(shift_spec(c, -2) == Some((1int, 0int, 4int)));
    assert(coord_bits(Some((1int, 0int, 4int))) == (1u64 << 32u64));
}

proof fn vertex_black_31()
    ensures
        vertex_table(Color::Black, 31usize) == vertex_neighbors_geo(31, Color::Black),
{
    reveal(vertex_table);
    bv_vertex_black();
    let c = field_at(31, Color::Black);
    assert(c == Some((1int, 0int, 2int)));
    lemma_fold6(shift_spec(flip_spec(c), 1), shift_spec(flip_spec(c), -1), flip_spec(shift_spec(c, 1)), flip_spec(shift_spec(c, -1)), shift_spec(c, 2), shift_spec(c, -2));
    assert(shift_spec(flip_spec(c), 1) == Some((2int, -1int, 0int)));
    assert(coord_bits(Some((2int, -1int, 0int))) == (1u64 << 18u64));
    assert(shift_spec(flip_spec(c), -1) == Some((2int, -1int, 4int)));
    assert(coord_bits(Some((2int, -1int, 4int))) == (1u64 << 20u64));
    assert(flip_spec(shift_spec(c, 1)) == Some((1int, -1int, 0int)));
    assert(coord_bits(Some((1int, -1int, 0int))) == (1u64 << 15u64));
    assert(flip_spec(shift_spec(c, -1)) == Some((2int, 0int, 4int)));
    assert(coord_bits(Some((2int, 0int, 4int))) == (1u64 << 35u64));
    assert(shift_spec(c, 2) == Some((1int, 0int, 4int)));
    assert(coord_bits(Some((1int, 0int, 4int))) == (1u64 << 32u64));
    assert(shift_spec(c, -2) == Some((1int, 0int, 0int)));
    assert(coord_bits(Some((1int, 0int, 0int))) == (1u64 << 30u64));
}

proof fn vertex_black_32()
    ensures
        vertex_table(Color::Black, 32usize) == vertex_neighbors_geo(32, Color::Black),
{
    reveal(vertex_table);
    bv_vertex_black();
    let c = field_at(32, Color::Black);
    assert(c == Some((1int, 0int, 4int)));
    lemma_fold6(shift_spec(flip_spec(c), 1), shift_spec(flip_spec(c), -1), flip_spec(shift_spec(c, 1)), flip_spec(shift_spec(c, -1)), shift_spec(c, 2), shift_spec(c, -2));
    assert(shift_spec(flip_spec(c), 1) == Some((0int, 0int, 2int)));
    assert(coord_bits(Some((0int, 0int, 2int))) == (1u64 << 28u64));
    assert(shift_spec(flip_spec(c), -1) == Some((0int, 0int, 0int)));
    assert(coord_bits(Some((0int, 0int, 0int))) == (1u64 << 27u64));
    assert(flip_spec(shift_spec(c, 1)) == Some((0int, 1int, 2int)));
    assert(coord_bits(Some((0int, 1int, 2int))) == (1u64 << 43u64));
    assert(flip_spec(shift_spec(c, -1)) == Some((1int, -1int, 0int)));
    assert(coord_bits(Some((1int, -1int, 0int))) == (1u64 << 15u64));
    assert(shift_spec(c, 2) == Some((1int, 0int, 0int)));
    assert(coord_bits(Some((1int, 0int, 0int))) == (1u64 << 30u64));
    assert(shift_spec(c, -2) == Some((1int, 0int, 2int)));
    assert(coord_bits(Some((1int, 0int, 2int))) == (1u64 << 31u64));
}

proof fn vertex_black_33()
    ensures
        vertex_table(Color::Black, 33usize) == vertex_neighbors_geo(33, Color::Black),
{
    reveal(vertex_table);
    bv_vertex_black();
    let c = field_at(33, Color::Black);
    assert(c == Some((2int, 0int, 0int)));
    lemma_fold6(shift_spec(flip_spec(c), 1), shift_spec(flip_spec(c), -1), flip_spec(shift_spec(c, 1)), flip_spec(shift_spec(c, -1)), shift_spec(c, 2), shift_spec(c, -2));
    assert(shift_spec(flip_spec(c), 1) == None::<(int, int, int)>);
    assert(shift_spec(flip_spec(c), -1) == None::<(int, int, int)>);
    assert(flip_spec(shift_spec(c, 1)) == None::<(int, int, int)>);
    assert(flip_spec(shift_spec(c, -1)) == Some((1int, 1int, 2int)));
    assert(coord_bits(Some((1int, 1int, 2int))) == (1u64 << 46u64));
    assert(shift_spec(c, 2) == Some((2int, 0int, 2int)));
    assert(coord_bits(Some((2int, 0int, 2int))) == (1u64 << 34u64));
    assert(shift_spec(c, -2) == Some((2int, 0int, 4int)));
    assert(coord_bits(Some((2int, 0int, 4int))) == (1u64 << 35u64));
}

proof fn vertex_black_34()
    ensures
        vertex_table(Color::Black, 34usize) == vertex_neighbors_geo(34, Color::Black),
{
    reveal(vertex_table);
    bv_vertex_black();
    let c = field_at(34, Color::Black);
    assert(c == Some((2int, 0int, 2int)));
    lemma_fold6(shift_spec(flip_spec(c), 1), shift_spec(flip_spec(c), -1), flip_spec(shift_spec(c, 1)), flip_spec(shift_spec(c, -1)), shift_spec(c, 2), shift_spec(c, -2));
    assert(shift_spec(flip_spec(c), 1) == None::<(int, int, int)>);
    assert(shift_spec(flip_spec(c), -1) == None::<(int, int, int)>);
    assert(flip_spec(shift_spec(c, 1)) == Some((2int, -1int, 0int)));
    assert(coord_bits(Some((2int, -1int, 0int))) == (1u64 << 18u64));
    assert(flip_spec(shift_spec(c, -1)) == None::<(int, int, int)>);
    assert(shift_spec(c, 2) == Some((2int, 0int, 4int)));
    assert(coord_bits(Some((2int, 0int, 4int))) == (1u64 << 35u64));
    assert(shift_spec(c, -2) == Some((2int, 0int, 0int)));
    assert(coord_bits(Some((2int, 0int, 0int))) == (1u64 << 33u64));
}

proof fn vertex_black_35()
    ensures
        vertex_table(Color::Black, 35usize) == vertex_neighbors_geo(35, Color::Black),
{
    reveal(vertex_table);
    bv_vertex_black();
    let c = field_at(35, Color::Black);
    assert(c == Some((2int, 0int, 4int)));
    lemma_fold6(shift_spec(flip_spec(c), 1), shift_spec(flip_spec(c), -1), flip_spec(shift_spec(c, 1)), flip_spec(shift_spec(c, -1)), shift_spec(c, 2), shift_spec(c, -2));
    assert(shift_spec(flip_spec(c), 1) == Some((1int, 0int, 2int)));
    assert(coord_bits(Some((1int, 0int, 2int))) == (1u64 << 31u64));
    assert(shift_spec(flip_spec(c), -1) == Some((1int, 0int, 0int)));
    assert(coord_bits(Some((1int, 0int, 0int))) == (1u64 << 30u64));
    assert(flip_spec(shift_spec(c, 1)) == Some((1int, 1int, 2int)));
    assert(coord_bits(Some((1int, 1int, 2int))) == (1u64 << 46u64));
    assert(flip_spec(shift_spec(c, -1)) == Some((2int, -1int, 0int)));
    assert(coord_bits(Some((2int, -1int, 0int))) == (1u64 << 18u64));
    assert(shift_spec(c, 2) == Some((2int, 0int, 0int)));
    assert(coord_bits(Some((2int, 0int, 0int))) == (1u64 << 33u64));
    assert(shift_spec(c, -2) == Some((2int, 0int, 2int)));
    assert(coord_bits(Some((2int, 0int, 2int))) == (1u64 << 34u64));
}

proof fn vertex_black_36()
    ensures
        vertex_table(Color::Black, 36usize) == vertex_neighbors_geo(36, Color::Black),
{
    reveal(vertex_table);
    bv_vertex_black();
    let c = field_at(36, Color::Black);
    assert(c == Some((-2int, 1int, 0int)));
    lemma_fold6(shift_spec(flip_spec(c), 1), shift_spec(flip_spec(c), -1), flip_spec(shift_spec(c, 1)), flip_spec(shift_spec(c, -1)), shift_spec(c, 2), shift_spec(c, -2));
    assert(shift_spec(flip_spec(c), 1) == Some((-2int, 2int, 4int)));
    assert(coord_bits(Some((-2int, 2int, 4int))) == (1u64 << 50u64));
    assert(shift_spec(flip_spec(c), -1) == Some((-2int, 2int, 2int)));
    assert(coord_bits(Some((-2int, 2int, 2int))) == (1u64 << 49u64));
    assert(flip_spec(shift_spec(c, 1)) == Some((-1int, 1int, 4int)));
    assert(coord_bits(Some((-1int, 1int, 4int))) == (1u64 << 41u64));
    assert(flip_spec(shift_spec(c, -1)) == None::<(int, int, int)>);
    assert(shift_spec(c, 2) == Some((-2int, 1int, 2int)));
    assert(coord_bits(Some((-2int, 1int, 2int))) == (1u64 << 37u64));
    assert(shift_spec(c, -2) == Some((-2int, 1int, 4int)));
    assert(coord_bits(Some((-2int, 1int, 4int))) == (1u64 << 38u64));
}

proof fn vertex_black_37()
    ensures
        vertex_table(Color::Black, 37usize) == vertex_neighbors_geo(37, Color::Black),
{
    reveal(vertex_table);
    bv_vertex_black();
    let c = field_at(37, Color::Black);
    assert(c == Some((-2int, 1int, 2int)));
    lemma_fold6(shift_spec(flip_spec(c), 1), shift_spec(flip_spec(c), -1), flip_spec(shift_spec(c, 1)), flip_spec(shift_spec(c, -1)), shift_spec(c, 2), shift_spec(c, -2));
    assert(shift_spec(flip_spec(c), 1) == Some((-1int, 0int, 0int)));
    assert(coord_bits(Some((-1int, 0int, 0int))) == (1u64 << 24u64));
    assert(shift_spec(flip_spec(c), -1) == Some((-1int, 0int, 4int)));
    assert(coord_bits(Some((-1int, 0int, 4int))) == (1u64 << 26u64));
    assert(flip_spec(shift_spec(c, 1)) == Some((-2int, 0int, 0int)));
    assert(coord_bits(Some((-2int, 0int, 0int))) == (1u64 << 21u64));
    assert(flip_spec(shift_spec(c, -1)) == Some((-1int, 1int, 4int)));
    assert(coord_bits(Some((-1int, 1int, 4int))) == (1u64 << 41u64));
    assert(shift_spec(c, 2) == Some((-2int, 1int, 4int)));
    assert(coord_bits(Some((-2int, 1int, 4int))) == (1u64 << 38u64));
    assert(shift_spec(c, -2) == Some((-2int, 1int, 0int)));
    assert(coord_bits(Some((-2int, 1int, 0int))) == (1u64 << 36u64));
}

proof fn vertex_black_38()
    ensures
        vertex_table(Color::Black, 38usize) == vertex_neighbors_geo(38, Color::Black),
{
    reveal(vertex_table);
    bv_vertex_black();
    let c = field_at(38, Color::Black);
    assert(c == Some((-2int, 1int, 4int)));
    lemma_fold6(shift_spec(flip_spec(c), 1), shift_spec(flip_spec(c), -1), flip_spec(shift_spec(c, 1)), flip_spec(shift_spec(c, -1)), shift_spec(c, 2), shift_spec(c, -2));
    assert(shift_spec(flip_spec(c), 1) == None::<(int, int, int)>);
    assert(shift_spec(flip_spec(c), -1) == None::<(int, int, int)>);
    assert(flip_spec(shift_spec(c, 1)) == None::<(int, int, int)>);
    assert(flip_spec(shift_spec(c, -1)) == Some((-2int, 0int, 0int)));
    assert(coord_bits(Some((-2int, 0int, 0int))) == (1u64 << 21u64));
    assert(shift_spec(c, 2) == Some((-2int, 1int, 0int)));
    assert(coord_bits(Some((-2int, 1int, 0int))) == (1u64 << 36u64));
    assert(shift_spec(c, -2) == Some((-2int, 1int, 2int)));
    assert(coord_bits(Some((-2int, 1int, 2int))) == (1u64 << 37u64));
}

proof fn vertex_black_39()
    ensures
        vertex_table(Color::Black, 39usize) == vertex_neighbors_geo(39, Color::Black),
{
    reveal(vertex_table);
    bv_vertex_black();
    let c = field_at(39, Color::Black);
    assert(c == Some((-1int, 1int, 0int)));
    lemma_fold6(shift_spec(flip_spec(c), 1), shift_spec(flip_spec(c), -1), flip_spec(shift_spec(c, 1)), flip_spec(shift_spec(c, -1)), shift_spec(c, 2), shift_spec(c, -2));
    assert(shift_spec(flip_spec(c), 1) == Some((-1int, 2int, 4int)));
    assert(coord_bits(Some((-1int, 2int, 4int))) == (1u64 << 53u64));
    assert(shift_spec(flip_spec(c), -1) == Some((-1int, 2int, 2int)));
    assert(coord_bits(Some((-1int, 2int, 2int))) == (1u64 << 52u64));
    assert(flip_spec(shift_spec(c, 1)) == Some((0int, 1int, 4int)));
    assert(coord_bits(Some((0int, 1int, 4int))) == (1u64 << 44u64));
    assert(flip_spec(shift_spec(c, -1)) == Some((-2int, 2int, 2int)));
    assert(coord_bits(Some((-2int, 2int, 2int))) == (1u64 << 49u64));
    assert(shift_spec(c, 2) == Some((-1int, 1int, 2int)));
    assert(coord_bits(Some((-1int, 1int, 2int))) == (1u64 << 40u64));
    assert(shift_spec(c, -2) == Some((-1int, 1int, 4int)));
    assert(coord_bits(Some((-1int, 1int, 4int))) == (1u64 << 41u64));
}

proof fn vertex_black_40()
    ensures
        vertex_table(Color::Black, 40usize) == vertex_neighbors_geo(40, Color::Black),
{
    reveal(vertex_table);
    bv_vertex_black();
    let c = field_at(40, Color::Black);
    assert(c == Some((-1int, 1int, 2int)));
    lemma_fold6(shift_spec(flip_spec(c), 1), shift_spec(flip_spec(c), -1), flip_spec(shift_spec(c, 1)), flip_spec(shift_spec(c, -1)), shift_spec(c, 2), shift_spec(c, -2));
    assert(shift_spec(flip_spec(c), 1) == Some((0int, 0int, 0int)));
    assert(coord_bits(Some((0int, 0int, 0int))) == (1u64 << 27u64));
    assert(shift_spec(flip_spec(c), -1) == Some((0int, 0int, 4int)));
    assert(coord_bits(Some((0int, 0int, 4int))) == (1u64 << 29u64));
    assert(flip_spec(shift_spec(c, 1)) == Some((-1int, 0int, 0int)));
    assert(coord_bits(Some((-1int, 0int, 0int))) == (1u64 << 24u64));
    assert(flip_spec(shift_spec(c, -1)) == Some((0int, 1int, 4int)));
    assert(coord_bits(Some((0int, 1int, 4int))) == (1u64 << 44u64));
    assert(shift_spec(c, 2) == Some((-1int, 1int, 4int)));
    assert(coord_bits(Some((-1int, 1int, 4int))) == (1u64 << 41u64));
    assert(shift_spec(c, -2) == Some((-1int, 1int, 0int)));
    assert(coord_bits(Some((-1int, 1int, 0int))) == (1u64 << 39u64));
}

proof fn vertex_black_41()
    ensures
        vertex_table(Color::Black, 41usize) == vertex_neighbors_geo(41, Color::Black),
{
    reveal(vertex_table);
    bv_vertex_black();
    let c = field_at(41, Color::Black);
    assert(c == Some((-1int, 1int, 4int)));
    lemma_fold6(shift_spec(flip_spec(c), 1), shift_spec(flip_spec(c), -1), flip_spec(shift_spec(c, 1)), flip_spec(shift_spec(c, -1)), shift_spec(c, 2), shift_spec(c, -2));
    assert(shift_spec(flip_spec(c), 1) == Some((-2int, 1int, 2int)));
    assert(coord_bits(Some((-2int, 1int, 2int))) == (1u64 << 37u64));
    assert(shift_spec(flip_spec(c), -1) == Some((-2int, 1int, 0int)));
    assert(coord_bits(Some((-2int, 1int, 0int))) == (1u64 << 36u64));
    assert(flip_spec(shift_spec(c, 1)) == Some((-2int, 2int, 2int)));
    assert(coord_bits(Some((-2int, 2int, 2int))) == (1u64 << 49u64));
    assert(flip_spec(shift_spec(c, -1)) == Some((-1int, 0int, 0int)));
    assert(coord_bits(Some((-1int, 0int, 0int))) == (1u64 << 24u64));
    assert(shift_spec(c, 2) == Some((-1int, 1int, 0int)));
    assert(coord_bits(Some((-1int, 1int, 0int))) == (1u64 << 39u64));
    assert(shift_spec(c, -2) == Some((-1int, 1int, 2int)));
    assert(coord_bits(Some((-1int, 1int, 2int))) == (1u64 << 40u64));
}

proof fn vertex_black_42()
    ensures
        vertex_table(Color::Black, 42usize) == vertex_neighbors_geo(42, Color::Black),
{
    reveal(vertex_table);
    bv_vertex_black();
    let c = field_at(42, Color::Black);
    assert(c == Some((0int, 1int, 0int)));
    lemma_fold6(shift_spec(flip_spec(c), 1), shift_spec(flip_spec(c), -1), flip_spec(shift_spec(c, 1)), flip_spec(shift_spec(c, -1)), shift_spec(c, 2), shift_spec(c, -2));
    assert(shift_spec(flip_spec(c), 1) == Some((0int, 2int, 4int)));
    assert(coord_bits(Some((0int, 2int, 4int))) == (1u64 << 56u64));
    assert(shift_spec(flip_spec(c), -1) == Some((0int, 2int, 2int)));
    assert(coord_bits(Some((0int, 2int, 2int))) == (1u64 << 55u64));
    assert(flip_spec(shift_spec(c, 1)) == Some((1int, 1int, 4int)));
    assert(coord_bits(Some((1int, 1int, 4int))) == (1u64 << 47u64));
    assert(flip_spec(shift_spec(c, -1)) == Some((-1int, 2int, 2int)));
    assert(coord_bits(Some((-1int, 2int, 2int))) == (1u64 << 52u64));
    assert(shift_spec(c, 2) == Some((0int, 1int, 2int)));
    assert(coord_bits(Some((0int, 1int, 2int))) == (1u64 << 43u64));
    assert(shift_spec(c, -2) == Some((0int, 1int, 4int)));
    assert(coord_bits(Some((0int, 1int, 4int))) == (1u64 << 44u64));
}

proof fn vertex_black_43()
    ensures
        vertex_table(Color::Black, 43usize) == vertex_neighbors_geo(43, Color::Black),
{
    reveal(vertex_table);
    bv_vertex_black();
    let c = field_at(43, Color::Black);
    assert(c == Some((0int, 1int, 2int)));
    lemma_fold6(shift_spec(flip_spec(c), 1), shift_spec(flip_spec(c), -1), flip_spec(shift_spec(c, 1)), flip_spec(shift_spec(c, -1)), shift_spec(c, 2), shift_spec(c, -2));
    assert(shift_spec(flip_spec(c), 1) == Some((1int, 0int, 0int)));
    assert(coord_bits(Some((1int, 0int, 0int))) == (1u64 << 30u64));
    assert(shift_spec(flip_spec(c), -1) == Some((1int, 0int, 4int)));
    assert(coord_bits(Some((1int, 0int, 4int))) == (1u64 << 32u64));
    assert(flip_spec(shift_spec(c, 1)) == Some((0int, 0int, 0int)));
    assert(coord_bits(Some((0int, 0int, 0int))) == (1u64 << 27u64));
    assert(flip_spec(shift_spec(c, -1)) == Some((1int, 1int, 4int)));
    assert(coord_bits(Some((1int, 1int, 4int))) == (1u64 << 47u64));
    assert(shift_spec(c, 2) == Some((0int, 1int, 4int)));
    assert(coord_bits(Some((0int, 1int, 4int))) == (1u64 << 44u64));
    assert(shift_spec(c, -2) == Some((0int, 1int, 0int)));
    assert(coord_bits(Some((0int, 1int, 0int))) == (1u64 << 42u64));
}

proof fn vertex_black_44()
    ensures
        vertex_table(Color::Black, 44usize) == vertex_neighbors_geo(44, Color::Black),
{
    reveal(vertex_table);
    bv_vertex_black();
    let c = field_at(44, Color::Black);
    assert(c == Some((0int, 1int, 4int)));
    lemma_fold6(shift_spec(flip_spec(c), 1), shift_spec(flip_spec(c), -1), flip_spec(shift_spec(c, 1)), flip_spec(shift_spec(c, -1)), shift_spec(c, 2), shift_spec(c, -2));
    assert(shift_spec(flip_spec(c), 1) == Some((-1int, 1int, 2int)));
    assert(coord_bits(Some((-1int, 1int, 2int))) == (1u64 << 40u64));
    assert(shift_spec(flip_spec(c), -1) == Some((-1int, 1int, 0int)));
    assert(coord_bits(Some((-1int, 1int, 0int))) == (1u64 << 39u64));
    assert(flip_spec(shift_spec(c, 1)) == Some((-1int, 2int, 2int)));
    assert(coord_bits(Some((-1int, 2int, 2int))) == (1u64 << 52u64));
    assert(flip_spec(shift_spec(c, -1)) == Some((0int, 0int, 0int)));
    assert(coord_bits(Some((0int, 0int, 0int))) == (1u64 << 27u64));
    assert(shift_spec(c, 2) == Some((0int, 1int, 0int)));
    assert(coord_bits(Some((0int, 1int, 0int))) == (1u64 << 42u64));
    assert(shift_spec(c, -2) == Some((0int, 1int, 2int)));
    assert(coord_bits(Some((0int, 1int, 2int))) == (1u64 << 43u64));
}

proof fn vertex_black_45()
    ensures
        vertex_table(Color::Black, 45usize) == vertex_neighbors_geo(45, Color::Black),
{
    reveal(vertex_table);
    bv_vertex_black();
    let c = field_at(45, Color::Black);
    assert(c == Some((1int, 1int, 0int)));
    lemma_fold6(shift_spec(flip_spec(c), 1), shift_spec(flip_spec(c), -1), flip_spec(shift_spec(c, 1)), flip_spec(shift_spec(c, -1)), shift_spec(c, 2), shift_spec(c, -2));
    assert(shift_spec(flip_spec(c), 1) == None::<(int, int, int)>);
    assert(shift_spec(flip_spec(c), -1) == None::<(int, int, int)>);
    assert(flip_spec(shift_spec(c, 1)) == None::<(int, int, int)>);
    assert(flip_spec(shift_spec(c, -1)) == Some((0int, 2int, 2int)));
    assert(coord_bits(Some((0int, 2int, 2int))) == (1u64 << 55u64));
    assert(shift_spec(c, 2) == Some((1int, 1int, 2int)));
    assert(coord_bits(Some((1int, 1int, 2int))) == (1u64 << 46u64));
    assert(shift_spec(c, -2) == Some((1int, 1int, 4int)));
    assert(coord_bits(Some((1int, 1int, 4int))) == (1u64 << 47u64));
}

proof fn vertex_black_46()
    ensures
        vertex_table(Color::Black, 46usize) == vertex_neighbors_geo(46, Color::Black),
{
    reveal(vertex_table);
    bv_vertex_black();
    let c = field_at(46, Color::Black);
    assert(c == Some((1int, 1int, 2int)));
    lemma_fold6(shift_spec(flip_spec(c), 1), shift_spec(flip_spec(c), -1), flip_spec(shift_spec(c, 1)), flip_spec(shift_spec(c, -1)), shift_spec(c, 2), shift_spec(c, -2));
    assert(shift_spec(flip_spec(c), 1) == Some((2int, 0int, 0int)));
    assert(coord_bits(Some((2int, 0int, 0int))) == (1u64 << 33u64));
    assert(shift_spec(flip_spec(c), -1) == Some((2int, 0int, 4int)));
    assert(coord_bits(Some((2int, 0int, 4int))) == (1u64 << 35u64));
    assert(flip_spec(shift_spec(c, 1)) == Some((1int, 0int, 0int)));
    assert(coord_bits(Some((1int, 0int, 0int))) == (1u64 << 30u64));
    assert(flip_spec(shift_spec(c, -1)) == None::<(int, int, int)>);
    assert(shift_spec(c, 2) == Some((1int, 1int, 4int)));
    assert(coord_bits(Some((1int, 1int, 4int))) == (1u64 << 47u64));
    assert(shift_spec(c, -2) == Some((1int, 1int, 0int)));
    assert(coord_bits(Some((1int, 1int, 0int))) == (1u64 << 45u64));
}

proof fn vertex_black_47()
    ensures
        vertex_table(Color::Black, 47usize) == vertex_neighbors_geo(47, Color::Black),
{
    reveal(vertex_table);
    bv_vertex_black();
    let c = field_at(47, Color::Black);
    assert(c == Some((1int, 1int, 4int)));
    lemma_fold6(shift_spec(flip_spec(c), 1), shift_spec(flip_spec(c), -1), flip_spec(shift_spec(c, 1)), flip_spec(shift_spec(c, -1)), shift_spec(c, 2), shift_spec(c, -2));
    assert(shift_spec(flip_spec(c), 1) == Some((0int, 1int, 2int)));
    assert(coord_bits(Some((0int, 1int, 2int))) == (1u64 << 43u64));
    assert(shift_spec(flip_spec(c), -1) == Some((0int, 1int, 0int)));
    assert(coord_bits(Some((0int, 1int, 0int))) == (1u64 << 42u64));
    assert(flip_spec(shift_spec(c, 1)) == Some((0int, 2int, 2int)));
    assert(coord_bits(Some((0int, 2int, 2int))) == (1u64 << 55u64));
    assert(flip_spec(shift_spec(c, -1)) == Some((1int, 0int, 0int)));
    assert(coord_bits(Some((1int, 0int, 0int))) == (1u64 << 30u64));
    assert(shift_spec(c, 2) == Some((1int, 1int, 0int)));
    assert(coord_bits(Some((1int, 1int, 0int))) == (1u64 << 45u64));
    assert(shift_spec(c, -2) == Some((1int, 1int, 2int)));
    assert(coord_bits(Some((1int, 1int, 2int))) == (1u64 << 46u64));
}

proof fn vertex_black_48()
    ensures
        vertex_table(Color::Black, 48usize) == vertex_neighbors_geo(48, Color::Black),
{
    reveal(vertex_table);
    bv_vertex_black();
    let c = field_at(48, Color::Black);
    assert(c == Some((-2int, 2int, 0int)));
    lemma_fold6(shift_spec(flip_spec(c), 1), shift_spec(flip_spec(c), -1), flip_spec(shift_spec(c, 1)), flip_spec(shift_spec(c, -1)), shift_spec(c, 2), shift_spec(c, -2));
    assert(shift_spec(flip_spec(c), 1) == None::<(int, int, int)>);
    assert(shift_spec(flip_spec(c), -1) == None::<(int, int, int)>);
    assert(flip_spec(shift_spec(c, 1)) == Some((-1int, 2int, 4int)));
    assert(coord_bits(Some((-1int, 2int, 4int))) == (1u64 << 53u64));
    assert(flip_spec(shift_spec(c, -1)) == None::<(int, int, int)>);
    assert(shift_spec(c, 2) == Some((-2int, 2int, 2int)));
    assert(coord_bits(Some((-2int, 2int, 2int))) == (1u64 << 49u64));
    assert(shift_spec(c, -2) == Some((-2int, 2int, 4int)));
    assert(coord_bits(Some((-2int, 2int, 4int))) == (1u64 << 50u64));
}

proof fn vertex_black_49()
    ensures
        vertex_table(Color::Black, 49usize) == vertex_neighbors_geo(49, Color::Black),
{
    reveal(vertex_table);
    bv_vertex_black();
    let c = field_at(49, Color::Black);
    assert(c == Some((-2int, 2int, 2int)));
    lemma_fold6(shift_spec(flip_spec(c), 1), shift_spec(flip_spec(c), -1), flip_spec(shift_spec(c, 1)), flip_spec(shift_spec(c, -1)), shift_spec(c, 2), shift_spec(c, -2));
    assert(shift_spec(flip_spec(c), 1) == Some((-1int, 1int, 0int)));
    assert(coord_bits(Some((-1int, 1int, 0int))) == (1u64 << 39u64));
    assert(shift_spec(flip_spec(c), -1) == Some((-1int, 1int, 4int)));
    assert(coord_bits(Some((-1int, 1int, 4int))) == (1u64 << 41u64));
    assert(flip_spec(shift_spec(c, 1)) == Some((-2int, 1int, 0int)));
    assert(coord_bits(Some((-2int, 1int, 0int))) == (1u64 << 36u64));
    assert(flip_spec(shift_spec(c, -1)) == Some((-1int, 2int, 4int)));
    assert(coord_bits(Some((-1int, 2int, 4int))) == (1u64 << 53u64));
    assert(shift_spec(c, 2) == Some((-2int, 2int, 4int)));
    assert(coord_bits(Some((-2int, 2int, 4int))) == (1u64 << 50u64));
    assert(shift_spec(c, -2) == Some((-2int, 2int, 0int)));
    assert(coord_bits(Some((-2int, 2int, 0int))) == (1u64 << 48u64));
}

proof fn vertex_black_50()
    ensures
        vertex_table(Color::Black, 50usize) == vertex_neighbors_geo(50, Color::Black),
{
    reveal(vertex_table);
    bv_vertex_black();
    let c = field_at(50, Color::Black);
    assert(c == Some((-2int, 2int, 4int)));
    lemma_fold6(shift_spec(flip_spec(c), 1), shift_spec(flip_spec(c), -1), flip_spec(shift_spec(c, 1)), flip_spec(shift_spec(c, -1)), shift_spec(c, 2), shift_spec(c, -2));
    assert(shift_spec(flip_spec(c), 1) == None::<(int, int, int)>);
    assert(shift_spec(flip_spec(c), -1) == None::<(int, int, int)>);
    assert(flip_spec(shift_spec(c, 1)) == None::<(int, int, int)>);
    assert(flip_spec(shift_spec(c, -1)) == Some((-2int, 1int, 0int)));
    assert(coord_bits(Some((-2int, 1int, 0int))) == (1u64 << 36u64));
    assert(shift_spec(c, 2) == Some((-2int, 2int, 0int)));
    assert(coord_bits(Some((-2int, 2int, 0int))) == (1u64 << 48u64));
    assert(shift_spec(c, -2) == Some((-2int, 2int, 2int)));
    assert(coord_bits(Some((-2int, 2int, 2int))) == (1u64 << 49u64));
}

proof fn vertex_black_51()
    ensures
        vertex_table(Color::Black, 51usize) == vertex_neighbors_geo(51, Color::Black),
{
    reveal(vertex_table);
    bv_vertex_black();
    let c = field_at(51, Color::Black);
    assert(c == Some((-1int, 2int, 0int)));
    lemma_fold6(shift_spec(flip_spec(c), 1), shift_spec(flip_spec(c), -1), flip_spec(shift_spec(c, 1)), flip_spec(shift_spec(c, -1)), shift_spec(c, 2), shift_spec(c, -2));
    assert(shift_spec(flip_spec(c), 1) == None::<(int, int, int)>);
    assert(shift_spec(flip_spec(c), -1) == None::<(int, int, int)>);
    assert(flip_spec(shift_spec(c, 1)) == Some((0int, 2int, 4int)));
    assert(coord_bits(Some((0int, 2int, 4int))) == (1u64 << 56u64));
    assert(flip_spec(shift_spec(c, -1)) == None::<(int, int, int)>);
    assert(shift_spec(c, 2) == Some((-1int, 2int, 2int)));
    assert(coord_bits(Some((-1int, 2int, 2int))) == (1u64 << 52u64));
    assert(shift_spec(c, -2) == Some((-1int, 2int, 4int)));
    assert(coord_bits(Some((-1int, 2int, 4int))) == (1u64 << 53u64));
}

proof fn vertex_black_52()
    ensures
        vertex_table(Color::Black, 52usize) == vertex_neighbors_geo(52, Color::Black),
{
    reveal(vertex_table);
    bv_vertex_black();
    let c = field_at(52, Color::Black);
    assert(c == Some((-1int, 2int, 2int)));
    lemma_fold6(shift_spec(flip_spec(c), 1), shift_spec(flip_spec(c), -1), flip_spec(shift_spec(c, 1)), flip_spec(shift_spec(c, -1)), shift_spec(c, 2), shift_spec(c, -2));
    assert(shift_spec(flip_spec(c), 1) == Some((0int, 1int, 0int)));
    assert(coord_bits(Some((0int, 1int, 0int))) == (1u64 << 42u64));
    assert(shift_spec(flip_spec(c), -1) == Some((0int, 1int, 4int)));
    assert(coord_bits(Some((0int, 1int, 4int))) == (1u64 << 44u64));
    assert(flip_spec(shift_spec(c, 1)) == Some((-1int, 1int, 0int)));
    assert(coord_bits(Some((-1int, 1int, 0int))) == (1u64 << 39u64));
    assert(flip_spec(shift_spec(c, -1)) == Some((0int, 2int, 4int)));
    assert(coord_bits(Some((0int, 2int, 4int))) == (1u64 << 56u64));
    assert(shift_spec(c, 2) == Some((-1int, 2int, 4int)));
    assert(coord_bits(Some((-1int, 2int, 4int))) == (1u64 << 53u64));
    assert(shift_spec(c, -2) == Some((-1int, 2int, 0int)));
    assert(coord_bits(Some((-1int, 2int, 0int))) == (1u64 << 51u64));
}

proof fn vertex_black_53()
    ensures
        vertex_table(Color::Black, 53usize) == vertex_neighbors_geo(53, Color::Black),
{
    reveal(vertex_table);
    bv_vertex_black();
    let c = field_at(53, Color::Black);
    assert(c == Some((-1int, 2int, 4int)));
    lemma_fold6(shift_spec(flip_spec(c), 1), shift_spec(flip_spec(c), -1), flip_spec(shift_spec(c, 1)), flip_spec(shift_spec(c, -1)), shift_spec(c, 2), shift_spec(c, -2));
    assert(shift_spec(flip_spec(c), 1) == Some((-2int, 2int, 2int)));
    assert(coord_bits(Some((-2int, 2int, 2int))) == (1u64 << 49u64));
    assert(shift_spec(flip_spec(c), -1) == Some((-2int, 2int, 0int)));
    assert(coord_bits(Some((-2int, 2int, 0int))) == (1u64 << 48u64));
    assert(flip_spec(shift_spec(c, 1)) == None::<(int, int, int)>);
    assert(flip_spec(shift_spec(c, -1)) == Some((-1int, 1int, 0int)));
    assert(coord_bits(Some((-1int, 1int, 0int))) == (1u64 << 39u64));
    assert(shift_spec(c, 2) == Some((-1int, 2int, 0int)));
    assert(coord_bits(Some((-1int, 2int, 0int))) == (1u64 << 51u64));
    assert(shift_spec(c, -2) == Some((-1int, 2int, 2int)));
    assert(coord_bits(Some((-1int, 2int, 2int))) == (1u64 << 52u64));
}

proof fn vertex_black_54()
    ensures
        vertex_table(Color::Black, 54usize) == vertex_neighbors_geo(54, Color::Black),
{
    reveal(vertex_table);
    bv_vertex_black();
    let c = field_at(54, Color::Black);
    assert(c == Some((0int, 2int, 0int)));
    lemma_fold6(shift_spec(flip_spec(c), 1), shift_spec(flip_spec(c), -1), flip_spec(shift_spec(c, 1)), flip_spec(shift_spec(c, -1)), shift_spec(c, 2), shift_spec(c, -2));
    assert(shift_spec(flip_spec(c), 1) == None::<(int, int, int)>);
    assert(shift_spec(flip_spec(c), -1) == None::<(int, int, int)>);
    assert(flip_spec(shift_spec(c, 1)) == None::<(int, int, int)>);
    assert(flip_spec(shift_spec(c, -1)) == None::<(int, int, int)>);
    assert(shift_spec(c, 2) == Some((0int, 2int, 2int)));
    assert(coord_bits(Some((0int, 2int, 2int))) == (1u64 << 55u64));
    assert(shift_spec(c, -2) == Some((0int, 2int, 4int)));
    assert(coord_bits(Some((0int, 2int, 4int))) == (1u64 << 56u64));
}

proof fn vertex_black_55()
    ensures
        vertex_table(Color::Black, 55usize) == vertex_neighbors_geo(55, Color::Black),
{
    reveal(vertex_table);
    bv_vertex_black();
    let c = field_at(55, Color::Black);
    assert(c == Some((0int, 2int, 2int)));
    lemma_fold6(shift_spec(flip_spec(c), 1), shift_spec(flip_spec(c), -1), flip_spec(shift_spec(c, 1)), flip_spec(shift_spec(c, -1)), shift_spec(c, 2), shift_spec(c, -2));
    assert(shift_spec(flip_spec(c), 1) == Some((1int, 1int, 0int)));
    assert(coord_bits(Some((1int, 1int, 0int))) == (1u64 << 45u64));
    assert(shift_spec(flip_spec(c), -1) == Some((1int, 1int, 4int)));
    assert(coord_bits(Some((1int, 1int, 4int))) == (1u64 << 47u64));
    assert(flip_spec(shift_spec(c, 1)) == Some((0int, 1int, 0int)));
    assert(coord_bits(Some((0int, 1int, 0int))) == (1u64 << 42u64));
    assert(flip_spec(shift_spec(c, -1)) == None::<(int, int, int)>);
    assert(shift_spec(c, 2) == Some((0int, 2int, 4int)));
    assert(coord_bits(Some((0int, 2int, 4int))) == (1u64 << 56u64));
    assert(shift_spec(c, -2) == Some((0int, 2int, 0int)));
    assert(coord_bits(Some((0int, 2int, 0int))) == (1u64 << 54u64));
}

proof fn vertex_black_56()
    ensures
        vertex_table(Color::Black, 56usize) == vertex_neighbors_geo(56, Color::Black),
{
    reveal(vertex_table);
    bv_vertex_black();
    let c = field_at(56, Color::Black);
    assert(c == Some((0int, 2int, 4int)));
    lemma_fold6(shift_spec(flip_spec(c), 1), shift_spec(flip_spec(c), -1), flip_spec(shift_spec(c, 1)), flip_spec(shift_spec(c, -1)), shift_spec(c, 2), shift_spec(c, -2));
    assert(shift_spec(flip_spec(c), 1) == Some((-1int, 2int, 2int)));
    assert(coord_bits(Some((-1int, 2int, 2int))) == (1u64 << 52u64));
    assert(shift_spec(flip_spec(c), -1) == Some((-1int, 2int, 0int)));
    assert(coord_bits(Some((-1int, 2int, 0int))) == (1u64 << 51u64));
    assert(flip_spec(shift_spec(c, 1)) == None::<(int, int, int)>);
    assert(flip_spec(shift_spec(c, -1)) == Some((0int, 1int, 0int)));
    assert(coord_bits(Some((0int, 1int, 0int))) == (1u64 << 42u64));
    assert(shift_spec(c, 2) == Some((0int, 2int, 0int)));
    assert(coord_bits(Some((0int, 2int, 0int))) == (1u64 << 54u64));
    assert(shift_spec(c, -2) == Some((0int, 2int, 2int)));
    assert(coord_bits(Some((0int, 2int, 2int))) == (1u64 << 55u64));
}

/// Entry `i` of the vertex table of black fields is the geometry.
pub proof fn lemma_vertex_black(i: int)
    requires
        0 <= i < 57,
    ensures
        vertex_table(Color::Black, i as usize) == vertex_neighbors_geo(i, Color::Black),
{
    if i == 0 {
        vertex_black_0();
    }
    if i == 1 {
        vertex_black_1();
    }
    if i == 2 {
        vertex_black_2();
    }
    if i == 3 {
        vertex_black_3();
    }
    if i == 4 {
        vertex_black_4();
    }
    if i == 5 {
        vertex_black_5();
    }
    if i == 6 {
        vertex_black_6();
    }
    if i == 7 {
        vertex_black_7();
    }
    if i == 8 {
        vertex_black_8();
    }
    if i == 9 {
        vertex_black_9();
    }
    if i == 10 {
        vertex_black_10();
    }
    if i == 11 {
        vertex_black_11();
    }
    if i == 12 {
        vertex_black_12();
    }
    if i == 13 {
        vertex_black_13();
    }
    if i == 14 {
        vertex_black_14();
    }
    if i == 15 {
        vertex_black_15();
    }
    if i == 16 {
        vertex_black_16();
    }
    if i == 17 {
        vertex_black_17();
    }
    if i == 18 {
        vertex_black_18();
    }
    if i == 19 {
        vertex_black_19();
    }
    if i == 20 {
        vertex_black_20();
    }
    if i == 21 {
        vertex_black_21();
    }
    if i == 22 {
        vertex_black_22();
    }
    if i == 23 {
        vertex_black_23();
    }
    if i == 24 {
        vertex_black_24();
    }
    if i == 25 {
        vertex_black_25();
    }
    if i == 26 {
        vertex_black_26();
    }
    if i == 27 {
        vertex_black_27();
    }
    if i == 28 {
        vertex_black_28();
    }
    if i == 29 {
        vertex_black_29();
    }
    if i == 30 {
        vertex_black_30();
    }
    if i == 31 {
        vertex_black_31();
    }
    if i == 32 {
        vertex_black_32();
    }
    if i == 33 {
        vertex_black_33();
    }
    if i == 34 {
        vertex_black_34();
    }
    if i == 35 {
        vertex_black_35();
    }
    if i == 36 {
        vertex_black_36();
    }
    if i == 37 {
        vertex_black_37();
    }
    if i == 38 {
        vertex_black_38();
    }
    if i == 39 {
        vertex_black_39();
    }
    if i == 40 {
        vertex_black_40();
    }
    if i == 41 {
        vertex_black_41();
    }
    if i == 42 {
        vertex_black_42();
    }
    if i == 43 {
        vertex_black_43();
    }
    if i == 44 {
        vertex_black_44();
    }
    if i == 45 {
        vertex_black_45();
    }
    if i == 46 {
        vertex_black_46();
    }
    if i == 47 {
        vertex_black_47();
    }
    if i == 48 {
        vertex_black_48();
    }
    if i == 49 {
        vertex_black_49();
    }
    if i == 50 {
        vertex_black_50();
    }
    if i == 51 {
        vertex_black_51();
    }
    if i == 52 {
        vertex_black_52();
    }
    if i == 53 {
        vertex_black_53();
    }
    if i == 54 {
        vertex_black_54();
    }
    if i == 55 {
        vertex_black_55();
    }
    if i == 56 {
        vertex_black_56();
    }
}

proof fn bv_hex_neighbor()
    by (bit_vector)
    ensures
        8192u64 == (1u64 << 13u64),
        32u64 == (1u64 << 5u64),
        0u64 == 0u64,
        0u64 == 0u64,
        0u64 == 0u64,
        1024u64 == (1u64 << 10u64),
        65536u64 == (1u64 << 16u64),
        256u64 == (1u64 << 8u64),
        0u64 == 0u64,
        0u64 == 0u64,
        1u64 == (1u64 << 0u64),
        8192u64 == (1u64 << 13u64),
        524288u64 == (1u64 << 19u64),
        0u64 == 0u64,
        0u64 == 0u64,
        0u64 == 0u64,
        8u64 == (1u64 << 3u64),
        65536u64 == (1u64 << 16u64),
        33554432u64 == (1u64 << 25u64),
        16384u64 == (1u64 << 14u64),
        4u64 == (1u64 << 2u64),
        0u64 == 0u64,
        0u64 == 0u64,
        4194304u64 == (1u64 << 22u64),
        268435456u64 == (1u64 << 28u64),
        131072u64 == (1u64 << 17u64),
        32u64 == (1u64 << 5u64),
        1u64 == (1u64 << 0u64),
        512u64 == (1u64 << 9u64),
        33554432u64 == (1u64 << 25u64),
        2147483648u64 == (1u64 << 31u64),
        1048576u64 == (1u64 << 20u64),
        256u64 == (1u64 << 8u64),
        8u64 == (1u64 << 3u64),
        4096u64 == (1u64 << 12u64),
        268435456u64 == (1u64 << 28u64),
        17179869184u64 == (1u64 << 34u64),
        0u64 == 0u64,
        0u64 == 0u64,
        64u64 == (1u64 << 6u64),
        32768u64 == (1u64 << 15u64),
        2147483648u64 == (1u64 << 31u64),
        137438953472u64 == (1u64 << 37u64),
        67108864u64 == (1u64 << 26u64),
        2048u64 == (1u64 << 11u64),
        0u64 == 0u64,
        0u64 == 0u64,
        0u64 == 0u64,
        1099511627776u64 == (1u64 << 40u64),
        536870912u64 == (1u64 << 29u64),
        16384u64 == (1u64 << 14u64),
        512u64 == (1u64 << 9u64),
        2097152u64 == (1u64 << 21u64),
        137438953472u64 == (1u64 << 37u64),
        8796093022208u64 == (1u64 << 43u64),
        4294967296u64 == (1u64 << 32u64),
        131072u64 == (1u64 << 17u64),
        4096u64 == (1u64 << 12u64),
        16777216u64 == (1u64 << 24u64),
        1099511627776u64 == (1u64 << 40u64),
        70368744177664u64 == (1u64 << 46u64),
        34359738368u64 == (1u64 << 35u64),
        1048576u64 == (1u64 << 20u64),
        32768u64 == (1u64 << 15u64),
        134217728u64 == (1u64 << 27u64),
        8796093022208u64 == (1u64 << 43u64),
        0u64 == 0u64,
        0u64 == 0u64,
        0u64 == 0u64,
        262144u64 == (1u64 << 18u64),
        1073741824u64 == (1u64 << 30u64),
        70368744177664u64 == (1u64 << 46u64),
        562949953421312u64 == (1u64 << 49u64),
        2199023255552u64 == (1u64 << 41u64),
        67108864u64 == (1u64 << 26u64),
        2097152u64 == (1u64 << 21u64),
        0u64 == 0u64,
        0u64 == 0u64,
        4503599627370496u64 == (1u64 << 52u64),
        17592186044416u64 == (1u64 << 44u64),
        536870912u64 == (1u64 << 29u64),
        16777216u64 == (1u64 << 24u64),
        68719476736u64 == (1u64 << 36u64),
        562949953421312u64 == (1u64 << 49u64),
        36028797018963968u64 == (1u64 << 55u64),
        140737488355328u64 == (1u64 << 47u64),
        4294967296u64 == (1u64 << 32u64),
        134217728u64 == (1u64 << 27u64),
        549755813888u64 == (1u64 << 39u64),
        4503599627370496u64 == (1u64 << 52u64),
        0u64 == 0u64,
        0u64 == 0u64,
        34359738368u64 == (1u64 << 35u64),
        1073741824u64 == (1u64 << 30u64),
        4398046511104u64 == (1u64 << 42u64),
        36028797018963968u64 == (1u64 << 55u64),
        0u64 == 0u64,
        9007199254740992u64 == (1u64 << 53u64),
        2199023255552u64 == (1u64 << 41u64),
        68719476736u64 == (1u64 << 36u64),
        0u64 == 0u64,
        0u64 == 0u64,
        0u64 == 0u64,
        72057594037927936u64 == (1u64 << 56u64),
        17592186044416u64 == (1u64 << 44u64),
        549755813888u64 == (1u64 << 39u64),
        281474976710656u64 == (1u64 << 48u64),
        0u64 == 0u64,
        0u64 == 0u64,
        0u64 == 0u64,
        140737488355328u64 == (1u64 << 47u64),
        4398046511104u64 == (1u64 << 42u64),
        2251799813685248u64 == (1u64 << 51u64),
        0u64 == 0u64,
{
}

proof fn hex_neighbor_0()
    ensures
        hex_neighbor_table(0usize) == hex_neighbor_geo(0, 0),
{
    reveal(hex_neighbor_table);
    reveal(hex_neighbor_geo);
    bv_hex_neighbor();
    assert(hex_field(0, 0) == Some((0int, -2int, 0int)));
    assert(flip_spec(hex_field(0, 0)) == Some((0int, -1int, 3int)));
    assert(coord_bits(Some((0int, -1int, 3int))) == (1u64 << 13u64));
}

proof fn hex_neighbor_1()
    ensures
        hex_neighbor_table(1usize) == hex_neighbor_geo(0, 1),
{
    reveal(hex_neighbor_table);
    reveal(hex_neighbor_geo);
    bv_hex_neighbor();
    assert(hex_field(0, 1) == Some((0int, -2int, 1int)));
    assert(flip_spec(hex_field(0, 1)) == Some((1int, -2int, 4int)));
    assert(coord_bits(Some((1int, -2int, 4int))) == (1u64 << 5u64));
}

proof fn hex_neighbor_2()
    ensures
        hex_neighbor_table(2usize) == hex_neighbor_geo(0, 2),
{
    reveal(hex_neighbor_table);
    reveal(hex_neighbor_geo);
    bv_hex_neighbor();
    assert(hex_field(0, 2) == Some((0int, -2int, 2int)));
    assert(flip_spec(hex_field(0, 2)) == None::<(int, int, int)>);
}

proof fn hex_neighbor_3()
    ensures
        hex_neighbor_table(3usize) == hex_neighbor_geo(0, 3),
{
    reveal(hex_neighbor_table);
    reveal(hex_neighbor_geo);
    bv_hex_neighbor();
    assert(hex_field(0, 3) == Some((0int, -2int, 3int)));
    assert(flip_spec(hex_field(0, 3)) == None::<(int, int, int)>);
}

proof fn hex_neighbor_4()
    ensures
        hex_neighbor_table(4usize) == hex_neighbor_geo(0, 4),
{
    reveal(hex_neighbor_table);
    reveal(hex_neighbor_geo);
    bv_hex_neighbor();
    assert(hex_field(0, 4) == Some((0int, -2int, 4int)));
    assert(flip_spec(hex_field(0, 4)) == None::<(int, int, int)>);
}

proof fn hex_neighbor_5()
    ensures
        hex_neighbor_table(5usize) == hex_neighbor_geo(0, 5),
{
    reveal(hex_neighbor_table);
    reveal(hex_neighbor_geo);
    bv_hex_neighbor();
    assert(hex_field(0, 5) == Some((0int, -2int, 5int)));
    assert(flip_spec(hex_field(0, 5)) == Some((-1int, -1int, 2int)));
    assert(coord_bits(Some((-1int, -1int, 2int))) == (1u64 << 10u64));
}

proof fn hex_neighbor_6()
    ensures
        hex_neighbor_table(6usize) == hex_neighbor_geo(1, 0),
{
    reveal(hex_neighbor_table);
    reveal(hex_neighbor_geo);
    bv_hex_neighbor();
    assert(hex_field(1, 0) == Some((1int, -2int, 0int)));
    assert(flip_spec(hex_field(1, 0)) == Some((1int, -1int, 3int)));
    assert(coord_bits(Some((1int, -1int, 3int))) == (1u64 << 16u64));
}

proof fn hex_neighbor_7()
    ensures
        hex_neighbor_table(7usize) == hex_neighbor_geo(1, 1),
{
    reveal(hex_neighbor_table);
    reveal(hex_neighbor_geo);
    bv_hex_neighbor();
    assert(hex_field(1, 1) == Some((1int, -2int, 1int)));
    assert(flip_spec(hex_field(1, 1)) == Some((2int, -2int, 4int)));
    assert(coord_bits(Some((2int, -2int, 4int))) == (1u64 << 8u64));
}

proof fn hex_neighbor_8()
    ensures
        hex_neighbor_table(8usize) == hex_neighbor_geo(1, 2),
{
    reveal(hex_neighbor_table);
    reveal(hex_neighbor_geo);
    bv_hex_neighbor();
    assert(hex_field(1, 2) == Some((1int, -2int, 2int)));
    assert(flip_spec(hex_field(1, 2)) == None::<(int, int, int)>);
}

proof fn hex_neighbor_9()
    ensures
        hex_neighbor_table(9usize) == hex_neighbor_geo(1, 3),
{
    reveal(hex_neighbor_table);
    reveal(hex_neighbor_geo);
    bv_hex_neighbor();
    assert(hex_field(1, 3) == Some((1int, -2int, 3int)));
    assert(flip_spec(hex_field(1, 3)) == None::<(int, int, int)>);
}

proof fn hex_neighbor_10()
    ensures
        hex_neighbor_table(10usize) == hex_neighbor_geo(1, 4),
{
    reveal(hex_neighbor_table);
    reveal(hex_neighbor_geo);
    bv_hex_neighbor();
    assert(hex_field(1, 4) == Some((1int, -2int, 4int)));
    assert(flip_spec(hex_field(1, 4)) == Some((0int, -2int, 1int)));
    assert(coord_bits(Some((0int, -2int, 1int))) == (1u64 << 0u64));
}

proof fn hex_neighbor_11()
    ensures
        hex_neighbor_table(11usize) == hex_neighbor_geo(1, 5),
{
    reveal(hex_neighbor_table);
    reveal(hex_neighbor_geo);
    bv_hex_neighbor();
    assert(hex_field(1, 5) == Some((1int, -2int, 5int)));
    assert(flip_spec(hex_field(1, 5)) == Some((0int, -1int, 2int)));
    assert(coord_bits(Some((0int, -1int, 2int))) == (1u64 << 13u64));
}

proof fn hex_neighbor_12()
    ensures
        hex_neighbor_table(12usize) == hex_neighbor_geo(2, 0),
{
    reveal(hex_neighbor_table);
    reveal(hex_neighbor_geo);
    bv_hex_neighbor();
    assert(hex_field(2, 0) == Some((2int, -2int, 0int)));
    assert(flip_spec(hex_field(2, 0)) == Some((2int, -1int, 3int)));
    assert(coord_bits(Some((2int, -1int, 3int))) == (1u64 << 19u64));
}

proof fn hex_neighbor_13()
    ensures
        hex_neighbor_table(13usize) == hex_neighbor_geo(2, 1),
{
    reveal(hex_neighbor_table);
    reveal(hex_neighbor_geo);
    bv_hex_neighbor();
    assert(hex_field(2, 1) == Some((2int, -2int, 1int)));
    assert(flip_spec(hex_field(2, 1)) == None::<(int, int, int)>);
}

proof fn hex_neighbor_14()
    ensures
        hex_neighbor_table(14usize) == hex_neighbor_geo(2, 2),
{
    reveal(hex_neighbor_table);
    reveal(hex_neighbor_geo);
    bv_hex_neighbor();
    assert(hex_field(2, 2) == Some((2int, -2int, 2int)));
    assert(flip_spec(hex_field(2, 2)) == None::<(int, int, int)>);
}

proof fn hex_neighbor_15()
    ensures
        hex_neighbor_table(15usize) == hex_neighbor_geo(2, 3),
{
    reveal(hex_neighbor_table);
    reveal(hex_neighbor_geo);
    bv_hex_neighbor();
    assert(hex_field(2, 3) == Some((2int, -2int, 3int)));
    assert(flip_spec(hex_field(2, 3)) == None::<(int, int, int)>);
}

proof fn hex_neighbor_16()
    ensures
        hex_neighbor_table(16usize) == hex_neighbor_geo(2, 4),
{
    reveal(hex_neighbor_table);
    reveal(hex_neighbor_geo);
    bv_hex_neighbor();
    assert(hex_field(2, 4) == Some((2int, -2int, 4int)));
    assert(flip_spec(hex_field(2, 4)) == Some((1int, -2int, 1int)));
    assert(coord_bits(Some((1int, -2int, 1int))) == (1u64 << 3u64));
}

proof fn hex_neighbor_17()
    ensures
        hex_neighbor_table(17usize) == hex_neighbor_geo(2, 5),
{
    reveal(hex_neighbor_table);
    reveal(hex_neighbor_geo);
    bv_hex_neighbor();
    assert(hex_field(2, 5) == Some((2int, -2int, 5int)));
    assert(flip_spec(hex_field(2, 5)) == Some((1int, -1int, 2int)));
    assert(coord_bits(Some((1int, -1int, 2int))) == (1u64 << 16u64));
}

proof fn hex_neighbor_18()
    ensures
        hex_neighbor_table(18usize) == hex_neighbor_geo(3, 0),
{
    reveal(hex_neighbor_table);
    reveal(hex_neighbor_geo);
    bv_hex_neighbor();
    assert(hex_field(3, 0) == Some((-1int, -1int, 0int)));
    assert(flip_spec(hex_field(3, 0)) == Some((-1int, 0int, 3int)));
    assert(coord_bits(Some((-1int, 0int, 3int))) == (1u64 << 25u64));
}

proof fn hex_neighbor_19()
    ensures
        hex_neighbor_table(19usize) == hex_neighbor_geo(3, 1),
{
    reveal(hex_neighbor_table);
    reveal(hex_neighbor_geo);
    bv_hex_neighbor();
    assert(hex_field(3, 1) == Some((-1int, -1int, 1int)));
    assert(flip_spec(hex_field(3, 1)) == Some((0int, -1int, 4int)));
    assert(coord_bits(Some((0int, -1int, 4int))) == (1u64 << 14u64));
}

proof fn hex_neighbor_20()
    ensures
        hex_neighbor_table(20usize) == hex_neighbor_geo(3, 2),
{
    reveal(hex_neighbor_table);
    reveal(hex_neighbor_geo);
    bv_hex_neighbor();
    assert(hex_field(3, 2) == Some((-1int, -1int, 2int)));
    assert(flip_spec(hex_field(3, 2)) == Some((0int, -2int, 5int)));
    assert(coord_bits(Some((0int, -2int, 5int))) == (1u64 << 2u64));
}

proof fn hex_neighbor_21()
    ensures
        hex_neighbor_table(21usize) == hex_neighbor_geo(3, 3),
{
    reveal(hex_neighbor_table);
    reveal(hex_neighbor_geo);
    bv_hex_neighbor();
    assert(hex_field(3, 3) == Some((-1int, -1int, 3int)));
    assert(flip_spec(hex_field(3, 3)) == None::<(int, int, int)>);
}

proof fn hex_neighbor_22()
    ensures
        hex_neighbor_table(22usize) == hex_neighbor_geo(3, 4),
{
    reveal(hex_neighbor_table);
    reveal(hex_neighbor_geo);
    bv_hex_neighbor();
    assert(hex_field(3, 4) == Some((-1int, -1int, 4int)));
    assert(flip_spec(hex_field(3, 4)) == None::<(int, int, int)>);
}

proof fn hex_neighbor_23()
    ensures
        hex_neighbor_table(23usize) == hex_neighbor_geo(3, 5),
{
    reveal(hex_neighbor_table);
    reveal(hex_neighbor_geo);
    bv_hex_neighbor();
    assert(hex_field(3, 5) == Some((-1int, -1int, 5int)));
    assert(flip_spec(hex_field(3, 5)) == Some((-2int, 0int, 2int)));
    assert(coord_bits(Some((-2int, 0int, 2int))) == (1u64 << 22u64));
}

proof fn hex_neighbor_24()
    ensures
        hex_neighbor_table(24usize) == hex_neighbor_geo(4, 0),
{
    reveal(hex_neighbor_table);
    reveal(hex_neighbor_geo);
    bv_hex_neighbor();
    assert(hex_field(4, 0) == Some((0int, -1int, 0int)));
    assert(flip_spec(hex_field(4, 0)) == Some((0int, 0int, 3int)));
    assert(coord_bits(Some((0int, 0int, 3int))) == (1u64 << 28u64));
}

proof fn hex_neighbor_25()
    ensures
        hex_neighbor_table(25usize) == hex_neighbor_geo(4, 1),
{
    reveal(hex_neighbor_table);
    reveal(hex_neighbor_geo);
    bv_hex_neighbor();
    assert(hex_field(4, 1) == Some((0int, -1int, 1int)));
    assert(flip_spec(hex_field(4, 1)) == Some((1int, -1int, 4int)));
    assert(coord_bits(Some((1int, -1int, 4int))) == (1u64 << 17u64));
}

proof fn hex_neighbor_26()
    ensures
        hex_neighbor_table(26usize) == hex_neighbor_geo(4, 2),
{
    reveal(hex_neighbor_table);
    reveal(hex_neighbor_geo);
    bv_hex_neighbor();
    assert(hex_field(4, 2) == Some((0int, -1int, 2int)));
    assert(flip_spec(hex_field(4, 2)) == Some((1int, -2int, 5int)));
    assert(coord_bits(Some((1int, -2int, 5int))) == (1u64 << 5u64));
}

proof fn hex_neighbor_27()
    ensures
        hex_neighbor_table(27usize) == hex_neighbor_geo(4, 3),
{
    reveal(hex_neighbor_table);
    reveal(hex_neighbor_geo);
    bv_hex_neighbor();
    assert(hex_field(4, 3) == Some((0int, -1int, 3int)));
    assert(flip_spec(hex_field(4, 3)) == Some((0int, -2int, 0int)));
    assert(coord_bits(Some((0int, -2int, 0int))) == (1u64 << 0u64));
}

proof fn hex_neighbor_28()
    ensures
        hex_neighbor_table(28usize) == hex_neighbor_geo(4, 4),
{
    reveal(hex_neighbor_table);
    reveal(hex_neighbor_geo);
    bv_hex_neighbor();
    assert(hex_field(4, 4) == Some((0int, -1int, 4int)));
    assert(flip_spec(hex_field(4, 4)) == Some((-1int, -1int, 1int)));
    assert(coord_bits(Some((-1int, -1int, 1int))) == (1u64 << 9u64));
}

proof fn hex_neighbor_29()
    ensures
        hex_neighbor_table(29usize) == hex_neighbor_geo(4, 5),
{
    reveal(hex_neighbor_table);
    reveal(hex_neighbor_geo);
    bv_hex_neighbor();
    assert(hex_field(4, 5) == Some((0int, -1int, 5int)));
    assert(flip_spec(hex_field(4, 5)) == Some((-1int, 0int, 2int)));
    assert(coord_bits(Some((-1int, 0int, 2int))) == (1u64 << 25u64));
}

proof fn hex_neighbor_30()
    ensures
        hex_neighbor_table(30usize) == hex_neighbor_geo(5, 0),
{
    reveal(hex_neighbor_table);
    reveal(hex_neighbor_geo);
    bv_hex_neighbor();
    assert(hex_field(5, 0) == Some((1int, -1int, 0int)));
    assert(flip_spec(hex_field(5, 0)) == Some((1int, 0int, 3int)));
    assert(coord_bits(Some((1int, 0int, 3int))) == (1u64 << 31u64));
}

proof fn hex_neighbor_31()
    ensures
        hex_neighbor_table(31usize) == hex_neighbor_geo(5, 1),
{
    reveal(hex_neighbor_table);
    reveal(hex_neighbor_geo);
    bv_hex_neighbor();
    assert(hex_field(5, 1) == Some((1int, -1int, 1int)));
    assert(flip_spec(hex_field(5, 1)) == Some((2int, -1int, 4int)));
    assert(coord_bits(Some((2int, -1int, 4int))) == (1u64 << 20u64));
}

proof fn hex_neighbor_32()
    ensures
        hex_neighbor_table(32usize) == hex_neighbor_geo(5, 2),
{
    reveal(hex_neighbor_table);
    reveal(hex_neighbor_geo);
    bv_hex_neighbor();
    assert(hex_field(5, 2) == Some((1int, -1int, 2int)));
    assert(flip_spec(hex_field(5, 2)) == Some((2int, -2int, 5int)));
    assert(coord_bits(Some((2int, -2int, 5int))) == (1u64 << 8u64));
}

proof fn hex_neighbor_33()
    ensures
        hex_neighbor_table(33usize) == hex_neighbor_geo(5, 3),
{
    reveal(hex_neighbor_table);
    reveal(hex_neighbor_geo);
    bv_hex_neighbor();
    assert(hex_field(5, 3) == Some((1int, -1int, 3int)));
    assert(flip_spec(hex_field(5, 3)) == Some((1int, -2int, 0int)));
    assert(coord_bits(Some((1int, -2int, 0int))) == (1u64 << 3u64));
}

proof fn hex_neighbor_34()
    ensures
        hex_neighbor_table(34usize) == hex_neighbor_geo(5, 4),
{
    reveal(hex_neighbor_table);
    reveal(hex_neighbor_geo);
    bv_hex_neighbor();
    assert(hex_field(5, 4) == Some((1int, -1int, 4int)));
    assert(flip_spec(hex_field(5, 4)) == Some((0int, -1int, 1int)));
    assert(coord_bits(Some((0int, -1int, 1int))) == (1u64 << 12u64));
}

proof fn hex_neighbor_35()
    ensures
        hex_neighbor_table(35usize) == hex_neighbor_geo(5, 5),
{
    reveal(hex_neighbor_table);
    reveal(hex_neighbor_geo);
    bv_hex_neighbor();
    assert(hex_field(5, 5) == Some((1int, -1int, 5int)));
    assert(flip_spec(hex_field(5, 5)) == Some((0int, 0int, 2int)));
    assert(coord_bits(Some((0int, 0int, 2int))) == (1u64 << 28u64));
}

proof fn hex_neighbor_36()
    ensures
        hex_neighbor_table(36usize) == hex_neighbor_geo(6, 0),
{
    reveal(hex_neighbor_table);
    reveal(hex_neighbor_geo);
    bv_hex_neighbor();
    assert(hex_field(6, 0) == Some((2int, -1int, 0int)));
    assert(flip_spec(hex_field(6, 0)) == Some((2int, 0int, 3int)));
    assert(coord_bits(Some((2int, 0int, 3int))) == (1u64 << 34u64));
}

proof fn hex_neighbor_37()
    ensures
        hex_neighbor_table(37usize) == hex_neighbor_geo(6, 1),
{
    reveal(hex_neighbor_table);
    reveal(hex_neighbor_geo);
    bv_hex_neighbor();
    assert(hex_field(6, 1) == Some((2int, -1int, 1int)));
    assert(flip_spec(hex_field(6, 1)) == None::<(int, int, int)>);
}

proof fn hex_neighbor_38()
    ensures
        hex_neighbor_table(38usize) == hex_neighbor_geo(6, 2),
{
    reveal(hex_neighbor_table);
    reveal(hex_neighbor_geo);
    bv_hex_neighbor();
    assert(hex_field(6, 2) == Some((2int, -1int, 2int)));
    assert(flip_spec(hex_field(6, 2)) == None::<(int, int, int)>);
}

proof fn hex_neighbor_39()
    ensures
        hex_neighbor_table(39usize) == hex_neighbor_geo(6, 3),
{
    reveal(hex_neighbor_table);
    reveal(hex_neighbor_geo);
    bv_hex_neighbor();
    assert(hex_field(6, 3) == Some((2int, -1int, 3int)));
    assert(flip_spec(hex_field(6, 3)) == Some((2int, -2int, 0int)));
    assert(coord_bits(Some((2int, -2int, 0int))) == (1u64 << 6u64));
}

proof fn hex_neighbor_40()
    ensures
        hex_neighbor_table(40usize) == hex_neighbor_geo(6, 4),
{
    reveal(hex_neighbor_table);
    reveal(hex_neighbor_geo);
    bv_hex_neighbor();
    assert(hex_field(6, 4) == Some((2int, -1int, 4int)));
    assert(flip_spec(hex_field(6, 4)) == Some((1int, -1int, 1int)));
    assert(coord_bits(Some((1int, -1int, 1int))) == (1u64 << 15u64));
}

proof fn hex_neighbor_41()
    ensures
        hex_neighbor_table(41usize) == hex_neighbor_geo(6, 5),
{
    reveal(hex_neighbor_table);
    reveal(hex_neighbor_geo);
    bv_hex_neighbor();
    assert(hex_field(6, 5) == Some((2int, -1int, 5int)));
    assert(flip_spec(hex_field(6, 5)) == Some((1int, 0int, 2int)));
    assert(coord_bits(Some((1int, 0int, 2int))) == (1u64 << 31u64));
}

proof fn hex_neighbor_42()
    ensures
        hex_neighbor_table(42usize) == hex_neighbor_geo(7, 0),
{
    reveal(hex_neighbor_table);
    reveal(hex_neighbor_geo);
    bv_hex_neighbor();
    assert(hex_field(7, 0) == Some((-2int, 0int, 0int)));
    assert(flip_spec(hex_field(7, 0)) == Some((-2int, 1int, 3int)));
    assert(coord_bits(Some((-2int, 1int, 3int))) == (1u64 << 37u64));
}

proof fn hex_neighbor_43()
    ensures
        hex_neighbor_table(43usize) == hex_neighbor_geo(7, 1),
{
    reveal(hex_neighbor_table);
    reveal(hex_neighbor_geo);
    bv_hex_neighbor();
    assert(hex_field(7, 1) == Some((-2int, 0int, 1int)));
    assert(flip_spec(hex_field(7, 1)) == Some((-1int, 0int, 4int)));
    assert(coord_bits(Some((-1int, 0int, 4int))) == (1u64 << 26u64));
}

proof fn hex_neighbor_44()
    ensures
        hex_neighbor_table(44usize) == hex_neighbor_geo(7, 2),
{
    reveal(hex_neighbor_table);
    reveal(hex_neighbor_geo);
    bv_hex_neighbor();
    assert(hex_field(7, 2) == Some((-2int, 0int, 2int)));
    assert(flip_spec(hex_field(7, 2)) == Some((-1int, -1int, 5int)));
    assert(coord_bits(Some((-1int, -1int, 5int))) == (1u64 << 11u64));
}

proof fn hex_neighbor_45()
    ensures
        hex_neighbor_table(45usize) == hex_neighbor_geo(7, 3),
{
    reveal(hex_neighbor_table);
    reveal(hex_neighbor_geo);
    bv_hex_neighbor();
    assert(hex_field(7, 3) == Some((-2int, 0int, 3int)));
    assert(flip_spec(hex_field(7, 3)) == None::<(int, int, int)>);
}

proof fn hex_neighbor_46()
    ensures
        hex_neighbor_table(46usize) == hex_neighbor_geo(7, 4),
{
    reveal(hex_neighbor_table);
    reveal(hex_neighbor_geo);
    bv_hex_neighbor();
    assert(hex_field(7, 4) == Some((-2int, 0int, 4int)));
    assert(flip_spec(hex_field(7, 4)) == None::<(int, int, int)>);
}

proof fn hex_neighbor_47()
    ensures
        hex_neighbor_table(47usize) == hex_neighbor_geo(7, 5),
{
    reveal(hex_neighbor_table);
    reveal(hex_neighbor_geo);
    bv_hex_neighbor();
    assert(hex_field(7, 5) == Some((-2int, 0int, 5int)));
    assert(flip_spec(hex_field(7, 5)) == None::<(int, int, int)>);
}

proof fn hex_neighbor_48()
    ensures
        hex_neighbor_table(48usize) == hex_neighbor_geo(8, 0),
{
    reveal(hex_neighbor_table);
    reveal(hex_neighbor_geo);
    bv_hex_neighbor();
    assert(hex_field(8, 0) == Some((-1int, 0int, 0int)));
    assert(flip_spec(hex_field(8, 0)) == Some((-1int, 1int, 3int)));
    assert(coord_bits(Some((-1int, 1int, 3int))) == (1u64 << 40u64));
}

proof fn hex_neighbor_49()
    ensures
        hex_neighbor_table(49usize) == hex_neighbor_geo(8, 1),
{
    reveal(hex_neighbor_table);
    reveal(hex_neighbor_geo);
    bv_hex_neighbor();
    assert(hex_field(8, 1) == Some((-1int, 0int, 1int)));
    assert(flip_spec(hex_field(8, 1)) == Some((0int, 0int, 4int)));
    assert(coord_bits(Some((0int, 0int, 4int))) == (1u64 << 29u64));
}

proof fn hex_neighbor_50()
    ensures
        hex_neighbor_table(50usize) == hex_neighbor_geo(8, 2),
{
    reveal(hex_neighbor_table);
    reveal(hex_neighbor_geo);
    bv_hex_neighbor();
    assert(hex_field(8, 2) == Some((-1int, 0int, 2int)));
    assert(flip_spec(hex_field(8, 2)) == Some((0int, -1int, 5int)));
    assert(coord_bits(Some((0int, -1int, 5int))) == (1u64 << 14u64));
}

proof fn hex_neighbor_51()
    ensures
        hex_neighbor_table(51usize) == hex_neighbor_geo(8, 3),
{
    reveal(hex_neighbor_table);
    reveal(hex_neighbor_geo);
    bv_hex_neighbor();
    assert(hex_field(8, 3) == Some((-1int, 0int, 3int)));
    assert(flip_spec(hex_field(8, 3)) == Some((-1int, -1int, 0int)));
    assert(coord_bits(Some((-1int, -1int, 0int))) == (1u64 << 9u64));
}

proof fn hex_neighbor_52()
    ensures
        hex_neighbor_table(52usize) == hex_neighbor_geo(8, 4),
{
    reveal(hex_neighbor_table);
    reveal(hex_neighbor_geo);
    bv_hex_neighbor();
    assert(hex_field(8, 4) == Some((-1int, 0int, 4int)));
    assert(flip_spec(hex_field(8, 4)) == Some((-2int, 0int, 1int)));
    assert(coord_bits(Some((-2int, 0int, 1int))) == (1u64 << 21u64));
}

proof fn hex_neighbor_53()
    ensures
        hex_neighbor_table(53usize) == hex_neighbor_geo(8, 5),
{
    reveal(hex_neighbor_table);
    reveal(hex_neighbor_geo);
    bv_hex_neighbor();
    assert(hex_field(8, 5) == Some((-1int, 0int, 5int)));
    assert(flip_spec(hex_field(8, 5)) == Some((-2int, 1int, 2int)));
    assert(coord_bits(Some((-2int, 1int, 2int))) == (1u64 << 37u64));
}

proof fn hex_neighbor_54()
    ensures
        hex_neighbor_table(54usize) == hex_neighbor_geo(9, 0),
{
    reveal(hex_neighbor_table);
    reveal(hex_neighbor_geo);
    bv_hex_neighbor();
    assert(hex_field(9, 0) == Some((0int, 0int, 0int)));
    assert(flip_spec(hex_field(9, 0)) == Some((0int, 1int, 3int)));
    assert(coord_bits(Some((0int, 1int, 3int))) == (1u64 << 43u64));
}

proof fn hex_neighbor_55()
    ensures
        hex_neighbor_table(55usize) == hex_neighbor_geo(9, 1),
{
    reveal(hex_neighbor_table);
    reveal(hex_neighbor_geo);
    bv_hex_neighbor();
    assert(hex_field(9, 1) == Some((0int, 0int, 1int)));
    assert(flip_spec(hex_field(9, 1)) == Some((1int, 0int, 4int)));
    assert(coord_bits(Some((1int, 0int, 4int))) == (1u64 << 32u64));
}

proof fn hex_neighbor_56()
    ensures
        hex_neighbor_table(56usize) == hex_neighbor_geo(9, 2),
{
    reveal(hex_neighbor_table);
    reveal(hex_neighbor_geo);
    bv_hex_neighbor();
    assert(hex_field(9, 2) == Some((0int, 0int, 2int)));
    assert(flip_spec(hex_field(9, 2)) == Some((1int, -1int, 5int)));
    assert(coord_bits(Some((1int, -1int, 5int))) == (1u64 << 17u64));
}

proof fn hex_neighbor_57()
    ensures
        hex_neighbor_table(57usize) == hex_neighbor_geo(9, 3),
{
    reveal(hex_neighbor_table);
    reveal(hex_neighbor_geo);
    bv_hex_neighbor();
    assert(hex_field(9, 3) == Some((0int, 0int, 3int)));
    assert(flip_spec(hex_field(9, 3)) == Some((0int, -1int, 0int)));
    assert(coord_bits(Some((0int, -1int, 0int))) == (1u64 << 12u64));
}

proof fn hex_neighbor_58()
    ensures
        hex_neighbor_table(58usize) == hex_neighbor_geo(9, 4),
{
    reveal(hex_neighbor_table);
    reveal(hex_neighbor_geo);
    bv_hex_neighbor();
    assert(hex_field(9, 4) == Some((0int, 0int, 4int)));
    assert(flip_spec(hex_field(9, 4)) == Some((-1int, 0int, 1int)));
    assert(coord_bits(Some((-1int, 0int, 1int))) == (1u64 << 24u64));
}

proof fn hex_neighbor_59()
    ensures
        hex_neighbor_table(59usize) == hex_neighbor_geo(9, 5),
{
    reveal(hex_neighbor_table);
    reveal(hex_neighbor_geo);
    bv_hex_neighbor();
    assert(hex_field(9, 5) == Some((0int, 0int, 5int)));
    assert(flip_spec(hex_field(9, 5)) == Some((-1int, 1int, 2int)));
    assert(coord_bits(Some((-1int, 1int, 2int))) == (1u64 << 40u64));
}

proof fn hex_neighbor_60()
    ensures
        hex_neighbor_table(60usize) == hex_neighbor_geo(10, 0),
{
    reveal(hex_neighbor_table);
    reveal(hex_neighbor_geo);
    bv_hex_neighbor();
    assert(hex_field(10, 0) == Some((1int, 0int, 0int)));
    assert(flip_spec(hex_field(10, 0)) == Some((1int, 1int, 3int)));
    assert(coord_bits(Some((1int, 1int, 3int))) == (1u64 << 46u64));
}

proof fn hex_neighbor_61()
    ensures
        hex_neighbor_table(61usize) == hex_neighbor_geo(10, 1),
{
    reveal(hex_neighbor_table);
    reveal(hex_neighbor_geo);
    bv_hex_neighbor();
    assert(hex_field(10, 1) == Some((1int, 0int, 1int)));
    assert(flip_spec(hex_field(10, 1)) == Some((2int, 0int, 4int)));
    assert(coord_bits(Some((2int, 0int, 4int))) == (1u64 << 35u64));
}

proof fn hex_neighbor_62()
    ensures
        hex_neighbor_table(62usize) == hex_neighbor_geo(10, 2),
{
    reveal(hex_neighbor_table);
    reveal(hex_neighbor_geo);
    bv_hex_neighbor();
    assert(hex_field(10, 2) == Some((1int, 0int, 2int)));
    assert(flip_spec(hex_field(10, 2)) == Some((2int, -1int, 5int)));
    assert(coord_bits(Some((2int, -1int, 5int))) == (1u64 << 20u64));
}

proof fn hex_neighbor_63()
    ensures
        hex_neighbor_table(63usize) == hex_neighbor_geo(10, 3),
{
    reveal(hex_neighbor_table);
    reveal(hex_neighbor_geo);
    bv_hex_neighbor();
    assert(hex_field(10, 3) == Some((1int, 0int, 3int)));
    assert(flip_spec(hex_field(10, 3)) == Some((1int, -1int, 0int)));
    assert(coord_bits(Some((1int, -1int, 0int))) == (1u64 << 15u64));
}

proof fn hex_neighbor_64()
    ensures
        hex_neighbor_table(64usize) == hex_neighbor_geo(10, 4),
{
    reveal(hex_neighbor_table);
    reveal(hex_neighbor_geo);
    bv_hex_neighbor();
    assert(hex_field(10, 4) == Some((1int, 0int, 4int)));
    assert(flip_spec(hex_field(10, 4)) == Some((0int, 0int, 1int)));
    assert(coord_bits(Some((0int, 0int, 1int))) == (1u64 << 27u64));
}

proof fn hex_neighbor_65()
    ensures
        hex_neighbor_table(65usize) == hex_neighbor_geo(10, 5),
{
    reveal(hex_neighbor_table);
    reveal(hex_neighbor_geo);
    bv_hex_neighbor();
    assert(hex_field(10, 5) == Some((1int, 0int, 5int)));
    assert(flip_spec(hex_field(10, 5)) == Some((0int, 1int, 2int)));
    assert(coord_bits(Some((0int, 1int, 2int))) == (1u64 << 43u64));
}

proof fn hex_neighbor_66()
    ensures
        hex_neighbor_table(66usize) == hex_neighbor_geo(11, 0),
{
    reveal(hex_neighbor_table);
    reveal(hex_neighbor_geo);
    bv_hex_neighbor();
    assert(hex_field(11, 0) == Some((2int, 0int, 0int)));
    assert(flip_spec(hex_field(11, 0)) == None::<(int, int, int)>);
}

proof fn hex_neighbor_67()
    ensures
        hex_neighbor_table(67usize) == hex_neighbor_geo(11, 1),
{
    reveal(hex_neighbor_table);
    reveal(hex_neighbor_geo);
    bv_hex_neighbor();
    assert(hex_field(11, 1) == Some((2int, 0int, 1int)));
    assert(flip_spec(hex_field(11, 1)) == None::<(int, int, int)>);
}

proof fn hex_neighbor_68()
    ensures
        hex_neighbor_table(68usize) == hex_neighbor_geo(11, 2),
{
    reveal(hex_neighbor_table);
    reveal(hex_neighbor_geo);
    bv_hex_neighbor();
    assert(hex_field(11, 2) == Some((2int, 0int, 2int)));
    assert(flip_spec(hex_field(11, 2)) == None::<(int, int, int)>);
}

proof fn hex_neighbor_69()
    ensures
        hex_neighbor_table(69usize) == hex_neighbor_geo(11, 3),
{
    reveal(hex_neighbor_table);
    reveal(hex_neighbor_geo);
    bv_hex_neighbor();
    assert(hex_field(11, 3) == Some((2int, 0int, 3int)));
    assert(flip_spec(hex_field(11, 3)) == Some((2int, -1int, 0int)));
    assert(coord_bits(Some((2int, -1int, 0int))) == (1u64 << 18u64));
}

proof fn hex_neighbor_70()
    ensures
        hex_neighbor_table(70usize) == hex_neighbor_geo(11, 4),
{
    reveal(hex_neighbor_table);
    reveal(hex_neighbor_geo);
    bv_hex_neighbor();
    assert(hex_field(11, 4) == Some((2int, 0int, 4int)));
    assert(flip_spec(hex_field(11, 4)) == Some((1int, 0int, 1int)));
    assert(coord_bits(Some((1int, 0int, 1int))) == (1u64 << 30u64));
}

proof fn hex_neighbor_71()
    ensures
        hex_neighbor_table(71usize) == hex_neighbor_geo(11, 5),
{
    reveal(hex_neighbor_table);
    reveal(hex_neighbor_geo);
    bv_hex_neighbor();
    assert(hex_field(11, 5) == Some((2int, 0int, 5int)));
    assert(flip_spec(hex_field(11, 5)) == Some((1int, 1int, 2int)));
    assert(coord_bits(Some((1int, 1int, 2int))) == (1u64 << 46u64));
}

proof fn hex_neighbor_72()
    ensures
        hex_neighbor_table(72usize) == hex_neighbor_geo(12, 0),
{
    reveal(hex_neighbor_table);
    reveal(hex_neighbor_geo);
    bv_hex_neighbor();
    assert(hex_field(12, 0) == Some((-2int, 1int, 0int)));
    assert(flip_spec(hex_field(12, 0)) == Some((-2int, 2int, 3int)));
    assert(coord_bits(Some((-2int, 2int, 3int))) == (1u64 << 49u64));
}

proof fn hex_neighbor_73()
    ensures
        hex_neighbor_table(73usize) == hex_neighbor_geo(12, 1),
{
    reveal(hex_neighbor_table);
    reveal(hex_neighbor_geo);
    bv_hex_neighbor();
    assert(hex_field(12, 1) == Some((-2int, 1int, 1int)));
    assert(flip_spec(hex_field(12, 1)) == Some((-1int, 1int, 4int)));
    assert(coord_bits(Some((-1int, 1int, 4int))) == (1u64 << 41u64));
}

proof fn hex_neighbor_74()
    ensures
        hex_neighbor_table(74usize) == hex_neighbor_geo(12, 2),
{
    reveal(hex_neighbor_table);
    reveal(hex_neighbor_geo);
    bv_hex_neighbor();
    assert(hex_field(12, 2) == Some((-2int, 1int, 2int)));
    assert(flip_spec(hex_field(12, 2)) == Some((-1int, 0int, 5int)));
    assert(coord_bits(Some((-1int, 0int, 5int))) == (1u64 << 26u64));
}

proof fn hex_neighbor_75()
    ensures
        hex_neighbor_table(75usize) == hex_neighbor_geo(12, 3),
{
    reveal(hex_neighbor_table);
    reveal(hex_neighbor_geo);
    bv_hex_neighbor();
    assert(hex_field(12, 3) == Some((-2int, 1int, 3int)));
    assert(flip_spec(hex_field(12, 3)) == Some((-2int, 0int, 0int)));
    assert(coord_bits(Some((-2int, 0int, 0int))) == (1u64 << 21u64));
}

proof fn hex_neighbor_76()
    ensures
        hex_neighbor_table(76usize) == hex_neighbor_geo(12, 4),
{
    reveal(hex_neighbor_table);
    reveal(hex_neighbor_geo);
    bv_hex_neighbor();
    assert(hex_field(12, 4) == Some((-2int, 1int, 4int)));
    assert(flip_spec(hex_field(12, 4)) == None::<(int, int, int)>);
}

proof fn hex_neighbor_77()
    ensures
        hex_neighbor_table(77usize) == hex_neighbor_geo(12, 5),
{
    reveal(hex_neighbor_table);
    reveal(hex_neighbor_geo);
    bv_hex_neighbor();
    assert(hex_field(12, 5) == Some((-2int, 1int, 5int)));
    assert(flip_spec(hex_field(12, 5)) == None::<(int, int, int)>);
}

proof fn hex_neighbor_78()
    ensures
        hex_neighbor_table(78usize) == hex_neighbor_geo(13, 0),
{
    reveal(hex_neighbor_table);
    reveal(hex_neighbor_geo);
    bv_hex_neighbor();
    assert(hex_field(13, 0) == Some((-1int, 1int, 0int)));
    assert(flip_spec(hex_field(13, 0)) == Some((-1int, 2int, 3int)));
    assert(coord_bits(Some((-1int, 2int, 3int))) == (1u64 << 52u64));
}

proof fn hex_neighbor_79()
    ensures
        hex_neighbor_table(79usize) == hex_neighbor_geo(13, 1),
{
    reveal(hex_neighbor_table);
    reveal(hex_neighbor_geo);
    bv_hex_neighbor();
    assert(hex_field(13, 1) == Some((-1int, 1int, 1int)));
    assert(flip_spec(hex_field(13, 1)) == Some((0int, 1int, 4int)));
    assert(coord_bits(Some((0int, 1int, 4int))) == (1u64 << 44u64));
}

proof fn hex_neighbor_80()
    ensures
        hex_neighbor_table(80usize) == hex_neighbor_geo(13, 2),
{
    reveal(hex_neighbor_table);
    reveal(hex_neighbor_geo);
    bv_hex_neighbor();
    assert(hex_field(13, 2) == Some((-1int, 1int, 2int)));
    assert(flip_spec(hex_field(13, 2)) == Some((0int, 0int, 5int)));
    assert(coord_bits(Some((0int, 0int, 5int))) == (1u64 << 29u64));
}

proof fn hex_neighbor_81()
    ensures
        hex_neighbor_table(81usize) == hex_neighbor_geo(13, 3),
{
    reveal(hex_neighbor_table);
    reveal(hex_neighbor_geo);
    bv_hex_neighbor();
    assert(hex_field(13, 3) == Some((-1int, 1int, 3int)));
    assert(flip_spec(hex_field(13, 3)) == Some((-1int, 0int, 0int)));
    assert(coord_bits(Some((-1int, 0int, 0int))) == (1u64 << 24u64));
}

proof fn hex_neighbor_82()
    ensures
        hex_neighbor_table(82usize) == hex_neighbor_geo(13, 4),
{
    reveal(hex_neighbor_table);
    reveal(hex_neighbor_geo);
    bv_hex_neighbor();
    assert(hex_field(13, 4) == Some((-1int, 1int, 4int)));
    assert(flip_spec(hex_field(13, 4)) == Some((-2int, 1int, 1int)));
    assert(coord_bits(Some((-2int, 1int, 1int))) == (1u64 << 36u64));
}

proof fn hex_neighbor_83()
    ensures
        hex_neighbor_table(83usize) == hex_neighbor_geo(13, 5),
{
    reveal(hex_neighbor_table);
    reveal(hex_neighbor_geo);
    bv_hex_neighbor();
    assert(hex_field(13, 5) == Some((-1int, 1int, 5int)));
    assert(flip_spec(hex_field(13, 5)) == Some((-2int, 2int, 2int)));
    assert(coord_bits(Some((-2int, 2int, 2int))) == (1u64 << 49u64));
}

proof fn hex_neighbor_84()
    ensures
        hex_neighbor_table(84usize) == hex_neighbor_geo(14, 0),
{
    reveal(hex_neighbor_table);
    reveal(hex_neighbor_geo);
    bv_hex_neighbor();
    assert(hex_field(14, 0) == Some((0int, 1int, 0int)));
    assert(flip_spec(hex_field(14, 0)) == Some((0int, 2int, 3int)));
    assert(coord_bits(Some((0int, 2int, 3int))) == (1u64 << 55u64));
}

proof fn hex_neighbor_85()
    ensures
        hex_neighbor_table(85usize) == hex_neighbor_geo(14, 1),
{
    reveal(hex_neighbor_table);
    reveal(hex_neighbor_geo);
    bv_hex_neighbor();
    assert(hex_field(14, 1) == Some((0int, 1int, 1int)));
    assert(flip_spec(hex_field(14, 1)) == Some((1int, 1int, 4int)));
    assert(coord_bits(Some((1int, 1int, 4int))) == (1u64 << 47u64));
}

proof fn hex_neighbor_86()
    ensures
        hex_neighbor_table(86usize) == hex_neighbor_geo(14, 2),
{
    reveal(hex_neighbor_table);
    reveal(hex_neighbor_geo);
    bv_hex_neighbor();
    assert(hex_field(14, 2) == Some((0int, 1int, 2int)));
    assert(flip_spec(hex_field(14, 2)) == Some((1int, 0int, 5int)));
    assert(coord_bits(Some((1int, 0int, 5int))) == (1u64 << 32u64));
}

proof fn hex_neighbor_87()
    ensures
        hex_neighbor_table(87usize) == hex_neighbor_geo(14, 3),
{
    reveal(hex_neighbor_table);
    reveal(hex_neighbor_geo);
    bv_hex_neighbor();
    assert(hex_field(14, 3) == Some((0int, 1int, 3int)));
    assert(flip_spec(hex_field(14, 3)) == Some((0int, 0int, 0int)));
    assert(coord_bits(Some((0int, 0int, 0int))) == (1u64 << 27u64));
}

proof fn hex_neighbor_88()
    ensures
        hex_neighbor_table(88usize) == hex_neighbor_geo(14, 4),
{
    reveal(hex_neighbor_table);
    reveal(hex_neighbor_geo);
    bv_hex_neighbor();
    assert(hex_field(14, 4) == Some((0int, 1int, 4int)));
    assert(flip_spec(hex_field(14, 4)) == Some((-1int, 1int, 1int)));
    assert(coord_bits(Some((-1int, 1int, 1int))) == (1u64 << 39u64));
}

proof fn hex_neighbor_89()
    ensures
        hex_neighbor_table(89usize) == hex_neighbor_geo(14, 5),
{
    reveal(hex_neighbor_table);
    reveal(hex_neighbor_geo);
    bv_hex_neighbor();
    assert(hex_field(14, 5) == Some((0int, 1int, 5int)));
    assert(flip_spec(hex_field(14, 5)) == Some((-1int, 2int, 2int)));
    assert(coord_bits(Some((-1int, 2int, 2int))) == (1u64 << 52u64));
}

proof fn hex_neighbor_90()
    ensures
        hex_neighbor_table(90usize) == hex_neighbor_geo(15, 0),
{
    reveal(hex_neighbor_table);
    reveal(hex_neighbor_geo);
    bv_hex_neighbor();
    assert(hex_field(15, 0) == Some((1int, 1int, 0int)));
    assert(flip_spec(hex_field(15, 0)) == None::<(int, int, int)>);
}

proof fn hex_neighbor_91()
    ensures
        hex_neighbor_table(91usize) == hex_neighbor_geo(15, 1),
{
    reveal(hex_neighbor_table);
    reveal(hex_neighbor_geo);
    bv_hex_neighbor();
    assert(hex_field(15, 1) == Some((1int, 1int, 1int)));
    assert(flip_spec(hex_field(15, 1)) == None::<(int, int, int)>);
}

proof fn hex_neighbor_92()
    ensures
        hex_neighbor_table(92usize) == hex_neighbor_geo(15, 2),
{
    reveal(hex_neighbor_table);
    reveal(hex_neighbor_geo);
    bv_hex_neighbor();
    assert(hex_field(15, 2) == Some((1int, 1int, 2int)));
    assert(flip_spec(hex_field(15, 2)) == Some((2int, 0int, 5int)));
    assert(coord_bits(Some((2int, 0int, 5int))) == (1u64 << 35u64));
}

proof fn hex_neighbor_93()
    ensures
        hex_neighbor_table(93usize) == hex_neighbor_geo(15, 3),
{
    reveal(hex_neighbor_table);
    reveal(hex_neighbor_geo);
    bv_hex_neighbor();
    assert(hex_field(15, 3) == Some((1int, 1int, 3int)));
    assert(flip_spec(hex_field(15, 3)) == Some((1int, 0int, 0int)));
    assert(coord_bits(Some((1int, 0int, 0int))) == (1u64 << 30u64));
}

proof fn hex_neighbor_94()
    ensures
        hex_neighbor_table(94usize) == hex_neighbor_geo(15, 4),
{
    reveal(hex_neighbor_table);
    reveal(hex_neighbor_geo);
    bv_hex_neighbor();
    assert(hex_field(15, 4) == Some((1int, 1int, 4int)));
    assert(flip_spec(hex_field(15, 4)) == Some((0int, 1int, 1int)));
    assert(coord_bits(Some((0int, 1int, 1int))) == (1u64 << 42u64));
}

proof fn hex_neighbor_95()
    ensures
        hex_neighbor_table(95usize) == hex_neighbor_geo(15, 5),
{
    reveal(hex_neighbor_table);
    reveal(hex_neighbor_geo);
    bv_hex_neighbor();
    assert(hex_field(15, 5) == Some((1int, 1int, 5int)));
    assert(flip_spec(hex_field(15, 5)) == Some((0int, 2int, 2int)));
    assert(coord_bits(Some((0int, 2int, 2int))) == (1u64 << 55u64));
}

proof fn hex_neighbor_96()
    ensures
        hex_neighbor_table(96usize) == hex_neighbor_geo(16, 0),
{
    reveal(hex_neighbor_table);
    reveal(hex_neighbor_geo);
    bv_hex_neighbor();
    assert(hex_field(16, 0) == Some((-2int, 2int, 0int)));
    assert(flip_spec(hex_field(16, 0)) == None::<(int, int, int)>);
}

proof fn hex_neighbor_97()
    ensures
        hex_neighbor_table(97usize) == hex_neighbor_geo(16, 1),
{
    reveal(hex_neighbor_table);
    reveal(hex_neighbor_geo);
    bv_hex_neighbor();
    assert(hex_field(16, 1) == Some((-2int, 2int, 1int)));
    assert(flip_spec(hex_field(16, 1)) == Some((-1int, 2int, 4int)));
    assert(coord_bits(Some((-1int, 2int, 4int))) == (1u64 << 53u64));
}

proof fn hex_neighbor_98()
    ensures
        hex_neighbor_table(98usize) == hex_neighbor_geo(16, 2),
{
    reveal(hex_neighbor_table);
    reveal(hex_neighbor_geo);
    bv_hex_neighbor();
    assert(hex_field(16, 2) == Some((-2int, 2int, 2int)));
    assert(flip_spec(hex_field(16, 2)) == Some((-1int, 1int, 5int)));
    assert(coord_bits(Some((-1int, 1int, 5int))) == (1u64 << 41u64));
}

proof fn hex_neighbor_99()
    ensures
        hex_neighbor_table(99usize) == hex_neighbor_geo(16, 3),
{
    reveal(hex_neighbor_table);
    reveal(hex_neighbor_geo);
    bv_hex_neighbor();
    assert(hex_field(16, 3) == Some((-2int, 2int, 3int)));
    assert(flip_spec(hex_field(16, 3)) == Some((-2int, 1int, 0int)));
    assert(coord_bits(Some((-2int, 1int, 0int))) == (1u64 << 36u64));
}

proof fn hex_neighbor_100()
    ensures
        hex_neighbor_table(100usize) == hex_neighbor_geo(16, 4),
{
    reveal(hex_neighbor_table);
    reveal(hex_neighbor_geo);
    bv_hex_neighbor();
    assert(hex_field(16, 4) == Some((-2int, 2int, 4int)));
    assert(flip_spec(hex_field(16, 4)) == None::<(int, int, int)>);
}

proof fn hex_neighbor_101()
    ensures
        hex_neighbor_table(101usize) == hex_neighbor_geo(16, 5),
{
    reveal(hex_neighbor_table);
    reveal(hex_neighbor_geo);
    bv_hex_neighbor();
    assert(hex_field(16, 5) == Some((-2int, 2int, 5int)));
    assert(flip_spec(hex_field(16, 5)) == None::<(int, int, int)>);
}

proof fn hex_neighbor_102()
    ensures
        hex_neighbor_table(102usize) == hex_neighbor_geo(17, 0),
{
    reveal(hex_neighbor_table);
    reveal(hex_neighbor_geo);
    bv_hex_neighbor();
    assert(hex_field(17, 0) == Some((-1int, 2int, 0int)));
    assert(flip_spec(hex_field(17, 0)) == None::<(int, int, int)>);
}

proof fn hex_neighbor_103()
    ensures
        hex_neighbor_table(103usize) == hex_neighbor_geo(17, 1),
{
    reveal(hex_neighbor_table);
    reveal(hex_neighbor_geo);
    bv_hex_neighbor();
    assert(hex_field(17, 1) == Some((-1int, 2int, 1int)));
    assert(flip_spec(hex_field(17, 1)) == Some((0int, 2int, 4int)));
    assert(coord_bits(Some((0int, 2int, 4int))) == (1u64 << 56u64));
}

proof fn hex_neighbor_104()
    ensures
        hex_neighbor_table(104usize) == hex_neighbor_geo(17, 2),
{
    reveal(hex_neighbor_table);
    reveal(hex_neighbor_geo);
    bv_hex_neighbor();
    assert(hex_field(17, 2) == Some((-1int, 2int, 2int)));
    assert(flip_spec(hex_field(17, 2)) == Some((0int, 1int, 5int)));
    assert(coord_bits(Some((0int, 1int, 5int))) == (1u64 << 44u64));
}

proof fn hex_neighbor_105()
    ensures
        hex_neighbor_table(105usize) == hex_neighbor_geo(17, 3),
{
    reveal(hex_neighbor_table);
    reveal(hex_neighbor_geo);
    bv_hex_neighbor();
    assert(hex_field(17, 3) == Some((-1int, 2int, 3int)));
    assert(flip_spec(hex_field(17, 3)) == Some((-1int, 1int, 0int)));
    assert(coord_bits(Some((-1int, 1int, 0int))) == (1u64 << 39u64));
}

proof fn hex_neighbor_106()
    ensures
        hex_neighbor_table(106usize) == hex_neighbor_geo(17, 4),
{
    reveal(hex_neighbor_table);
    reveal(hex_neighbor_geo);
    bv_hex_neighbor();
    assert(hex_field(17, 4) == Some((-1int, 2int, 4int)));
    assert(flip_spec(hex_field(17, 4)) == Some((-2int, 2int, 1int)));
    assert(coord_bits(Some((-2int, 2int, 1int))) == (1u64 << 48u64));
}

proof fn hex_neighbor_107()
    ensures
        hex_neighbor_table(107usize) == hex_neighbor_geo(17, 5),
{
    reveal(hex_neighbor_table);
    reveal(hex_neighbor_geo);
    bv_hex_neighbor();
    assert(hex_field(17, 5) == Some((-1int, 2int, 5int)));
    assert(flip_spec(hex_field(17, 5)) == None::<(int, int, int)>);
}

proof fn hex_neighbor_108()
    ensures
        hex_neighbor_table(108usize) == hex_neighbor_geo(18, 0),
{
    reveal(hex_neighbor_table);
    reveal(hex_neighbor_geo);
    bv_hex_neighbor();
    assert(hex_field(18, 0) == Some((0int, 2int, 0int)));
    assert(flip_spec(hex_field(18, 0)) == None::<(int, int, int)>);
}

proof fn hex_neighbor_109()
    ensures
        hex_neighbor_table(109usize) == hex_neighbor_geo(18, 1),
{
    reveal(hex_neighbor_table);
    reveal(hex_neighbor_geo);
    bv_hex_neighbor();
    assert(hex_field(18, 1) == Some((0int, 2int, 1int)));
    assert(flip_spec(hex_field(18, 1)) == None::<(int, int, int)>);
}

proof fn hex_neighbor_110()
    ensures
        hex_neighbor_table(110usize) == hex_neighbor_geo(18, 2),
{
    reveal(hex_neighbor_table);
    reveal(hex_neighbor_geo);
    bv_hex_neighbor();
    assert(hex_field(18, 2) == Some((0int, 2int, 2int)));
    assert(flip_spec(hex_field(18, 2)) == Some((1int, 1int, 5int)));
    assert(coord_bits(Some((1int, 1int, 5int))) == (1u64 << 47u64));
}

proof fn hex_neighbor_111()
    ensures
        hex_neighbor_table(111usize) == hex_neighbor_geo(18, 3),
{
    reveal(hex_neighbor_table);
    reveal(hex_neighbor_geo);
    bv_hex_neighbor();
    assert(hex_field(18, 3) == Some((0int, 2int, 3int)));
    assert(flip_spec(hex_field(18, 3)) == Some((0int, 1int, 0int)));
    assert(coord_bits(Some((0int, 1int, 0int))) == (1u64 << 42u64));
}

proof fn hex_neighbor_112()
    ensures
        hex_neighbor_table(112usize) == hex_neighbor_geo(18, 4),
{
    reveal(hex_neighbor_table);
    reveal(hex_neighbor_geo);
    bv_hex_neighbor();
    assert(hex_field(18, 4) == Some((0int, 2int, 4int)));
    assert(flip_spec(hex_field(18, 4)) == Some((-1int, 2int, 1int)));
    assert(coord_bits(Some((-1int, 2int, 1int))) == (1u64 << 51u64));
}

proof fn hex_neighbor_113()
    ensures
        hex_neighbor_table(113usize) == hex_neighbor_geo(18, 5),
{
    reveal(hex_neighbor_table);
    reveal(hex_neighbor_geo);
    bv_hex_neighbor();
    assert(hex_field(18, 5) == Some((0int, 2int, 5int)));
    assert(flip_spec(hex_field(18, 5)) == None::<(int, int, int)>);
}

/// Entry `i` of the hex neighbor table is the field across edge `i % 6` of hex `i / 6`.
pub proof fn lemma_hex_neighbor_table(i: int)
    requires
        0 <= i < 114,
    ensures
        hex_neighbor_table(i as usize) == hex_neighbor_geo(i / 6, i % 6),
{
    if i == 0 {
        hex_neighbor_0();
    }
    if i == 1 {
        hex_neighbor_1();
    }
    if i == 2 {
        hex_neighbor_2();
    }
    if i == 3 {
        hex_neighbor_3();
    }
    if i == 4 {
        hex_neighbor_4();
    }
    if i == 5 {
        hex_neighbor_5();
    }
    if i == 6 {
        hex_neighbor_6();
    }
    if i == 7 {
        hex_neighbor_7();
    }
    if i == 8 {
        hex_neighbor_8();
    }
    if i == 9 {
        hex_neighbor_9();
    }
    if i == 10 {
        hex_neighbor_10();
    }
    if i == 11 {
        hex_neighbor_11();
    }
    if i == 12 {
        hex_neighbor_12();
    }
    if i == 13 {
        hex_neighbor_13();
    }
    if i == 14 {
        hex_neighbor_14();
    }
    if i == 15 {
        hex_neighbor_15();
    }
    if i == 16 {
        hex_neighbor_16();
    }
    if i == 17 {
        hex_neighbor_17();
    }
    if i == 18 {
        hex_neighbor_18();
    }
    if i == 19 {
        hex_neighbor_19();
    }
    if i == 20 {
        hex_neighbor_20();
    }
    if i == 21 {
        hex_neighbor_21();
    }
    if i == 22 {
        hex_neighbor_22();
    }
    if i == 23 {
        hex_neighbor_23();
    }
    if i == 24 {
        hex_neighbor_24();
    }
    if i == 25 {
        hex_neighbor_25();
    }
    if i == 26 {
        hex_neighbor_26();
    }
    if i == 27 {
        hex_neighbor_27();
    }
    if i == 28 {
        hex_neighbor_28();
    }
    if i == 29 {
        hex_neighbor_29();
    }
    if i == 30 {
        hex_neighbor_30();
    }
    if i == 31 {
        hex_neighbor_31();
    }
    if i == 32 {
        hex_neighbor_32();
    }
    if i == 33 {
        hex_neighbor_33();
    }
    if i == 34 {
        hex_neighbor_34();
    }
    if i == 35 {
        hex_neighbor_35();
    }
    if i == 36 {
        hex_neighbor_36();
    }
    if i == 37 {
        hex_neighbor_37();
    }
    if i == 38 {
        hex_neighbor_38();
    }
    if i == 39 {
        hex_neighbor_39();
    }
    if i == 40 {
        hex_neighbor_40();
    }
    if i == 41 {
        hex_neighbor_41();
    }
    if i == 42 {
        hex_neighbor_42();
    }
    if i == 43 {
        hex_neighbor_43();
    }
    if i == 44 {
        hex_neighbor_44();
    }
    if i == 45 {
        hex_neighbor_45();
    }
    if i == 46 {
        hex_neighbor_46();
    }
    if i == 47 {
        hex_neighbor_47();
    }
    if i == 48 {
        hex_neighbor_48();
    }
    if i == 49 {
        hex_neighbor_49();
    }
    if i == 50 {
        hex_neighbor_50();
    }
    if i == 51 {
        hex_neighbor_51();
    }
    if i == 52 {
        hex_neighbor_52();
    }
    if i == 53 {
        hex_neighbor_53();
    }
    if i == 54 {
        hex_neighbor_54();
    }
    if i == 55 {
        hex_neighbor_55();
    }
    if i == 56 {
        hex_neighbor_56();
    }
    if i == 57 {
        hex_neighbor_57();
    }
    if i == 58 {
        hex_neighbor_58();
    }
    if i == 59 {
        hex_neighbor_59();
    }
    if i == 60 {
        hex_neighbor_60();
    }
    if i == 61 {
        hex_neighbor_61();
    }
    if i == 62 {
        hex_neighbor_62();
    }
    if i == 63 {
        hex_neighbor_63();
    }
    if i == 64 {
        hex_neighbor_64();
    }
    if i == 65 {
        hex_neighbor_65();
    }
    if i == 66 {
        hex_neighbor_66();
    }
    if i == 67 {
        hex_neighbor_67();
    }
    if i == 68 {
        hex_neighbor_68();
    }
    if i == 69 {
        hex_neighbor_69();
    }
    if i == 70 {
        hex_neighbor_70();
    }
    if i == 71 {
        hex_neighbor_71();
    }
    if i == 72 {
        hex_neighbor_72();
    }
    if i == 73 {
        hex_neighbor_73();
    }
    if i == 74 {
        hex_neighbor_74();
    }
    if i == 75 {
        hex_neighbor_75();
    }
    if i == 76 {
        hex_neighbor_76();
    }
    if i == 77 {
        hex_neighbor_77();
    }
    if i == 78 {
        hex_neighbor_78();
    }
    if i == 79 {
        hex_neighbor_79();
    }
    if i == 80 {
        hex_neighbor_80();
    }
    if i == 81 {
        hex_neighbor_81();
    }
    if i == 82 {
        hex_neighbor_82();
    }
    if i == 83 {
        hex_neighbor_83();
    }
    if i == 84 {
        hex_neighbor_84();
    }
    if i == 85 {
        hex_neighbor_85();
    }
    if i == 86 {
        hex_neighbor_86();
    }
    if i == 87 {
        hex_neighbor_87();
    }
    if i == 88 {
        hex_neighbor_88();
    }
    if i == 89 {
        hex_neighbor_89();
    }
    if i == 90 {
        hex_neighbor_90();
    }
    if i == 91 {
        hex_neighbor_91();
    }
    if i == 92 {
        hex_neighbor_92();
    }
    if i == 93 {
        hex_neighbor_93();
    }
    if i == 94 {
        hex_neighbor_94();
    }
    if i == 95 {
        hex_neighbor_95();
    }
    if i == 96 {
        hex_neighbor_96();
    }
    if i == 97 {
        hex_neighbor_97();
    }
    if i == 98 {
        hex_neighbor_98();
    }
    if i == 99 {
        hex_neighbor_99();
    }
    if i == 100 {
        hex_neighbor_100();
    }
    if i == 101 {
        hex_neighbor_101();
    }
    if i == 102 {
        hex_neighbor_102();
    }
    if i == 103 {
        hex_neighbor_103();
    }
    if i == 104 {
        hex_neighbor_104();
    }
    if i == 105 {
        hex_neighbor_105();
    }
    if i == 106 {
        hex_neighbor_106();
    }
    if i == 107 {
        hex_neighbor_107();
    }
    if i == 108 {
        hex_neighbor_108();
    }
    if i == 109 {
        hex_neighbor_109();
    }
    if i == 110 {
        hex_neighbor_110();
    }
    if i == 111 {
        hex_neighbor_111();
    }
    if i == 112 {
        hex_neighbor_112();
    }
    if i == 113 {
        hex_neighbor_113();
    }
}

/// The edge table holds the geometry: the fields that share an edge with field `i` of `color`.
pub proof fn lemma_edge_table(color: Color, i: int)
    requires
        0 <= i < 57,
    ensures
        edge_table(color, i as usize) == edge_neighbors_geo(i, color),
{
    match color {
        Color::White => lemma_edge_white(i),
        Color::Black => lemma_edge_black(i),
    }
}

/// The vertex table holds the geometry: the fields of `color` that share a vertex with field `i`.
pub proof fn lemma_vertex_table(color: Color, i: int)
    requires
        0 <= i < 57,
    ensures
        vertex_table(color, i as usize) == vertex_neighbors_geo(i, color),
{
    match color {
        Color::White => lemma_vertex_white(i),
        Color::Black => lemma_vertex_black(i),
    }
}

/// The vertex neighbors computed from the geometry (what `generate_vertex_neighbors` returns)
/// relate fields both ways round, and no field is its own neighbor.
pub proof fn lemma_vertex_geometry(color: Color, i: int, j: int)
    requires
        0 <= i < 57,
        0 <= j < 57,
    ensures
        bits::has_bit(vertex_neighbors_geo(i, color), j) == bits::has_bit(
            vertex_neighbors_geo(j, color),
            i,
        ),
        !bits::has_bit(vertex_neighbors_geo(i, color), i),
{
    lemma_vertex_table(color, i);
    lemma_vertex_table(color, j);
    tables::lemma_neighbors_symmetric(color, i, j);
    tables::lemma_neighbors_symmetric(color, j, i);
    tables::lemma_vertex_not_self(color, i);
}

/// The edge neighbors computed from the geometry (what `generate_edge_neighbors` returns) relate
/// fields both ways round: field `j` of the other color is an edge neighbor of field `i` of
/// `color` exactly when `i` is one of `j`.
pub proof fn lemma_edge_geometry(color: Color, i: int, j: int)
    requires
        0 <= i < 57,
        0 <= j < 57,
    ensures
        bits::has_bit(edge_neighbors_geo(i, color), j) == bits::has_bit(
            edge_neighbors_geo(j, model::opposite(color)),
            i,
        ),
{
    lemma_edge_table(color, i);
    lemma_edge_table(model::opposite(color), j);
    tables::lemma_neighbors_symmetric(color, i, j);
    tables::lemma_neighbors_symmetric(model::opposite(color), j, i);
}

} // verus!
