//! The neighbor tables of the board.
//!
//! Each table is data: a spec function that holds the values, and an executable lookup that
//! returns them. `table_geometry` proves each entry equal to what `lookup_tables` computes from
//! the coordinates of the board.
use vstd::prelude::*;

use crate::model::Color;

verus! {

/// The fields that share an edge with field `index` of `color`; they have the other color.
#[verifier::opaque]
pub open spec fn edge_table(color: Color, index: usize) -> u64 {
    match color {
        Color::White => match index {
            0 => 35u64,
            1 => 6u64,
            2 => 1029u64,
            3 => 280u64,
            4 => 48u64,
            5 => 8232u64,
            6 => 192u64,
            7 => 384u64,
            8 => 65856u64,
            9 => 17920u64,
            10 => 3072u64,
            11 => 4196864u64,
            12 => 143360u64,
            13 => 24577u64,
            14 => 33574912u64,
            15 => 1146880u64,
            16 => 196616u64,
            17 => 268599296u64,
            18 => 786432u64,
            19 => 1572928u64,
            20 => 2148794368u64,
            21 => 73400320u64,
            22 => 12582912u64,
            23 => 10485760u64,
            24 => 587202560u64,
            25 => 100663808u64,
            26 => 137522839552u64,
            27 => 4697620480u64,
            28 => 805310464u64,
            29 => 1100182716416u64,
            30 => 37580963840u64,
            31 => 6442483712u64,
            32 => 8801461731328u64,
            33 => 25769803776u64,
            34 => 51539869696u64,
            35 => 70411693850624u64,
            36 => 2405181685760u64,
            37 => 412318957568u64,
            38 => 343597383680u64,
            39 => 19241453486080u64,
            40 => 3298551660544u64,
            41 => 565698732490752u64,
            42 => 153931627888640u64,
            43 => 26388413284352u64,
            44 => 4525589859926016u64,
            45 => 105553116266496u64,
            46 => 211107306274816u64,
            47 => 36204718879408128u64,
            48 => 9851624184872960u64,
            49 => 1688918579740672u64,
            50 => 1407374883553280u64,
            51 => 78812993478983680u64,
            52 => 13511348637925376u64,
            53 => 11258999068426240u64,
            54 => 54043195528445952u64,
            55 => 108090789103403008u64,
            56 => 90071992547409920u64,
            _ => 0u64,
        },
        Color::Black => match index {
            0 => 8197u64,
            1 => 3u64,
            2 => 6u64,
            3 => 65576u64,
            4 => 24u64,
            5 => 49u64,
            6 => 524608u64,
            7 => 192u64,
            8 => 392u64,
            9 => 33556992u64,
            10 => 1540u64,
            11 => 3072u64,
            12 => 268455936u64,
            13 => 12320u64,
            14 => 25088u64,
            15 => 2147647488u64,
            16 => 98560u64,
            17 => 200704u64,
            18 => 17181179904u64,
            19 => 786432u64,
            20 => 1605632u64,
            21 => 137449439232u64,
            22 => 6293504u64,
            23 => 12582912u64,
            24 => 1099595513856u64,
            25 => 50348032u64,
            26 => 102760448u64,
            27 => 8796764110848u64,
            28 => 402784256u64,
            29 => 822083584u64,
            30 => 70374112886784u64,
            31 => 3222274048u64,
            32 => 6576668672u64,
            33 => 42949672960u64,
            34 => 25769803776u64,
            35 => 52613349376u64,
            36 => 563293550804992u64,
            37 => 206225539072u64,
            38 => 412316860416u64,
            39 => 4506348406439936u64,
            40 => 1649804312576u64,
            41 => 3367254360064u64,
            42 => 36050787251519488u64,
            43 => 13198434500608u64,
            44 => 26938034880512u64,
            45 => 175921860444160u64,
            46 => 105587476004864u64,
            47 => 215504279044096u64,
            48 => 1407374883553280u64,
            49 => 846623953387520u64,
            50 => 1688849860263936u64,
            51 => 11258999068426240u64,
            52 => 6772991627100160u64,
            53 => 13792273858822144u64,
            54 => 90071992547409920u64,
            55 => 54183933016801280u64,
            56 => 110338190870577152u64,
            _ => 0u64,
        },
    }
}

/// Looks up the edge neighbors of field `index` of `color`.
pub fn edge_neighbors(index: usize, color: Color) -> (r: u64)
    requires
        index < 57,
    ensures
        r == edge_table(color, index),
{
    proof {
        reveal(edge_table);
    }
    match color {
        Color::White => match index {
            0 => 35,
            1 => 6,
            2 => 1029,
            3 => 280,
            4 => 48,
            5 => 8232,
            6 => 192,
            7 => 384,
            8 => 65856,
            9 => 17920,
            10 => 3072,
            11 => 4196864,
            12 => 143360,
            13 => 24577,
            14 => 33574912,
            15 => 1146880,
            16 => 196616,
            17 => 268599296,
            18 => 786432,
            19 => 1572928,
            20 => 2148794368,
            21 => 73400320,
            22 => 12582912,
            23 => 10485760,
            24 => 587202560,
            25 => 100663808,
            26 => 137522839552,
            27 => 4697620480,
            28 => 805310464,
            29 => 1100182716416,
            30 => 37580963840,
            31 => 6442483712,
            32 => 8801461731328,
            33 => 25769803776,
            34 => 51539869696,
            35 => 70411693850624,
            36 => 2405181685760,
            37 => 412318957568,
            38 => 343597383680,
            39 => 19241453486080,
            40 => 3298551660544,
            41 => 565698732490752,
            42 => 153931627888640,
            43 => 26388413284352,
            44 => 4525589859926016,
            45 => 105553116266496,
            46 => 211107306274816,
            47 => 36204718879408128,
            48 => 9851624184872960,
            49 => 1688918579740672,
            50 => 1407374883553280,
            51 => 78812993478983680,
            52 => 13511348637925376,
            53 => 11258999068426240,
            54 => 54043195528445952,
            55 => 108090789103403008,
            _ => 90071992547409920,
        },
        Color::Black => match index {
            0 => 8197,
            1 => 3,
            2 => 6,
            3 => 65576,
            4 => 24,
            5 => 49,
            6 => 524608,
            7 => 192,
            8 => 392,
            9 => 33556992,
            10 => 1540,
            11 => 3072,
            12 => 268455936,
            13 => 12320,
            14 => 25088,
            15 => 2147647488,
            16 => 98560,
            17 => 200704,
            18 => 17181179904,
            19 => 786432,
            20 => 1605632,
            21 => 137449439232,
            22 => 6293504,
            23 => 12582912,
            24 => 1099595513856,
            25 => 50348032,
            26 => 102760448,
            27 => 8796764110848,
            28 => 402784256,
            29 => 822083584,
            30 => 70374112886784,
            31 => 3222274048,
            32 => 6576668672,
            33 => 42949672960,
            34 => 25769803776,
            35 => 52613349376,
            36 => 563293550804992,
            37 => 206225539072,
            38 => 412316860416,
            39 => 4506348406439936,
            40 => 1649804312576,
            41 => 3367254360064,
            42 => 36050787251519488,
            43 => 13198434500608,
            44 => 26938034880512,
            45 => 175921860444160,
            46 => 105587476004864,
            47 => 215504279044096,
            48 => 1407374883553280,
            49 => 846623953387520,
            50 => 1688849860263936,
            51 => 11258999068426240,
            52 => 6772991627100160,
            53 => 13792273858822144,
            54 => 90071992547409920,
            55 => 54183933016801280,
            _ => 110338190870577152,
        },
    }
}

/// The fields of the same color that share only a vertex with field `index` of `color`: the fields a piece there can move to.
#[verifier::opaque]
pub open spec fn vertex_table(color: Color, index: usize) -> u64 {
    match color {
        Color::White => match index {
            0 => 8246u64,
            1 => 5u64,
            2 => 9731u64,
            3 => 65968u64,
            4 => 41u64,
            5 => 77849u64,
            6 => 524672u64,
            7 => 328u64,
            8 => 622792u64,
            9 => 33582084u64,
            10 => 2564u64,
            11 => 39847424u64,
            12 => 268656672u64,
            13 => 21029u64,
            14 => 318779904u64,
            15 => 2149253376u64,
            16 => 168232u64,
            17 => 2550239232u64,
            18 => 17181442048u64,
            19 => 1343808u64,
            20 => 20401913856u64,
            21 => 137552201728u64,
            22 => 10487808u64,
            23 => 137445244928u64,
            24 => 1100417613824u64,
            25 => 86002176u64,
            26 => 1305722486784u64,
            27 => 8803340910592u64,
            28 => 688017408u64,
            29 => 10445779894272u64,
            30 => 70426727284736u64,
            31 => 5504139264u64,
            32 => 83566239154176u64,
            33 => 51539607552u64,
            34 => 44024725504u64,
            35 => 105579959812096u64,
            36 => 566660872273920u64,
            37 => 343674978304u64,
            38 => 563156111851520u64,
            39 => 4533286978191360u64,
            40 => 2818119303168u64,
            41 => 5349742544420864u64,
            42 => 36266295825530880u64,
            43 => 22544954425344u64,
            44 => 42797940355366912u64,
            45 => 211140592271360u64,
            46 => 180359635402752u64,
            47 => 54153146691223552u64,
            48 => 15201847765630976u64,
            49 => 1409917504192512u64,
            50 => 844424930131968u64,
            51 => 121614782125047808u64,
            52 => 11560815010250752u64,
            53 => 7036874417766400u64,
            54 => 108227128545247232u64,
            55 => 92486520082006016u64,
            56 => 56294995342131200u64,
            _ => 0u64,
        },
        Color::Black => match index {
            0 => 25638u64,
            1 => 37u64,
            2 => 1027u64,
            3 => 205104u64,
            4 => 296u64,
            5 => 8219u64,
            6 => 1638784u64,
            7 => 320u64,
            8 => 65752u64,
            9 => 104877056u64,
            10 => 18949u64,
            11 => 4195840u64,
            12 => 839016448u64,
            13 => 151593u64,
            14 => 33568257u64,
            15 => 6712131584u64,
            16 => 1212744u64,
            17 => 268546056u64,
            18 => 53688664064u64,
            19 => 1310784u64,
            20 => 2148368448u64,
            21 => 412396552192u64,
            22 => 77597184u64,
            23 => 6291456u64,
            24 => 3436611371008u64,
            25 => 620777984u64,
            26 => 137495577088u64,
            27 => 27492890968064u64,
            28 => 4966223872u64,
            29 => 1099964616704u64,
            30 => 219943127744512u64,
            31 => 39729790976u64,
            32 => 8799716933632u64,
            33 => 70420283785216u64,
            34 => 42949935104u64,
            35 => 70397735469056u64,
            36 => 1691461200379904u64,
            37 => 2542706622464u64,
            38 => 206160527360u64,
            39 => 14094639556460544u64,
            40 => 20341652979712u64,
            41 => 564805396070400u64,
            42 => 112757116451684352u64,
            43 => 162733223837696u64,
            44 => 4518443168563200u64,
            45 => 36239903251496960u64,
            46 => 175965883858944u64,
            47 => 36147545348505600u64,
            48 => 10696049115004928u64,
            49 => 10417391636840448u64,
            50 => 844493649608704u64,
            51 => 85568392920039424u64,
            52 => 83339133094723584u64,
            53 => 7600374127001600u64,
            54 => 108086391056891904u64,
            55 => 90252312454365184u64,
            56 => 60802993016012800u64,
            _ => 0u64,
        },
    }
}

/// Looks up the vertex neighbors of field `index` of `color`.
pub fn vertex_neighbors(index: usize, color: Color) -> (r: u64)
    requires
        index < 57,
    ensures
        r == vertex_table(color, index),
{
    proof {
        reveal(vertex_table);
    }
    match color {
        Color::White => match index {
            0 => 8246,
            1 => 5,
            2 => 9731,
            3 => 65968,
            4 => 41,
            5 => 77849,
            6 => 524672,
            7 => 328,
            8 => 622792,
            9 => 33582084,
            10 => 2564,
            11 => 39847424,
            12 => 268656672,
            13 => 21029,
            14 => 318779904,
            15 => 2149253376,
            16 => 168232,
            17 => 2550239232,
            18 => 17181442048,
            19 => 1343808,
            20 => 20401913856,
            21 => 137552201728,
            22 => 10487808,
            23 => 137445244928,
            24 => 1100417613824,
            25 => 86002176,
            26 => 1305722486784,
            27 => 8803340910592,
            28 => 688017408,
            29 => 10445779894272,
            30 => 70426727284736,
            31 => 5504139264,
            32 => 83566239154176,
            33 => 51539607552,
            34 => 44024725504,
            35 => 105579959812096,
            36 => 566660872273920,
            37 => 343674978304,
            38 => 563156111851520,
            39 => 4533286978191360,
            40 => 2818119303168,
            41 => 5349742544420864,
            42 => 36266295825530880,
            43 => 22544954425344,
            44 => 42797940355366912,
            45 => 211140592271360,
            46 => 180359635402752,
            47 => 54153146691223552,
            48 => 15201847765630976,
            49 => 1409917504192512,
            50 => 844424930131968,
            51 => 121614782125047808,
            52 => 11560815010250752,
            53 => 7036874417766400,
            54 => 108227128545247232,
            55 => 92486520082006016,
            _ => 56294995342131200,
        },
        Color::Black => match index {
            0 => 25638,
            1 => 37,
            2 => 1027,
            3 => 205104,
            4 => 296,
            5 => 8219,
            6 => 1638784,
            7 => 320,
            8 => 65752,
            9 => 104877056,
            10 => 18949,
            11 => 4195840,
            12 => 839016448,
            13 => 151593,
            14 => 33568257,
            15 => 6712131584,
            16 => 1212744,
            17 => 268546056,
            18 => 53688664064,
            19 => 1310784,
            20 => 2148368448,
            21 => 412396552192,
            22 => 77597184,
            23 => 6291456,
            24 => 3436611371008,
            25 => 620777984,
            26 => 137495577088,
            27 => 27492890968064,
            28 => 4966223872,
            29 => 1099964616704,
            30 => 219943127744512,
            31 => 39729790976,
            32 => 8799716933632,
            33 => 70420283785216,
            34 => 42949935104,
            35 => 70397735469056,
            36 => 1691461200379904,
            37 => 2542706622464,
            38 => 206160527360,
            39 => 14094639556460544,
            40 => 20341652979712,
            41 => 564805396070400,
            42 => 112757116451684352,
            43 => 162733223837696,
            44 => 4518443168563200,
            45 => 36239903251496960,
            46 => 175965883858944,
            47 => 36147545348505600,
            48 => 10696049115004928,
            49 => 10417391636840448,
            50 => 844493649608704,
            51 => 85568392920039424,
            52 => 83339133094723584,
            53 => 7600374127001600,
            54 => 108086391056891904,
            55 => 90252312454365184,
            _ => 60802993016012800,
        },
    }
}

/// The field across edge `i % 6` of hex `i / 6`, on the neighboring hex; 0 where that edge is the rim of the board.
#[verifier::opaque]
pub open spec fn hex_neighbor_table(i: usize) -> u64 {
    match i {
        0 => 8192u64,
        1 => 32u64,
        2 => 0u64,
        3 => 0u64,
        4 => 0u64,
        5 => 1024u64,
        6 => 65536u64,
        7 => 256u64,
        8 => 0u64,
        9 => 0u64,
        10 => 1u64,
        11 => 8192u64,
        12 => 524288u64,
        13 => 0u64,
        14 => 0u64,
        15 => 0u64,
        16 => 8u64,
        17 => 65536u64,
        18 => 33554432u64,
        19 => 16384u64,
        20 => 4u64,
        21 => 0u64,
        22 => 0u64,
        23 => 4194304u64,
        24 => 268435456u64,
        25 => 131072u64,
        26 => 32u64,
        27 => 1u64,
        28 => 512u64,
        29 => 33554432u64,
        30 => 2147483648u64,
        31 => 1048576u64,
        32 => 256u64,
        33 => 8u64,
        34 => 4096u64,
        35 => 268435456u64,
        36 => 17179869184u64,
        37 => 0u64,
        38 => 0u64,
        39 => 64u64,
        40 => 32768u64,
        41 => 2147483648u64,
        42 => 137438953472u64,
        43 => 67108864u64,
        44 => 2048u64,
        45 => 0u64,
        46 => 0u64,
        47 => 0u64,
        48 => 1099511627776u64,
        49 => 536870912u64,
        50 => 16384u64,
        51 => 512u64,
        52 => 2097152u64,
        53 => 137438953472u64,
        54 => 8796093022208u64,
        55 => 4294967296u64,
        56 => 131072u64,
        57 => 4096u64,
        58 => 16777216u64,
        59 => 1099511627776u64,
        60 => 70368744177664u64,
        61 => 34359738368u64,
        62 => 1048576u64,
        63 => 32768u64,
        64 => 134217728u64,
        65 => 8796093022208u64,
        66 => 0u64,
        67 => 0u64,
        68 => 0u64,
        69 => 262144u64,
        70 => 1073741824u64,
        71 => 70368744177664u64,
        72 => 562949953421312u64,
        73 => 2199023255552u64,
        74 => 67108864u64,
        75 => 2097152u64,
        76 => 0u64,
        77 => 0u64,
        78 => 4503599627370496u64,
        79 => 17592186044416u64,
        80 => 536870912u64,
        81 => 16777216u64,
        82 => 68719476736u64,
        83 => 562949953421312u64,
        84 => 36028797018963968u64,
        85 => 140737488355328u64,
        86 => 4294967296u64,
        87 => 134217728u64,
        88 => 549755813888u64,
        89 => 4503599627370496u64,
        90 => 0u64,
        91 => 0u64,
        92 => 34359738368u64,
        93 => 1073741824u64,
        94 => 4398046511104u64,
        95 => 36028797018963968u64,
        96 => 0u64,
        97 => 9007199254740992u64,
        98 => 2199023255552u64,
        99 => 68719476736u64,
        100 => 0u64,
        101 => 0u64,
        102 => 0u64,
        103 => 72057594037927936u64,
        104 => 17592186044416u64,
        105 => 549755813888u64,
        106 => 281474976710656u64,
        107 => 0u64,
        108 => 0u64,
        109 => 0u64,
        110 => 140737488355328u64,
        111 => 4398046511104u64,
        112 => 2251799813685248u64,
        113 => 0u64,
        _ => 0u64,
    }
}

/// Looks up the field across edge `i % 6` of hex `i / 6`.
pub fn hex_neighbor(i: usize) -> (r: u64)
    requires
        i < 114,
    ensures
        r == hex_neighbor_table(i),
{
    proof {
        reveal(hex_neighbor_table);
    }
    match i {
        0 => 8192,
        1 => 32,
        2 => 0,
        3 => 0,
        4 => 0,
        5 => 1024,
        6 => 65536,
        7 => 256,
        8 => 0,
        9 => 0,
        10 => 1,
        11 => 8192,
        12 => 524288,
        13 => 0,
        14 => 0,
        15 => 0,
        16 => 8,
        17 => 65536,
        18 => 33554432,
        19 => 16384,
        20 => 4,
        21 => 0,
        22 => 0,
        23 => 4194304,
        24 => 268435456,
        25 => 131072,
        26 => 32,
        27 => 1,
        28 => 512,
        29 => 33554432,
        30 => 2147483648,
        31 => 1048576,
        32 => 256,
        33 => 8,
        34 => 4096,
        35 => 268435456,
        36 => 17179869184,
        37 => 0,
        38 => 0,
        39 => 64,
        40 => 32768,
        41 => 2147483648,
        42 => 137438953472,
        43 => 67108864,
        44 => 2048,
        45 => 0,
        46 => 0,
        47 => 0,
        48 => 1099511627776,
        49 => 536870912,
        50 => 16384,
        51 => 512,
        52 => 2097152,
        53 => 137438953472,
        54 => 8796093022208,
        55 => 4294967296,
        56 => 131072,
        57 => 4096,
        58 => 16777216,
        59 => 1099511627776,
        60 => 70368744177664,
        61 => 34359738368,
        62 => 1048576,
        63 => 32768,
        64 => 134217728,
        65 => 8796093022208,
        66 => 0,
        67 => 0,
        68 => 0,
        69 => 262144,
        70 => 1073741824,
        71 => 70368744177664,
        72 => 562949953421312,
        73 => 2199023255552,
        74 => 67108864,
        75 => 2097152,
        76 => 0,
        77 => 0,
        78 => 4503599627370496,
        79 => 17592186044416,
        80 => 536870912,
        81 => 16777216,
        82 => 68719476736,
        83 => 562949953421312,
        84 => 36028797018963968,
        85 => 140737488355328,
        86 => 4294967296,
        87 => 134217728,
        88 => 549755813888,
        89 => 4503599627370496,
        90 => 0,
        91 => 0,
        92 => 34359738368,
        93 => 1073741824,
        94 => 4398046511104,
        95 => 36028797018963968,
        96 => 0,
        97 => 9007199254740992,
        98 => 2199023255552,
        99 => 68719476736,
        100 => 0,
        101 => 0,
        102 => 0,
        103 => 72057594037927936,
        104 => 17592186044416,
        105 => 549755813888,
        106 => 281474976710656,
        107 => 0,
        108 => 0,
        109 => 0,
        110 => 140737488355328,
        111 => 4398046511104,
        112 => 2251799813685248,
        _ => 0,
    }
}


/// The vertex table of White, indexed by a `u64` for the bit-vector solver.
pub open spec fn vertex_bits_white(i: u64) -> u64 {
    if i == 0 {
        8246u64
    } else if i == 1 {
        5u64
    } else if i == 2 {
        9731u64
    } else if i == 3 {
        65968u64
    } else if i == 4 {
        41u64
    } else if i == 5 {
        77849u64
    } else if i == 6 {
        524672u64
    } else if i == 7 {
        328u64
    } else if i == 8 {
        622792u64
    } else if i == 9 {
        33582084u64
    } else if i == 10 {
        2564u64
    } else if i == 11 {
        39847424u64
    } else if i == 12 {
        268656672u64
    } else if i == 13 {
        21029u64
    } else if i == 14 {
        318779904u64
    } else if i == 15 {
        2149253376u64
    } else if i == 16 {
        168232u64
    } else if i == 17 {
        2550239232u64
    } else if i == 18 {
        17181442048u64
    } else if i == 19 {
        1343808u64
    } else if i == 20 {
        20401913856u64
    } else if i == 21 {
        137552201728u64
    } else if i == 22 {
        10487808u64
    } else if i == 23 {
        137445244928u64
    } else if i == 24 {
        1100417613824u64
    } else if i == 25 {
        86002176u64
    } else if i == 26 {
        1305722486784u64
    } else if i == 27 {
        8803340910592u64
    } else if i == 28 {
        688017408u64
    } else if i == 29 {
        10445779894272u64
    } else if i == 30 {
        70426727284736u64
    } else if i == 31 {
        5504139264u64
    } else if i == 32 {
        83566239154176u64
    } else if i == 33 {
        51539607552u64
    } else if i == 34 {
        44024725504u64
    } else if i == 35 {
        105579959812096u64
    } else if i == 36 {
        566660872273920u64
    } else if i == 37 {
        343674978304u64
    } else if i == 38 {
        563156111851520u64
    } else if i == 39 {
        4533286978191360u64
    } else if i == 40 {
        2818119303168u64
    } else if i == 41 {
        5349742544420864u64
    } else if i == 42 {
        36266295825530880u64
    } else if i == 43 {
        22544954425344u64
    } else if i == 44 {
        42797940355366912u64
    } else if i == 45 {
        211140592271360u64
    } else if i == 46 {
        180359635402752u64
    } else if i == 47 {
        54153146691223552u64
    } else if i == 48 {
        15201847765630976u64
    } else if i == 49 {
        1409917504192512u64
    } else if i == 50 {
        844424930131968u64
    } else if i == 51 {
        121614782125047808u64
    } else if i == 52 {
        11560815010250752u64
    } else if i == 53 {
        7036874417766400u64
    } else if i == 54 {
        108227128545247232u64
    } else if i == 55 {
        92486520082006016u64
    } else if i == 56 {
        56294995342131200u64
    } else {
        0u64
    }
}

/// The vertex table of Black, indexed by a `u64` for the bit-vector solver.
pub open spec fn vertex_bits_black(i: u64) -> u64 {
    if i == 0 {
        25638u64
    } else if i == 1 {
        37u64
    } else if i == 2 {
        1027u64
    } else if i == 3 {
        205104u64
    } else if i == 4 {
        296u64
    } else if i == 5 {
        8219u64
    } else if i == 6 {
        1638784u64
    } else if i == 7 {
        320u64
    } else if i == 8 {
        65752u64
    } else if i == 9 {
        104877056u64
    } else if i == 10 {
        18949u64
    } else if i == 11 {
        4195840u64
    } else if i == 12 {
        839016448u64
    } else if i == 13 {
        151593u64
    } else if i == 14 {
        33568257u64
    } else if i == 15 {
        6712131584u64
    } else if i == 16 {
        1212744u64
    } else if i == 17 {
        268546056u64
    } else if i == 18 {
        53688664064u64
    } else if i == 19 {
        1310784u64
    } else if i == 20 {
        2148368448u64
    } else if i == 21 {
        412396552192u64
    } else if i == 22 {
        77597184u64
    } else if i == 23 {
        6291456u64
    } else if i == 24 {
        3436611371008u64
    } else if i == 25 {
        620777984u64
    } else if i == 26 {
        137495577088u64
    } else if i == 27 {
        27492890968064u64
    } else if i == 28 {
        4966223872u64
    } else if i == 29 {
        1099964616704u64
    } else if i == 30 {
        219943127744512u64
    } else if i == 31 {
        39729790976u64
    } else if i == 32 {
        8799716933632u64
    } else if i == 33 {
        70420283785216u64
    } else if i == 34 {
        42949935104u64
    } else if i == 35 {
        70397735469056u64
    } else if i == 36 {
        1691461200379904u64
    } else if i == 37 {
        2542706622464u64
    } else if i == 38 {
        206160527360u64
    } else if i == 39 {
        14094639556460544u64
    } else if i == 40 {
        20341652979712u64
    } else if i == 41 {
        564805396070400u64
    } else if i == 42 {
        112757116451684352u64
    } else if i == 43 {
        162733223837696u64
    } else if i == 44 {
        4518443168563200u64
    } else if i == 45 {
        36239903251496960u64
    } else if i == 46 {
        175965883858944u64
    } else if i == 47 {
        36147545348505600u64
    } else if i == 48 {
        10696049115004928u64
    } else if i == 49 {
        10417391636840448u64
    } else if i == 50 {
        844493649608704u64
    } else if i == 51 {
        85568392920039424u64
    } else if i == 52 {
        83339133094723584u64
    } else if i == 53 {
        7600374127001600u64
    } else if i == 54 {
        108086391056891904u64
    } else if i == 55 {
        90252312454365184u64
    } else if i == 56 {
        60802993016012800u64
    } else {
        0u64
    }
}

/// The edge table of White, indexed by a `u64` for the bit-vector solver.
pub open spec fn edge_bits_white(i: u64) -> u64 {
    if i == 0 {
        35u64
    } else if i == 1 {
        6u64
    } else if i == 2 {
        1029u64
    } else if i == 3 {
        280u64
    } else if i == 4 {
        48u64
    } else if i == 5 {
        8232u64
    } else if i == 6 {
        192u64
    } else if i == 7 {
        384u64
    } else if i == 8 {
        65856u64
    } else if i == 9 {
        17920u64
    } else if i == 10 {
        3072u64
    } else if i == 11 {
        4196864u64
    } else if i == 12 {
        143360u64
    } else if i == 13 {
        24577u64
    } else if i == 14 {
        33574912u64
    } else if i == 15 {
        1146880u64
    } else if i == 16 {
        196616u64
    } else if i == 17 {
        268599296u64
    } else if i == 18 {
        786432u64
    } else if i == 19 {
        1572928u64
    } else if i == 20 {
        2148794368u64
    } else if i == 21 {
        73400320u64
    } else if i == 22 {
        12582912u64
    } else if i == 23 {
        10485760u64
    } else if i == 24 {
        587202560u64
    } else if i == 25 {
        100663808u64
    } else if i == 26 {
        137522839552u64
    } else if i == 27 {
        4697620480u64
    } else if i == 28 {
        805310464u64
    } else if i == 29 {
        1100182716416u64
    } else if i == 30 {
        37580963840u64
    } else if i == 31 {
        6442483712u64
    } else if i == 32 {
        8801461731328u64
    } else if i == 33 {
        25769803776u64
    } else if i == 34 {
        51539869696u64
    } else if i == 35 {
        70411693850624u64
    } else if i == 36 {
        2405181685760u64
    } else if i == 37 {
        412318957568u64
    } else if i == 38 {
        343597383680u64
    } else if i == 39 {
        19241453486080u64
    } else if i == 40 {
        3298551660544u64
    } else if i == 41 {
        565698732490752u64
    } else if i == 42 {
        153931627888640u64
    } else if i == 43 {
        26388413284352u64
    } else if i == 44 {
        4525589859926016u64
    } else if i == 45 {
        105553116266496u64
    } else if i == 46 {
        211107306274816u64
    } else if i == 47 {
        36204718879408128u64
    } else if i == 48 {
        9851624184872960u64
    } else if i == 49 {
        1688918579740672u64
    } else if i == 50 {
        1407374883553280u64
    } else if i == 51 {
        78812993478983680u64
    } else if i == 52 {
        13511348637925376u64
    } else if i == 53 {
        11258999068426240u64
    } else if i == 54 {
        54043195528445952u64
    } else if i == 55 {
        108090789103403008u64
    } else if i == 56 {
        90071992547409920u64
    } else {
        0u64
    }
}

/// The edge table of Black, indexed by a `u64` for the bit-vector solver.
pub open spec fn edge_bits_black(i: u64) -> u64 {
    if i == 0 {
        8197u64
    } else if i == 1 {
        3u64
    } else if i == 2 {
        6u64
    } else if i == 3 {
        65576u64
    } else if i == 4 {
        24u64
    } else if i == 5 {
        49u64
    } else if i == 6 {
        524608u64
    } else if i == 7 {
        192u64
    } else if i == 8 {
        392u64
    } else if i == 9 {
        33556992u64
    } else if i == 10 {
        1540u64
    } else if i == 11 {
        3072u64
    } else if i == 12 {
        268455936u64
    } else if i == 13 {
        12320u64
    } else if i == 14 {
        25088u64
    } else if i == 15 {
        2147647488u64
    } else if i == 16 {
        98560u64
    } else if i == 17 {
        200704u64
    } else if i == 18 {
        17181179904u64
    } else if i == 19 {
        786432u64
    } else if i == 20 {
        1605632u64
    } else if i == 21 {
        137449439232u64
    } else if i == 22 {
        6293504u64
    } else if i == 23 {
        12582912u64
    } else if i == 24 {
        1099595513856u64
    } else if i == 25 {
        50348032u64
    } else if i == 26 {
        102760448u64
    } else if i == 27 {
        8796764110848u64
    } else if i == 28 {
        402784256u64
    } else if i == 29 {
        822083584u64
    } else if i == 30 {
        70374112886784u64
    } else if i == 31 {
        3222274048u64
    } else if i == 32 {
        6576668672u64
    } else if i == 33 {
        42949672960u64
    } else if i == 34 {
        25769803776u64
    } else if i == 35 {
        52613349376u64
    } else if i == 36 {
        563293550804992u64
    } else if i == 37 {
        206225539072u64
    } else if i == 38 {
        412316860416u64
    } else if i == 39 {
        4506348406439936u64
    } else if i == 40 {
        1649804312576u64
    } else if i == 41 {
        3367254360064u64
    } else if i == 42 {
        36050787251519488u64
    } else if i == 43 {
        13198434500608u64
    } else if i == 44 {
        26938034880512u64
    } else if i == 45 {
        175921860444160u64
    } else if i == 46 {
        105587476004864u64
    } else if i == 47 {
        215504279044096u64
    } else if i == 48 {
        1407374883553280u64
    } else if i == 49 {
        846623953387520u64
    } else if i == 50 {
        1688849860263936u64
    } else if i == 51 {
        11258999068426240u64
    } else if i == 52 {
        6772991627100160u64
    } else if i == 53 {
        13792273858822144u64
    } else if i == 54 {
        90071992547409920u64
    } else if i == 55 {
        54183933016801280u64
    } else if i == 56 {
        110338190870577152u64
    } else {
        0u64
    }
}

proof fn bv_vertex_symmetric(i: u64, j: u64)
    by (bit_vector)
    requires
        i < 57,
        j < 57,
    ensures
        (vertex_bits_white(i) >> j) & 1u64 == 1u64 ==> (vertex_bits_white(j) >> i) & 1u64 == 1u64,
        (vertex_bits_black(i) >> j) & 1u64 == 1u64 ==> (vertex_bits_black(j) >> i) & 1u64 == 1u64,
        (edge_bits_white(i) >> j) & 1u64 == 1u64 ==> (edge_bits_black(j) >> i) & 1u64 == 1u64,
        (edge_bits_black(i) >> j) & 1u64 == 1u64 ==> (edge_bits_white(j) >> i) & 1u64 == 1u64,
{
}

pub proof fn lemma_tables_as_bits(i: u64)
    requires
        i < 57,
    ensures
        vertex_table(Color::White, i as usize) == vertex_bits_white(i),
        vertex_table(Color::Black, i as usize) == vertex_bits_black(i),
        edge_table(Color::White, i as usize) == edge_bits_white(i),
        edge_table(Color::Black, i as usize) == edge_bits_black(i),
{
    reveal(vertex_table);
    reveal(edge_table);
}

proof fn bv_vertex_not_self(i: u64)
    by (bit_vector)
    requires
        i < 57,
    ensures
        (vertex_bits_white(i) >> i) & 1u64 == 0u64,
        (vertex_bits_black(i) >> i) & 1u64 == 0u64,
{
}

/// No field shares a vertex with itself.
pub proof fn lemma_vertex_not_self(color: Color, i: int)
    requires
        0 <= i < 57,
    ensures
        !crate::model::bitboard::has_bit(vertex_table(color, i as usize), i),
{
    lemma_tables_as_bits(i as u64);
    bv_vertex_not_self(i as u64);
}

/// Two fields of the same color share a vertex both ways round, and two fields share an edge
/// both ways round.
pub proof fn lemma_neighbors_symmetric(color: Color, i: int, j: int)
    requires
        0 <= i < 57,
        0 <= j < 57,
    ensures
        crate::model::bitboard::has_bit(vertex_table(color, i as usize), j)
            ==> crate::model::bitboard::has_bit(vertex_table(color, j as usize), i),
        crate::model::bitboard::has_bit(edge_table(color, i as usize), j)
            ==> crate::model::bitboard::has_bit(edge_table(crate::model::opposite(color), j as usize), i),
{
    lemma_tables_as_bits(i as u64);
    lemma_tables_as_bits(j as u64);
    bv_vertex_symmetric(i as u64, j as u64);
}


/// The table of the fields across the edges of the hexes, indexed by a `u64` for the
/// bit-vector solver.
pub open spec fn hex_neighbor_bits(i: u64) -> u64 {
    if i == 0 {
        8192u64
    } else if i == 1 {
        32u64
    } else if i == 2 {
        0u64
    } else if i == 3 {
        0u64
    } else if i == 4 {
        0u64
    } else if i == 5 {
        1024u64
    } else if i == 6 {
        65536u64
    } else if i == 7 {
        256u64
    } else if i == 8 {
        0u64
    } else if i == 9 {
        0u64
    } else if i == 10 {
        1u64
    } else if i == 11 {
        8192u64
    } else if i == 12 {
        524288u64
    } else if i == 13 {
        0u64
    } else if i == 14 {
        0u64
    } else if i == 15 {
        0u64
    } else if i == 16 {
        8u64
    } else if i == 17 {
        65536u64
    } else if i == 18 {
        33554432u64
    } else if i == 19 {
        16384u64
    } else if i == 20 {
        4u64
    } else if i == 21 {
        0u64
    } else if i == 22 {
        0u64
    } else if i == 23 {
        4194304u64
    } else if i == 24 {
        268435456u64
    } else if i == 25 {
        131072u64
    } else if i == 26 {
        32u64
    } else if i == 27 {
        1u64
    } else if i == 28 {
        512u64
    } else if i == 29 {
        33554432u64
    } else if i == 30 {
        2147483648u64
    } else if i == 31 {
        1048576u64
    } else if i == 32 {
        256u64
    } else if i == 33 {
        8u64
    } else if i == 34 {
        4096u64
    } else if i == 35 {
        268435456u64
    } else if i == 36 {
        17179869184u64
    } else if i == 37 {
        0u64
    } else if i == 38 {
        0u64
    } else if i == 39 {
        64u64
    } else if i == 40 {
        32768u64
    } else if i == 41 {
        2147483648u64
    } else if i == 42 {
        137438953472u64
    } else if i == 43 {
        67108864u64
    } else if i == 44 {
        2048u64
    } else if i == 45 {
        0u64
    } else if i == 46 {
        0u64
    } else if i == 47 {
        0u64
    } else if i == 48 {
        1099511627776u64
    } else if i == 49 {
        536870912u64
    } else if i == 50 {
        16384u64
    } else if i == 51 {
        512u64
    } else if i == 52 {
        2097152u64
    } else if i == 53 {
        137438953472u64
    } else if i == 54 {
        8796093022208u64
    } else if i == 55 {
        4294967296u64
    } else if i == 56 {
        131072u64
    } else if i == 57 {
        4096u64
    } else if i == 58 {
        16777216u64
    } else if i == 59 {
        1099511627776u64
    } else if i == 60 {
        70368744177664u64
    } else if i == 61 {
        34359738368u64
    } else if i == 62 {
        1048576u64
    } else if i == 63 {
        32768u64
    } else if i == 64 {
        134217728u64
    } else if i == 65 {
        8796093022208u64
    } else if i == 66 {
        0u64
    } else if i == 67 {
        0u64
    } else if i == 68 {
        0u64
    } else if i == 69 {
        262144u64
    } else if i == 70 {
        1073741824u64
    } else if i == 71 {
        70368744177664u64
    } else if i == 72 {
        562949953421312u64
    } else if i == 73 {
        2199023255552u64
    } else if i == 74 {
        67108864u64
    } else if i == 75 {
        2097152u64
    } else if i == 76 {
        0u64
    } else if i == 77 {
        0u64
    } else if i == 78 {
        4503599627370496u64
    } else if i == 79 {
        17592186044416u64
    } else if i == 80 {
        536870912u64
    } else if i == 81 {
        16777216u64
    } else if i == 82 {
        68719476736u64
    } else if i == 83 {
        562949953421312u64
    } else if i == 84 {
        36028797018963968u64
    } else if i == 85 {
        140737488355328u64
    } else if i == 86 {
        4294967296u64
    } else if i == 87 {
        134217728u64
    } else if i == 88 {
        549755813888u64
    } else if i == 89 {
        4503599627370496u64
    } else if i == 90 {
        0u64
    } else if i == 91 {
        0u64
    } else if i == 92 {
        34359738368u64
    } else if i == 93 {
        1073741824u64
    } else if i == 94 {
        4398046511104u64
    } else if i == 95 {
        36028797018963968u64
    } else if i == 96 {
        0u64
    } else if i == 97 {
        9007199254740992u64
    } else if i == 98 {
        2199023255552u64
    } else if i == 99 {
        68719476736u64
    } else if i == 100 {
        0u64
    } else if i == 101 {
        0u64
    } else if i == 102 {
        0u64
    } else if i == 103 {
        72057594037927936u64
    } else if i == 104 {
        17592186044416u64
    } else if i == 105 {
        549755813888u64
    } else if i == 106 {
        281474976710656u64
    } else if i == 107 {
        0u64
    } else if i == 108 {
        0u64
    } else if i == 109 {
        0u64
    } else if i == 110 {
        140737488355328u64
    } else if i == 111 {
        4398046511104u64
    } else if i == 112 {
        2251799813685248u64
    } else if i == 113 {
        0u64
    } else {
        0u64
    }
}

/// The fields across all the edges of hex `h`, for the bit-vector solver.
pub open spec fn all_neighbor_bits(h: u64) -> u64 {
    hex_neighbor_bits((6 * h) as u64) | hex_neighbor_bits((6 * h + 1) as u64) | hex_neighbor_bits(
        (6 * h + 2) as u64,
    ) | hex_neighbor_bits((6 * h + 3) as u64) | hex_neighbor_bits((6 * h + 4) as u64)
        | hex_neighbor_bits((6 * h + 5) as u64)
}

proof fn bv_hexes_adjacent_symmetric(h: u64, n: u64)
    by (bit_vector)
    requires
        h < 19,
        n < 19,
    ensures
        all_neighbor_bits(h) & (7u64 << (3u64 * n)) != 0 ==> all_neighbor_bits(n) & (7u64 << (3u64
            * h)) != 0,
{
}

/// The table of the fields across the edges, read as the bit-vector function.
pub proof fn lemma_hex_neighbor_as_bits(i: u64)
    requires
        i < 114,
    ensures
        hex_neighbor_table(i as usize) == hex_neighbor_bits(i),
{
    reveal(hex_neighbor_table);
}

/// Hexes are neighbors both ways round: if a field across an edge of hex `h` lies on hex `n`,
/// a field across an edge of `n` lies on `h`.
pub proof fn lemma_hexes_adjacent_symmetric(h: u64, n: u64)
    requires
        h < 19,
        n < 19,
    ensures
        all_neighbor_bits(h) & (7u64 << (3u64 * n)) != 0 ==> all_neighbor_bits(n) & (7u64 << (3u64
            * h)) != 0,
{
    bv_hexes_adjacent_symmetric(h, n);
}

} // verus!
