//! Zobrist hashing of a board: each piece position, captured-hex count and side to move has a
//! random key, and the hash of a board is the exclusive or of the keys of its features.
use vstd::prelude::*;

use crate::model::bitboard::{self as bits, BitBoard, BitBoardIter};
use crate::model::{Color, ColorMap};

verus! {

broadcast use bits::group_bits;

pub type ZobristHash = u64;

// These constants were generated with random.org
pub const WHITE_TO_MOVE: u64 = 0xb047cbc27fa474a6;

/// The exclusive or of the keys of the `m` lowest pieces of `bb`.
pub open spec fn xor_lowest(bb: u64, color: Color, m: nat) -> u64
    decreases m,
{
    if m == 0 || bb == 0 {
        0
    } else {
        piece_key(color, bits::lowest(bb) as usize) ^ xor_lowest(
            bb ^ bits::bit(bits::lowest(bb)),
            color,
            (m - 1) as nat,
        )
    }
}

/// The hash that `new` computes: the keys of as many pieces of each color as the side with fewer
/// pieces has (the lowest ones), of both hex counts, and of White to move when it is.
pub open spec fn zobrist_spec(fields: ColorMap<u64>, hex_count: ColorMap<u8>, turn: Color) -> u64 {
    let m = if bits::pop(fields.white) <= bits::pop(fields.black) {
        bits::pop(fields.white)
    } else {
        bits::pop(fields.black)
    };
    xor_lowest(fields.white, Color::White, m) ^ xor_lowest(fields.black, Color::Black, m)
        ^ hex_count_key(Color::White, hex_count.white as usize) ^ hex_count_key(
        Color::Black,
        hex_count.black as usize,
    ) ^ if turn == Color::White {
        WHITE_TO_MOVE
    } else {
        0u64
    }
}

/// `bb` with its `m` lowest bits removed.
pub open spec fn drop_lowest(bb: u64, m: nat) -> u64
    decreases m,
{
    if m == 0 || bb == 0 {
        bb
    } else {
        drop_lowest(bb ^ bits::bit(bits::lowest(bb)), (m - 1) as nat)
    }
}

proof fn lemma_drop_step(bb: u64, color: Color, m: nat)
    ensures
        drop_lowest(bb, m) != 0 ==> drop_lowest(bb, m + 1) == drop_lowest(bb, m) ^ bits::bit(
            bits::lowest(drop_lowest(bb, m)),
        ) && xor_lowest(bb, color, m + 1) == xor_lowest(bb, color, m) ^ piece_key(
            color,
            bits::lowest(drop_lowest(bb, m)) as usize,
        ),
        drop_lowest(bb, m) == 0 ==> drop_lowest(bb, m + 1) == 0 && xor_lowest(bb, color, m + 1)
            == xor_lowest(bb, color, m),
        m <= bits::pop(bb) ==> bits::pop(drop_lowest(bb, m)) + m == bits::pop(bb),
    decreases m,
{
    bits::lemma_pop_lowest(bb);
    let nb = bb ^ bits::bit(bits::lowest(bb));
    let key0 = piece_key(color, bits::lowest(bb) as usize);
    if bb == 0 {
    } else if m == 0 {
        assert(drop_lowest(bb, 1) == drop_lowest(nb, 0));
        assert(xor_lowest(bb, color, 1) == key0 ^ xor_lowest(nb, color, 0));
        bits::lemma_xor(key0, 0, 0);
    } else {
        lemma_drop_step(nb, color, (m - 1) as nat);
        assert((m - 1) as nat + 1 == m);
        assert(drop_lowest(bb, m) == drop_lowest(nb, (m - 1) as nat));
        assert(drop_lowest(bb, m + 1) == drop_lowest(nb, m));
        assert(xor_lowest(bb, color, m) == key0 ^ xor_lowest(nb, color, (m - 1) as nat));
        assert(xor_lowest(bb, color, m + 1) == key0 ^ xor_lowest(nb, color, m));
        bits::lemma_xor(
            piece_key(color, bits::lowest(bb) as usize),
            xor_lowest(nb, color, (m - 1) as nat),
            piece_key(color, bits::lowest(drop_lowest(bb, m)) as usize),
        );
    }
}

proof fn lemma_xor_swap(x: u64, y: u64, a: u64, b: u64)
    by (bit_vector)
    ensures
        ((x ^ y) ^ a) ^ b == (x ^ a) ^ (y ^ b),
{
}

pub fn new(fields: ColorMap<BitBoard>, hex_count: ColorMap<u8>, turn: Color) -> (r: ZobristHash)
    requires
        bits::below(fields.white, 57),
        bits::below(fields.black, 57),
        hex_count.white < 20,
        hex_count.black < 20,
    ensures
        r == zobrist_spec(fields, hex_count, turn),
{
    let mut hash: u64 = 0;
    let mut w = BitBoardIter::new(fields.white);
    let mut b = BitBoardIter::new(fields.black);
    let ghost mut m: nat = 0;
    proof {
        bits::lemma_xor(0, 0, 0);
    }
    loop
        invariant_except_break
            w@ == drop_lowest(fields.white, m),
            b@ == drop_lowest(fields.black, m),
            bits::subset(w@, fields.white),
            bits::subset(b@, fields.black),
        invariant
            bits::below(fields.white, 57),
            bits::below(fields.black, 57),
            m <= bits::pop(fields.white),
            m <= bits::pop(fields.black),
            hash == xor_lowest(fields.white, Color::White, m) ^ xor_lowest(
                fields.black,
                Color::Black,
                m,
            ),
        ensures
            drop_lowest(fields.white, m) == 0 || drop_lowest(fields.black, m) == 0,
            m <= bits::pop(fields.white),
            m <= bits::pop(fields.black),
            hash == xor_lowest(fields.white, Color::White, m) ^ xor_lowest(
                fields.black,
                Color::Black,
                m,
            ),
        decreases bits::pop(w@),
    {
        proof {
            lemma_drop_step(fields.white, Color::White, m);
            lemma_drop_step(fields.black, Color::Black, m);
            bits::lemma_pop_lowest(w@);
            bits::lemma_pop_lowest(b@);
        }
        match w.next() {
            None => break,
            Some(wb) => match b.next() {
                None => break,
                Some(bb) => {
                    proof {
                        bits::lemma_lowest_of_bit(bits::lowest(drop_lowest(fields.white, m)));
                        bits::lemma_lowest_of_bit(bits::lowest(drop_lowest(fields.black, m)));
                        assert(bits::has_bit(fields.white, bits::lowest(drop_lowest(fields.white, m))));
                        assert(bits::has_bit(fields.black, bits::lowest(drop_lowest(fields.black, m))));
                    }
                    let kw = piece_field_key(bits::bit_index(wb) as usize, Color::White);
                    let kb = piece_field_key(bits::bit_index(bb) as usize, Color::Black);
                    proof {
                        bits::lemma_lowest_of_bit(bits::lowest(drop_lowest(fields.white, m)));
                        bits::lemma_lowest_of_bit(bits::lowest(drop_lowest(fields.black, m)));
lemma_xor_swap(
                            xor_lowest(fields.white, Color::White, m),
                            xor_lowest(fields.black, Color::Black, m),
                            kw,
                            kb,
                        );
                        m = m + 1;
                    }
                    hash = hash ^ kw;
                    hash = hash ^ kb;
                },
            },
        }
    }
    proof {
        lemma_drop_step(fields.white, Color::White, m);
        lemma_drop_step(fields.black, Color::Black, m);
        bits::lemma_pop_lowest(drop_lowest(fields.white, m));
        bits::lemma_pop_lowest(drop_lowest(fields.black, m));
    }
    hash ^= hex_count_field_key(hex_count.white as usize, Color::White);
    hash ^= hex_count_field_key(hex_count.black as usize, Color::Black);
    if turn == Color::White {
        hash ^= WHITE_TO_MOVE;
    } else {
        proof {
            bits::lemma_xor(hash, 0, 0);
        }
    }
    hash
}

/// Incremental updates of a hash.
pub trait ZobristExt: Sized {
    /// This hash with the key of a piece on `bb` of `color` toggled.
    spec fn toggled(self, bb: BitBoard, color: Color) -> Self;

    /// This hash with the key of `color` holding `old_count` captured hexes replaced by that of
    /// `new_count`.
    spec fn recounted(self, old_count: u8, new_count: u8, color: Color) -> Self;

    /// This hash with the side to move switched.
    spec fn switched(self) -> Self;

    fn toggle_field(&mut self, bb: BitBoard, color: Color)
        requires
            bits::is_single(bb),
            bits::lowest(bb) < 57,
        ensures
            *final(self) == old(self).toggled(bb, color),
    ;

    fn set_hex_count(&mut self, old_count: u8, new_count: u8, color: Color)
        requires
            old_count < 20,
            new_count < 20,
        ensures
            *final(self) == old(self).recounted(old_count, new_count, color),
    ;

    fn switch_turn(&mut self)
        ensures
            *final(self) == old(self).switched(),
    ;
}

impl ZobristExt for ZobristHash {
    open spec fn toggled(self, bb: BitBoard, color: Color) -> Self {
        self ^ piece_key(color, bits::lowest(bb) as usize)
    }

    open spec fn recounted(self, old_count: u8, new_count: u8, color: Color) -> Self {
        self ^ hex_count_key(color, old_count as usize) ^ hex_count_key(color, new_count as usize)
    }

    open spec fn switched(self) -> Self {
        self ^ WHITE_TO_MOVE
    }

    fn toggle_field(&mut self, bb: BitBoard, color: Color) {
        *self ^= piece_field_key(bits::bit_index(bb) as usize, color);
    }

    fn set_hex_count(&mut self, old_count: u8, new_count: u8, color: Color) {
        *self ^= hex_count_field_key(old_count as usize, color);
        *self ^= hex_count_field_key(new_count as usize, color);
    }

    fn switch_turn(&mut self) {
        *self ^= WHITE_TO_MOVE;
    }
}

/// The random key of a piece on field `index` of `color`.
#[verifier::opaque]
pub open spec fn piece_key(color: Color, index: usize) -> u64 {
    match color {
        Color::White => match index {
            0 => 4574032322715825872u64,
            1 => 15110559250254703174u64,
            2 => 10630394400162494108u64,
            3 => 15386995784960727875u64,
            4 => 3072973316577493173u64,
            5 => 16672990195338504228u64,
            6 => 746842928091943769u64,
            7 => 442099589748370190u64,
            8 => 8711850499748416206u64,
            9 => 12255523640857451566u64,
            10 => 6696277834170253245u64,
            11 => 2973031045128632818u64,
            12 => 7964892992444458384u64,
            13 => 8868218435756384550u64,
            14 => 4337220331259034385u64,
            15 => 2389375223277670862u64,
            16 => 14247290278196494689u64,
            17 => 5942799494233138282u64,
            18 => 13042213255069423388u64,
            19 => 7507096801294053067u64,
            20 => 4455254394696463798u64,
            21 => 1455339047897357286u64,
            22 => 6918441669833383379u64,
            23 => 15753248757339426027u64,
            24 => 15609334039555985313u64,
            25 => 9523728165823919854u64,
            26 => 2506741956705453087u64,
            27 => 13738617950530368257u64,
            28 => 5968244199589265698u64,
            29 => 15092959831157687739u64,
            30 => 4184334592450960883u64,
            31 => 3001429754977270581u64,
            32 => 6980861311411105744u64,
            33 => 4782956033387379746u64,
            34 => 6672270366482373388u64,
            35 => 9565795780566646944u64,
            36 => 3589831721454772882u64,
            37 => 1082079846180401180u64,
            38 => 9311607327992692977u64,
            39 => 38858581294784518u64,
            40 => 6208738836662549442u64,
            41 => 11156592854742968903u64,
            42 => 2265797672011017422u64,
            43 => 1019193286436928495u64,
            44 => 13505389451519290689u64,
            45 => 17280644555777863002u64,
            46 => 7334771183141875334u64,
            47 => 11237891856503079073u64,
            48 => 11381426142367151864u64,
            49 => 9239329536432403586u64,
            50 => 12986779421636154729u64,
            51 => 7921017780564709789u64,
            52 => 13704948356875013909u64,
            53 => 15956148379537799708u64,
            54 => 17268783644057349488u64,
            55 => 11789677635944619140u64,
            56 => 14578185024779893837u64,
            _ => 0u64,
        },
        Color::Black => match index {
            0 => 17548210478695367096u64,
            1 => 7092490402097947192u64,
            2 => 12241818650673294662u64,
            3 => 13047546208221357963u64,
            4 => 9416726918901147883u64,
            5 => 10077571478515598598u64,
            6 => 9235025606010162393u64,
            7 => 15724236386469817012u64,
            8 => 14700590412600228332u64,
            9 => 16107839790799283458u64,
            10 => 8346158111525439224u64,
            11 => 4922085640566946486u64,
            12 => 8088393309438566387u64,
            13 => 15676909955593348506u64,
            14 => 7382400530567700969u64,
            15 => 736893799844374093u64,
            16 => 14887092967157295249u64,
            17 => 6647010408181479401u64,
            18 => 8084038825319066213u64,
            19 => 17497023000243264038u64,
            20 => 3484274055978987541u64,
            21 => 13545631143925824506u64,
            22 => 1365970420550534036u64,
            23 => 13501826114994207659u64,
            24 => 1560250366973239446u64,
            25 => 9006748760565469723u64,
            26 => 2923734950382593362u64,
            27 => 15872122215694957466u64,
            28 => 759472959608363455u64,
            29 => 2020421286122911540u64,
            30 => 7978290844275246137u64,
            31 => 8293891932108532808u64,
            32 => 4035503503595857952u64,
            33 => 12726746362289562155u64,
            34 => 4191078790221765100u64,
            35 => 6097344813423219436u64,
            36 => 13730847970039383562u64,
            37 => 15502220743339349818u64,
            38 => 16199965518765547806u64,
            39 => 6330206942628559909u64,
            40 => 14735954009595151766u64,
            41 => 10048171654550005390u64,
            42 => 7208459842108697498u64,
            43 => 14603245024946654292u64,
            44 => 6420484575141214356u64,
            45 => 7435756108058493378u64,
            46 => 9513964845843792042u64,
            47 => 7374507350943252050u64,
            48 => 15722199245577513959u64,
            49 => 11288264522077900986u64,
            50 => 11624854112910862248u64,
            51 => 15338389058129378457u64,
            52 => 17637257245824742357u64,
            53 => 1437493161046940913u64,
            54 => 12765365817148802150u64,
            55 => 14133952644932349238u64,
            56 => 7020122690591115082u64,
            _ => 0u64,
        },
    }
}

/// Looks up the key of a piece on field `index` of `color`.
pub fn piece_field_key(index: usize, color: Color) -> (r: u64)
    requires
        index < 57,
    ensures
        r == piece_key(color, index),
{
    proof {
        reveal(piece_key);
    }
    match color {
        Color::White => match index {
            0 => 0x3f7a3a29caa1b6d0,
            1 => 0xd1b37d9434ecaa46,
            2 => 0x9386bf627bfcb69c,
            3 => 0xd589972483045b43,
            4 => 0x2aa564f33adb00b5,
            5 => 0xe7625c3ed0b8e824,
            6 => 0x0a5d51afa7eed359,
            7 => 0x0622a73c0a4c2b0e,
            8 => 0x78e6b5df45d04ace,
            9 => 0xaa145dd19db5dc2e,
            10 => 0x5cedf536370a3fbd,
            11 => 0x294253fbd719b9f2,
            12 => 0x6e88fbfa10a66590,
            13 => 0x7b123dae75d46126,
            14 => 0x3c30e6e9654bfb11,
            15 => 0x2128c41b2a95d1ce,
            16 => 0xc5b88b05cbc74161,
            17 => 0x527910a75923246a,
            18 => 0xb4ff3fdad94dd71c,
            19 => 0x682e90c4379a6ecb,
            20 => 0x3dd43e445be175b6,
            21 => 0x1432672741ad5be6,
            22 => 0x60033e0b11adddd3,
            23 => 0xda9ec847cf948ceb,
            24 => 0xd89f7e9b7025cfa1,
            25 => 0x842b144ed55136ee,
            26 => 0x22c9bc8740ff041f,
            27 => 0xbea9603c562af301,
            28 => 0x52d3767a794dc122,
            29 => 0xd174f7002164c5bb,
            30 => 0x3a11be246c6b1df3,
            31 => 0x29a73875bbb53b35,
            32 => 0x60e1006064ed2fd0,
            33 => 0x4260792bd25dbc22,
            34 => 0x5c98aa8c0f8c1b0c,
            35 => 0x84c08894a69b00a0,
            36 => 0x31d1a4ee50bda292,
            37 => 0x0f0451e31231301c,
            38 => 0x81397987a0edc0f1,
            39 => 0x008a0dac7e8d2006,
            40 => 0x5629df139e717bc2,
            41 => 0x9ad42e175a9daa47,
            42 => 0x1f71bafa5d1facce,
            43 => 0x0e24e6e4e3893bef,
            44 => 0xbb6cc826cb1d6d41,
            45 => 0xefd12eaaaced6d5a,
            46 => 0x65ca57879ff16e86,
            47 => 0x9bf5031a431f00a1,
            48 => 0x9df2f2c66d2376f8,
            49 => 0x8038b142e5d3f482,
            50 => 0xb43a4f13baf9d569,
            51 => 0x6ded1bb43e1cd19d,
            52 => 0xbe31c1eb2c9bcf15,
            53 => 0xdd6fa06971c67a1c,
            54 => 0xefa70b3af71d2d70,
            55 => 0xa39d595872d89c84,
            _ => 0xca501e0a9fecbc4d,
        },
        Color::Black => match index {
            0 => 0xf387c474ba6cc1b8,
            1 => 0x626d96716dea6238,
            2 => 0xa9e3ad33ee222d46,
            3 => 0xb5123225c387678b,
            4 => 0x82aeef3da3f628eb,
            5 => 0x8bdab9ddcf87c506,
            6 => 0x802966dc01df4cd9,
            7 => 0xda37b5aed3ce2ab4,
            8 => 0xcc02fd17db8cb9ec,
            9 => 0xdf8a8af25d7e6502,
            10 => 0x73d3829524b806f8,
            11 => 0x444ec2cfd00b3ab6,
            12 => 0x703fbedc5cbb5ff3,
            13 => 0xd98f928b76ed259a,
            14 => 0x66738e2b3e24a1e9,
            15 => 0x0a39f901b8e9664d,
            16 => 0xce99942dada06891,
            17 => 0x5c3eecbfb5fb37e9,
            18 => 0x7030467b059bea65,
            19 => 0xf2d1e9b72c56da26,
            20 => 0x305aa0cb1ebcb015,
            21 => 0xbbfbbfc1f02abbfa,
            22 => 0x12f4e6dc3a9b0394,
            23 => 0xbb601f50db527bab,
            24 => 0x15a71f71341ce096,
            25 => 0x7cfe664726b1d21b,
            26 => 0x289331725ef2e552,
            27 => 0xdc451b0fa2157b9a,
            28 => 0x0a8a30a205f899bf,
            29 => 0x1c09fa747ffe7734,
            30 => 0x6eb8954087c70439,
            31 => 0x7319d2c4f2ceac48,
            32 => 0x3800fd0e35ace820,
            33 => 0xb09e7c6326c3a22b,
            34 => 0x3a29b3f454d799ec,
            35 => 0x549e1ecd7d2952ec,
            36 => 0xbe8dc57ac717460a,
            37 => 0xd722f3a1bc6f173a,
            38 => 0xe0d1d6cee798e11e,
            39 => 0x57d969acea163c25,
            40 => 0xcc80a018e8698596,
            41 => 0x8b7246e1df9a268e,
            42 => 0x64099808ca8eab9a,
            43 => 0xcaa925fa97ef8c54,
            44 => 0x591a24b4332ab894,
            45 => 0x67311cc8b14481c2,
            46 => 0x8408649ec212c0aa,
            47 => 0x6657835d267abe52,
            48 => 0xda3078ea008febe7,
            49 => 0x9ca7f8c6691910ba,
            50 => 0xa153c7397dca67a8,
            51 => 0xd4dce795048a3c99,
            52 => 0xf4c42004d59173d5,
            53 => 0x13f30069ef419cf1,
            54 => 0xb127b093af118466,
            55 => 0xc425e30bb162ad36,
            _ => 0x616c7c649457c74a,
        },
    }
}

/// The random key of `color` holding `count` captured hexes.
#[verifier::opaque]
pub open spec fn hex_count_key(color: Color, count: usize) -> u64 {
    match color {
        Color::White => match count {
            0 => 3760151898339293665u64,
            1 => 9638733778746872056u64,
            2 => 5357565939231237496u64,
            3 => 5700566111295023660u64,
            4 => 11798184900142408664u64,
            5 => 8223903519111645438u64,
            6 => 2537358234358306303u64,
            7 => 6842031282119622055u64,
            8 => 10248200648973367461u64,
            9 => 261281780895803770u64,
            10 => 4582827620151068673u64,
            11 => 15417512726426377143u64,
            12 => 12108186749066898905u64,
            13 => 2937258195837545491u64,
            14 => 10728870819816809186u64,
            15 => 12375545970918873869u64,
            16 => 16296143503107892065u64,
            17 => 15495821603363135692u64,
            18 => 11178327263049923745u64,
            19 => 8005520062111272039u64,
            _ => 0u64,
        },
        Color::Black => match count {
            0 => 15875138594244789270u64,
            1 => 17691547045925046161u64,
            2 => 3454890900910785141u64,
            3 => 12433564662825845285u64,
            4 => 9559321900304035389u64,
            5 => 8187450160479991125u64,
            6 => 4983487113206779533u64,
            7 => 11789846570610283106u64,
            8 => 14714526771754703781u64,
            9 => 11528499408824003020u64,
            10 => 6332190883257830064u64,
            11 => 12368485512547322534u64,
            12 => 2514608075299169133u64,
            13 => 2932131207487289097u64,
            14 => 177178117471250527u64,
            15 => 10327938307119530185u64,
            16 => 10101292306439277753u64,
            17 => 10677948311158278946u64,
            18 => 1700070203115415363u64,
            19 => 9162908606524969134u64,
            _ => 0u64,
        },
    }
}

/// Looks up the key of `color` holding `count` captured hexes.
pub fn hex_count_field_key(count: usize, color: Color) -> (r: u64)
    requires
        count < 20,
    ensures
        r == hex_count_key(color, count),
{
    proof {
        reveal(hex_count_key);
    }
    match color {
        Color::White => match count {
            0 => 0x342ebe3aba0639e1,
            1 => 0x85c3a94db6c410f8,
            2 => 0x4a59e5d60c9c2578,
            3 => 0x4f1c7aace25eaa2c,
            4 => 0xa3bb92a83f5da3d8,
            5 => 0x72212cadb3bc08fe,
            6 => 0x233681dee2d6d5ff,
            7 => 0x5ef3c73350d9bda7,
            8 => 0x8e38ec3164fc38a5,
            9 => 0x03a042653893697a,
            10 => 0x3f9979708df40801,
            11 => 0xd5f60223a2b55bb7,
            12 => 0xa808ebb244396dd9,
            13 => 0x28c33cc450806c13,
            14 => 0x94e49b2aa83c22e2,
            15 => 0xabbec57dfa22db0d,
            16 => 0xe227882ce7892361,
            17 => 0xd70c37a5db48a0cc,
            18 => 0x9b21656ba127bca1,
            _ => 0x6f195214d867cc67,
        },
        Color::Black => match count {
            0 => 0xdc4fd270fe0e0416,
            1 => 0xf585004def794791,
            2 => 0x2ff23cf836844275,
            3 => 0xac8ce52f5b958225,
            4 => 0x84a9889ef13bee3d,
            5 => 0x719faa8abf9ff555,
            6 => 0x4528e720356d4e8d,
            7 => 0xa39df2fd9d955262,
            8 => 0xcc348023546a1ba5,
            9 => 0x9ffd7521b84169cc,
            10 => 0x57e0760f168ccab0,
            11 => 0xaba5b00ae8f2caa6,
            12 => 0x22e5aeb8b589236d,
            13 => 0x28b105cc511df709,
            14 => 0x0275768f21d8a85f,
            15 => 0x8f54352baa0240c9,
            16 => 0x8c2effd571b30cb9,
            17 => 0x942fb16a30924b22,
            18 => 0x1797dcd7a5eba743,
            _ => 0x7f2930d4994a50ae,
        },
    }
}

} // verus!
