//! The game model: colors, coordinates, moves and outcomes, with the board and the game state in
//! submodules.
//!
//! The hex board uses an axial coordinate system with (0, 0) at the center. The x-axis slopes up
//! and to the right, and the y-axis goes up and down. Fields are numbered clockwise from the top:
//! even fields are black, odd fields are white. Hexes are indexed 0 to 18 row by row, and the
//! field `f` of hex `h` sits at bit `3 * h + f / 2` of the bitboard of its color.
use vstd::prelude::*;

pub mod bitboard;
pub mod tables;
pub mod constants;
pub mod lookup_tables;
pub mod table_geometry;
pub mod zobrist;
pub mod board;
pub mod connectivity;
pub mod ttable;
pub mod history;
pub mod game;

use self::bitboard::{bit_index, BitBoard};

verus! {

broadcast use bitboard::group_bits;

/// One of the two sides of the game.
#[derive(Clone, Copy, Debug, PartialEq, Eq, Structural)]
pub enum Color {
    White,
    Black,
}

/// The other side.
pub open spec fn opposite(c: Color) -> Color {
    match c {
        Color::White => Color::Black,
        Color::Black => Color::White,
    }
}

impl Color {
    /// The other side.
    pub fn switch(self) -> (r: Self)
        ensures
            r == opposite(self),
    {
        match self {
            Color::White => Color::Black,
            Color::Black => Color::White,
        }
    }
}

/// Switching sides twice gives the side one started with.
pub proof fn lemma_switch_involution(c: Color)
    ensures
        opposite(opposite(c)) == c,
        opposite(c) != c,
{
}

/// Who plays a side.
#[derive(Clone, Copy, Debug, PartialEq, Eq, Structural)]
pub enum Player {
    Human,
    Computer,
}

/// The two starting positions of the game.
#[derive(Clone, Copy, Debug, PartialEq, Eq, Structural)]
pub enum GameType {
    Laurentius,
    Ocius,
}

/// The outcome of a game. This includes being in progress; a win/loss by capturing all of an
/// opponent's pieces; and a draw by stalemate (no legal moves left), insufficient material, or
/// threefold repetition.
#[derive(Clone, Copy, Debug, PartialEq, Eq, Structural)]
pub enum Outcome {
    InProgress,
    DrawStalemate,
    DrawInsufficientMaterial,
    DrawThreefoldRepetition,
    Win(Color),
}

/// Which of the auxiliary windows of the interface are open.
pub struct WindowStates {
    pub about: bool,
    pub ai_debug: bool,
    pub how_to_play: bool,
}

impl Default for WindowStates {
    fn default() -> (r: Self)
        ensures
            !r.about && !r.ai_debug && !r.how_to_play,
    {
        WindowStates { about: false, ai_debug: false, how_to_play: false }
    }
}

/// A map to associate any two values with the variants of the Color enum. Useful for keeping
/// track of player-specific information, which almost always comes in pairs.
#[derive(Clone, Copy, PartialEq, Eq, Structural)]
pub struct ColorMap<T> {
    pub white: T,
    pub black: T,
}

impl<T> ColorMap<T> {
    /// The value of `color`.
    pub open spec fn at(self, color: Color) -> T {
        match color {
            Color::White => self.white,
            Color::Black => self.black,
        }
    }

    /// This map with the value of `color` replaced by `v`.
    pub open spec fn with(self, color: Color, v: T) -> Self {
        match color {
            Color::White => ColorMap { white: v, black: self.black },
            Color::Black => ColorMap { white: self.white, black: v },
        }
    }

    pub fn new(white: T, black: T) -> (r: Self)
        ensures
            r.white == white,
            r.black == black,
    {
        Self { white, black }
    }

    pub fn get_ref(&self, color: Color) -> (r: &T)
        ensures
            *r == self.at(color),
    {
        match color {
            Color::White => &self.white,
            Color::Black => &self.black,
        }
    }

    pub fn get_mut(&mut self, color: Color) -> (r: &mut T)
        ensures
            *r == old(self).at(color),
            *final(self) == old(self).with(color, *final(r)),
    {
        match color {
            Color::White => &mut self.white,
            Color::Black => &mut self.black,
        }
    }
}

impl<T: Copy> ColorMap<T> {
    pub fn get(&self, color: Color) -> (r: T)
        ensures
            r == self.at(color),
    {
        match color {
            Color::White => self.white,
            Color::Black => self.black,
        }
    }
}

/// Reading a map right after writing it gives what was written, and leaves the other side alone.
pub proof fn lemma_color_map_with<T>(m: ColorMap<T>, c: Color, d: Color, v: T)
    ensures
        m.with(c, v).at(c) == v,
        d != c ==> m.with(c, v).at(d) == m.at(d),
{
}

// ---------------------------------------------------------------------------------------------
// Moves
// ---------------------------------------------------------------------------------------------

/// A move: a piece of the side to move moving to a field, or a piece of the other side taken in
/// exchange for captured hexes. Fields are given as single-bit bitboards of their color.
#[derive(Clone, Copy, Debug, PartialEq, Eq, Structural)]
pub enum Move {
    Exchange(BitBoard, Color),
    Move(BitBoard, BitBoard, Color),
}

/// A copy of a vector, element by element.
fn copy_vec<T: Copy>(v: &Vec<T>) -> (r: Vec<T>)
    ensures
        r@ == v@,
{
    let mut r: Vec<T> = Vec::new();
    let mut i: usize = 0;
    while i < v.len()
        invariant
            i <= v.len(),
            r@ == v@.subrange(0, i as int),
        decreases v.len() - i,
    {
        r.push(v[i]);
        i = i + 1;
    }
    proof {
        assert(r@ =~= v@);
    }
    r
}

impl Move {
    pub fn move_from_field(from: FieldCoord, to: FieldCoord) -> (r: Self)
        ensures
            r == Move::Move(from.to_bitboard_spec(), to.to_bitboard_spec(), from.spec_color()),
    {
        Move::Move(from.to_bitboard(), to.to_bitboard(), from.color())
    }

    pub fn exchange_from_field(field: FieldCoord) -> (r: Self)
        ensures
            r == Move::Exchange(field.to_bitboard_spec(), field.spec_color()),
    {
        Move::Exchange(field.to_bitboard(), field.color())
    }

    pub fn annotate(&self, pieces: Vec<FieldCoord>, hexes: Vec<HexCoord>) -> (r: MoveAnnotated)
        ensures
            r.mv == *self,
            r.removed_pieces@ == pieces@,
            r.removed_hexes@ == hexes@,
    {
        MoveAnnotated { mv: *self, removed_pieces: pieces, removed_hexes: hexes }
    }
}

/// The notation of the field of the single-bit bitboard `bb` of `color`.
pub open spec fn bitboard_notation(bb: u64, color: Color) -> Seq<char> {
    let k = bitboard::lowest(bb);
    field_notation(hex_x_of(k / 3), hex_y_of(k / 3), field_of_index(k, color))
}

/// The notation of a move: `Move(from, to)` or `Exchange(field)`, with the fields in the
/// notation of `FieldCoord::to_notation`.
pub open spec fn move_notation(mv: Move) -> Seq<char> {
    match mv {
        Move::Move(from, to, color) => seq!['M', 'o', 'v', 'e', '('] + bitboard_notation(from, color)
            + seq![',', ' '] + bitboard_notation(to, color) + seq![')'],
        Move::Exchange(bb, color) => seq!['E', 'x', 'c', 'h', 'a', 'n', 'g', 'e', '(']
            + bitboard_notation(bb, color) + seq![')'],
    }
}

impl Move {
    /// The fields that the move names are fields of the board.
    pub open spec fn names_fields(self) -> bool {
        match self {
            Move::Move(from, to, _) => bitboard::is_single(from) && bitboard::lowest(from) < 57
                && bitboard::is_single(to) && bitboard::lowest(to) < 57,
            Move::Exchange(bb, _) => bitboard::is_single(bb) && bitboard::lowest(bb) < 57,
        }
    }

    /// The move in the notation of the principal variation, such as `Move(d1e, d1c)` or
    /// `Exchange(a3f)`.
    pub fn to_notation(&self) -> (r: String)
        requires
            self.names_fields(),
        ensures
            r@ == move_notation(*self),
    {
        match *self {
            Move::Move(from, to, color) => {
                let from_field = FieldCoord::from_bitboard(from, color).to_notation();
                let to_field = FieldCoord::from_bitboard(to, color).to_notation();
                let mut s = String::from_str("Move(");
                s.append(from_field.as_str());
                s.append(", ");
                s.append(to_field.as_str());
                s.append(")");
                proof {
                    reveal_strlit("Move(");
                    reveal_strlit(", ");
                    reveal_strlit(")");
                    lemma_field_index_roundtrip(bitboard::lowest(from), color, 0, 0, 0);
                    lemma_field_index_roundtrip(bitboard::lowest(to), color, 0, 0, 0);
                    assert(s@ =~= move_notation(*self));
                }
                s
            },
            Move::Exchange(bb, color) => {
                let field = FieldCoord::from_bitboard(bb, color).to_notation();
                let mut s = String::from_str("Exchange(");
                s.append(field.as_str());
                s.append(")");
                proof {
                    reveal_strlit("Exchange(");
                    reveal_strlit(")");
                    assert(s@ =~= move_notation(*self));
                }
                s
            },
        }
    }
}

/// A move that also holds the pieces and hexes removed by playing that move. Used by the board to
/// show the effects of the last move.
pub struct MoveAnnotated {
    pub mv: Move,
    pub removed_pieces: Vec<FieldCoord>,
    pub removed_hexes: Vec<HexCoord>,
}

impl Clone for MoveAnnotated {
    fn clone(&self) -> (r: Self)
        ensures
            r.mv == self.mv,
            r.removed_pieces@ == self.removed_pieces@,
            r.removed_hexes@ == self.removed_hexes@,
    {
        MoveAnnotated {
            mv: self.mv,
            removed_pieces: copy_vec(&self.removed_pieces),
            removed_hexes: copy_vec(&self.removed_hexes),
        }
    }
}

// ---------------------------------------------------------------------------------------------
// Coordinates
// ---------------------------------------------------------------------------------------------

/// (x, y) is a hex of the board.
pub open spec fn valid_hex(x: int, y: int) -> bool {
    -2 <= x <= 2 && -2 <= y <= 2 && -2 <= x + y <= 2
}

/// (x, y, f) is a field of the board.
pub open spec fn valid_field(x: int, y: int, f: int) -> bool {
    valid_hex(x, y) && 0 <= f < 6
}

/// The position of hex `index` in the 5x5 grid that holds the board row by row.
pub open spec fn hex_slot(index: int) -> int {
    index + if index <= 2 {
        2int
    } else if index <= 15 {
        3int
    } else {
        4int
    }
}

/// The x coordinate of hex `index`.
pub open spec fn hex_x_of(index: int) -> int {
    hex_slot(index) % 5 - 2
}

/// The y coordinate of hex `index`.
pub open spec fn hex_y_of(index: int) -> int {
    hex_slot(index) / 5 - 2
}

/// The index of the hex at (x, y).
pub open spec fn hex_index_of(x: int, y: int) -> int {
    let s = 5 * (y + 2) + x + 2;
    s - if s <= 4 {
        2int
    } else if s <= 18 {
        3int
    } else {
        4int
    }
}

/// The bit of field (x, y, f) in the bitboard of its color.
pub open spec fn field_bit_index(x: int, y: int, f: int) -> int {
    hex_index_of(x, y) * 3 + f / 2
}

/// The color of field number `f` of a hex.
pub open spec fn color_of_field(f: int) -> Color {
    if f % 2 == 0 {
        Color::Black
    } else {
        Color::White
    }
}

/// The field number, within its hex, of bit `index` of a bitboard of `color`.
pub open spec fn field_of_index(index: int, color: Color) -> int {
    2 * (index % 3) + match color {
        Color::White => 1int,
        Color::Black => 0int,
    }
}

/// Hex indices and coordinates are inverse to each other.
pub proof fn lemma_hex_index_roundtrip(index: int, x: int, y: int)
    ensures
        0 <= index < 19 ==> valid_hex(hex_x_of(index), hex_y_of(index)) && hex_index_of(
            hex_x_of(index),
            hex_y_of(index),
        ) == index,
        valid_hex(x, y) ==> 0 <= hex_index_of(x, y) < 19 && hex_x_of(hex_index_of(x, y)) == x
            && hex_y_of(hex_index_of(x, y)) == y,
{
}

/// A bit index of a field bitboard and its field coordinates are inverse to each other.
pub proof fn lemma_field_index_roundtrip(index: int, color: Color, x: int, y: int, f: int)
    ensures
        0 <= index < 57 ==> {
            let fx = hex_x_of(index / 3);
            let fy = hex_y_of(index / 3);
            let ff = field_of_index(index, color);
            valid_field(fx, fy, ff) && field_bit_index(fx, fy, ff) == index && color_of_field(ff)
                == color
        },
        valid_field(x, y, f) ==> 0 <= field_bit_index(x, y, f) < 57 && {
            let i = field_bit_index(x, y, f);
            hex_x_of(i / 3) == x && hex_y_of(i / 3) == y && field_of_index(i, color_of_field(f))
                == f
        },
{
    lemma_hex_index_roundtrip(index / 3, x, y);
}

/// One of the 114 fields of the board.
#[derive(Clone, Copy, Debug, PartialEq, Eq, Structural)]
pub struct FieldCoord {
    x: i8,
    y: i8,
    f: u8,
}

/// One of the 19 hexes of the board.
#[derive(Clone, Copy, Debug, PartialEq, Eq, Structural)]
pub struct HexCoord {
    x: i8,
    y: i8,
}

impl View for FieldCoord {
    type V = (int, int, int);

    closed spec fn view(&self) -> (int, int, int) {
        (self.x as int, self.y as int, self.f as int)
    }
}

impl View for HexCoord {
    type V = (int, int);

    closed spec fn view(&self) -> (int, int) {
        (self.x as int, self.y as int)
    }
}

impl FieldCoord {
    #[verifier::type_invariant]
    pub closed spec fn inv(self) -> bool {
        valid_field(self.x as int, self.y as int, self.f as int)
    }

    /// Every field coordinate lies on the board.
    pub proof fn lemma_valid(self)
        requires
            self.inv(),
        ensures
            valid_field(self@.0, self@.1, self@.2),
    {
    }

    /// Field coordinates with the same components are the same.
    pub proof fn lemma_view_eq(self, other: Self)
        requires
            self@ == other@,
        ensures
            self == other,
    {
    }

    /// The bit of this field in the bitboard of its color.
    pub open spec fn index(self) -> int {
        field_bit_index(self@.0, self@.1, self@.2)
    }

    /// The color of this field.
    pub open spec fn spec_color(self) -> Color {
        color_of_field(self@.2)
    }

    pub fn new(x: i8, y: i8, f: u8) -> (r: Self)
        requires
            valid_field(x as int, y as int, f as int),
        ensures
            r@ == (x as int, y as int, f as int),
    {
        Self { x, y, f }
    }

    pub fn from_bitboard(bb: BitBoard, color: Color) -> (r: Self)
        requires
            bitboard::is_single(bb),
            bitboard::lowest(bb) < 57,
        ensures
            r@ == (
                hex_x_of(bitboard::lowest(bb) / 3),
                hex_y_of(bitboard::lowest(bb) / 3),
                field_of_index(bitboard::lowest(bb), color),
            ),
            r.index() == bitboard::lowest(bb),
            r.spec_color() == color,
            r.to_bitboard_spec() == bb,
    {
        let k = bit_index(bb);
        let r = Self::from_index(k as u8, color);
        proof {
            use_type_invariant(&r);
        }
        r
    }

    pub fn from_index(index: u8, color: Color) -> (r: Self)
        requires
            index < 57,
        ensures
            r@ == (hex_x_of(index as int / 3), hex_y_of(index as int / 3), field_of_index(index as int, color)),
            r.index() == index,
            r.spec_color() == color,
            r.to_bitboard_spec() == bitboard::bit(index as int),
    {
        proof {
            lemma_field_index_roundtrip(index as int, color, 0, 0, 0);
        }
        let f = 2 * (index % 3) + match color {
            Color::White => 1,
            Color::Black => 0,
        };
        Self::from_hex_f(index / 3, f)
    }

    pub fn from_hex_f(hex: u8, f: u8) -> (r: Self)
        requires
            hex < 19,
            f < 6,
        ensures
            r@ == (hex_x_of(hex as int), hex_y_of(hex as int), f as int),
    {
        proof {
            lemma_hex_index_roundtrip(hex as int, 0, 0);
        }
        let hex = hex as i8 + if hex <= 2 {
            2
        } else if hex <= 15 {
            3
        } else {
            4
        };
        Self::new(hex % 5 - 2, hex / 5 - 2, f)
    }

    pub fn x(&self) -> (r: i8)
        ensures
            r == self@.0,
    {
        self.x
    }

    pub fn y(&self) -> (r: i8)
        ensures
            r == self@.1,
    {
        self.y
    }

    pub fn f(&self) -> (r: u8)
        ensures
            r == self@.2,
    {
        self.f
    }

    pub fn to_hex(&self) -> (r: HexCoord)
        ensures
            r@ == (self@.0, self@.1),
    {
        proof {
            use_type_invariant(self);
        }
        HexCoord { x: self.x, y: self.y }
    }

    /// The single-bit bitboard of this field.
    pub open spec fn to_bitboard_spec(self) -> u64 {
        bitboard::bit(self.index())
    }

    /// The bitboard of a field holds its bit alone, one of the 57 bits of the board.
    pub proof fn lemma_bitboard(self)
        requires
            self.inv(),
        ensures
            0 <= self.index() < 57,
            bitboard::is_single(self.to_bitboard_spec()),
            bitboard::lowest(self.to_bitboard_spec()) == self.index(),
    {
        lemma_field_index_roundtrip(0, Color::White, self.x as int, self.y as int, self.f as int);
        lemma_hex_index_roundtrip(0, self.x as int, self.y as int);
        bitboard::lemma_lowest_of_bit(self.index());
    }

    pub fn to_bitboard(&self) -> (r: BitBoard)
        ensures
            r == self.to_bitboard_spec(),
            0 <= self.index() < 57,
            bitboard::is_single(r),
            bitboard::lowest(r) == self.index(),
    {
        proof {
            use_type_invariant(self);
            lemma_field_index_roundtrip(0, Color::White, self.x as int, self.y as int, self.f as int);
            lemma_hex_index_roundtrip(0, self.x as int, self.y as int);
            bitboard::lemma_lowest_of_bit(self.index());
        }
        let s = 5 * (self.y + 2) + self.x + 2;
        let hex = s as u8 - if s <= 4 {
            2
        } else if s <= 18 {
            3
        } else {
            4
        };
        1u64 << (hex * 3 + self.f / 2)
    }

    /// The notation of this field: file, rank and field letter, such as `c3f`.
    pub fn to_notation(&self) -> (r: String)
        ensures
            r@ == field_notation(self@.0, self@.1, self@.2),
    {
        proof {
            use_type_invariant(self);
        }
        let mut notation = String::new();
        let file = match self.x {
            -2 => 'a',
            -1 => 'b',
            0 => 'c',
            1 => 'd',
            _ => 'e',
        };
        notation.append(char_str(file));
        let offset = 3 + if self.x < 0 {
            self.x
        } else {
            0
        };
        let rank = match self.y + offset {
            1 => '1',
            2 => '2',
            3 => '3',
            4 => '4',
            _ => '5',
        };
        notation.append(char_str(rank));
        let field = match self.f {
            5 => 'a',
            4 => 'b',
            3 => 'c',
            2 => 'd',
            1 => 'e',
            _ => 'f',
        };
        notation.append(char_str(field));
        proof {
            assert(notation@ =~= field_notation(self@.0, self@.1, self@.2));
        }
        notation
    }

    pub fn color(&self) -> (r: Color)
        ensures
            r == self.spec_color(),
    {
        if self.f % 2 == 0 {
            Color::Black
        } else {
            Color::White
        }
    }

    pub fn is_valid_coord(x: i8, y: i8, f: u8) -> (r: bool)
        ensures
            r == valid_field(x as int, y as int, f as int),
    {
        -2 <= x && x <= 2 && -2 <= y && y <= 2 && -2 <= x + y && x + y <= 2 && f < 6
    }
}

/// The file letter of column `x`.
pub open spec fn file_char(x: int) -> char {
    if x == -2 {
        'a'
    } else if x == -1 {
        'b'
    } else if x == 0 {
        'c'
    } else if x == 1 {
        'd'
    } else {
        'e'
    }
}

/// The rank digit of row number `r` (counted from 1 at the bottom of each file).
pub open spec fn rank_char(r: int) -> char {
    if r == 1 {
        '1'
    } else if r == 2 {
        '2'
    } else if r == 3 {
        '3'
    } else if r == 4 {
        '4'
    } else {
        '5'
    }
}

/// The letter of field number `f`: fields are lettered counterclockwise from `a` at the upper
/// left to `f` at the top.
pub open spec fn field_char(f: int) -> char {
    if f == 5 {
        'a'
    } else if f == 4 {
        'b'
    } else if f == 3 {
        'c'
    } else if f == 2 {
        'd'
    } else if f == 1 {
        'e'
    } else {
        'f'
    }
}

/// The notation of field (x, y, f).
pub open spec fn field_notation(x: int, y: int, f: int) -> Seq<char> {
    seq![file_char(x), rank_char(y + 3 + if x < 0 { x } else { 0 }), field_char(f)]
}

/// Law: the notation of a field of the board is its file letter, from `a` for x = -2 to `e` for
/// x = 2; the decimal digit of its rank, counted from 1 at the bottom of its file (y + 3, less
/// 2 or 1 in the files `a` and `b` that start lower); and its field letter, from `a` for field 5
/// down to `f` for field 0.
pub proof fn lemma_field_notation_chars(x: int, y: int, f: int)
    requires
        valid_field(x, y, f),
    ensures
        field_notation(x, y, f).len() == 3,
        field_notation(x, y, f)[0] == (97 + x + 2) as char,
        1 <= y + 3 + if x < 0 { x } else { 0 } <= 5,
        field_notation(x, y, f)[1] == (48 + y + 3 + if x < 0 { x } else { 0 }) as char,
        field_notation(x, y, f)[2] == (97 + 5 - f) as char,
{
}

/// Law: the notation names fields one to one: two fields (x, y, f) of the board with the same
/// notation are the same field.
pub proof fn lemma_field_notation_injective(a: (int, int, int), b: (int, int, int))
    requires
        valid_field(a.0, a.1, a.2),
        valid_field(b.0, b.1, b.2),
        field_notation(a.0, a.1, a.2) == field_notation(b.0, b.1, b.2),
    ensures
        a == b,
{
    lemma_field_notation_chars(a.0, a.1, a.2);
    lemma_field_notation_chars(b.0, b.1, b.2);
    let na = field_notation(a.0, a.1, a.2);
    let nb = field_notation(b.0, b.1, b.2);
    assert(na[0] == nb[0] && na[1] == nb[1] && na[2] == nb[2]);
}

/// A string made of one character.
fn char_str(c: char) -> (r: &'static str)
    requires
        c == 'a' || c == 'b' || c == 'c' || c == 'd' || c == 'e' || c == 'f' || c == '1' || c
            == '2' || c == '3' || c == '4' || c == '5',
    ensures
        r@ == seq![c],
{
    if c == 'a' {
        proof {
            reveal_strlit("a");
        }
        "a"
    } else if c == 'b' {
        proof {
            reveal_strlit("b");
        }
        "b"
    } else if c == 'c' {
        proof {
            reveal_strlit("c");
        }
        "c"
    } else if c == 'd' {
        proof {
            reveal_strlit("d");
        }
        "d"
    } else if c == 'e' {
        proof {
            reveal_strlit("e");
        }
        "e"
    } else if c == 'f' {
        proof {
            reveal_strlit("f");
        }
        "f"
    } else if c == '1' {
        proof {
            reveal_strlit("1");
        }
        "1"
    } else if c == '2' {
        proof {
            reveal_strlit("2");
        }
        "2"
    } else if c == '3' {
        proof {
            reveal_strlit("3");
        }
        "3"
    } else if c == '4' {
        proof {
            reveal_strlit("4");
        }
        "4"
    } else {
        proof {
            reveal_strlit("5");
        }
        "5"
    }
}

impl HexCoord {
    #[verifier::type_invariant]
    pub closed spec fn inv(self) -> bool {
        valid_hex(self.x as int, self.y as int)
    }

    /// Every hex coordinate lies on the board.
    pub proof fn lemma_valid(self)
        requires
            self.inv(),
        ensures
            valid_hex(self@.0, self@.1),
    {
    }

    /// Hex coordinates with the same components are the same.
    pub proof fn lemma_view_eq(self, other: Self)
        requires
            self@ == other@,
        ensures
            self == other,
    {
    }

    /// The index of this hex.
    pub open spec fn index(self) -> int {
        hex_index_of(self@.0, self@.1)
    }

    pub fn new(x: i8, y: i8) -> (r: Self)
        requires
            valid_hex(x as int, y as int),
        ensures
            r@ == (x as int, y as int),
    {
        Self { x, y }
    }

    pub fn try_new(x: i8, y: i8) -> (r: Option<Self>)
        ensures
            r is Some <==> valid_hex(x as int, y as int),
            r matches Some(h) ==> h@ == (x as int, y as int),
    {
        if Self::is_valid_coord(x, y) {
            Some(Self { x, y })
        } else {
            None
        }
    }

    pub fn x(&self) -> (r: i8)
        ensures
            r == self@.0,
    {
        self.x
    }

    pub fn y(&self) -> (r: i8)
        ensures
            r == self@.1,
    {
        self.y
    }

    pub fn to_field(&self, f: u8) -> (r: FieldCoord)
        requires
            f < 6,
        ensures
            r@ == (self@.0, self@.1, f as int),
    {
        proof {
            use_type_invariant(self);
        }
        FieldCoord { x: self.x, y: self.y, f }
    }

    pub fn from_index(index: u8) -> (r: Self)
        requires
            index < 19,
        ensures
            r@ == (hex_x_of(index as int), hex_y_of(index as int)),
            r.index() == index,
    {
        proof {
            lemma_hex_index_roundtrip(index as int, 0, 0);
        }
        let hex = index as i8 + if index <= 2 {
            2
        } else if index <= 15 {
            3
        } else {
            4
        };
        Self { x: hex % 5 - 2, y: hex / 5 - 2 }
    }

    pub fn to_index(&self) -> (r: usize)
        ensures
            r == self.index(),
            r < 19,
    {
        proof {
            use_type_invariant(self);
            lemma_hex_index_roundtrip(0, self.x as int, self.y as int);
        }
        let s = 5 * (self.y + 2) + self.x + 2;
        s as usize - if s <= 4 {
            2
        } else if s <= 18 {
            3
        } else {
            4
        }
    }

    pub fn is_valid_coord(x: i8, y: i8) -> (r: bool)
        ensures
            r == valid_hex(x as int, y as int),
    {
        -2 <= x && x <= 2 && -2 <= y && y <= 2 && -2 <= x + y && x + y <= 2
    }
}

} // verus!
