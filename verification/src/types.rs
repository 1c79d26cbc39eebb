use vstd::prelude::*;
use vstd::string::StringExecFns;

verus! {

pub const FILES: usize = 13;

pub const RANKS: usize = 13;

/// 169 squares.
pub const SQUARES: usize = FILES * RANKS;

/// No piece can occupy the river rank.
pub const RIVER_RANK: usize = 6;

/// Files of the palace (0-indexed: files 5, 6, 7).
pub const PALACE_FILE_MIN: usize = 5;

pub const PALACE_FILE_MAX: usize = 7;

/// Ranks of the black palace (top): ranks 0-2.
pub const BLACK_PALACE_RANK_MIN: usize = 0;

pub const BLACK_PALACE_RANK_MAX: usize = 2;

/// Ranks of the white palace (bottom): ranks 10-12.
pub const WHITE_PALACE_RANK_MIN: usize = 10;

pub const WHITE_PALACE_RANK_MAX: usize = 12;

// ---------------------------------------------------------------------------
// Square
// ---------------------------------------------------------------------------

/// A square on the board, an index 0..168 with `sq = rank * 13 + file`.
/// Rank 0 is the top row (black side), rank 12 the bottom row (white side).
#[derive(Debug, Clone, Copy, PartialEq, Eq, PartialOrd, Ord, Hash, Structural)]
pub struct Square(pub u8);

/// Rank of the square with index `i`.
pub open spec fn rank_of(i: int) -> int {
    i / 13
}

/// File of the square with index `i`.
pub open spec fn file_of(i: int) -> int {
    i % 13
}

/// Sign of a rank step.
pub open spec fn step_sign(d: int) -> int {
    if d > 0 {
        1
    } else if d < 0 {
        -1
    } else {
        0
    }
}

/// Where a step of `(d_rank, d_file)` from `origin` lands: a step that would stop
/// on the river rank goes one rank further in the same direction; a step that
/// leaves the board lands nowhere.
pub open spec fn river_step_spec(origin: Square, d_rank: int, d_file: int) -> Option<Square> {
    let r0 = rank_of(origin.0 as int) + d_rank;
    let f = file_of(origin.0 as int) + d_file;
    let r = if r0 == RIVER_RANK as int {
        r0 + step_sign(d_rank)
    } else {
        r0
    };
    if f < 0 || f >= FILES as int || r < 0 || r >= RANKS as int {
        None
    } else {
        Some(Square((r * 13 + f) as u8))
    }
}

/// The rank lies on `side`'s half of the river.
pub open spec fn own_side_rank(side: Side, rank: int) -> bool {
    match side {
        Side::Black => rank < RIVER_RANK as int,
        Side::White => rank > RIVER_RANK as int,
    }
}

/// The rank just before the river, seen from `side`.
pub open spec fn bank_rank(side: Side, rank: int) -> bool {
    match side {
        Side::Black => rank == RIVER_RANK as int - 1,
        Side::White => rank == RIVER_RANK as int + 1,
    }
}

/// Square `i` lies in `side`'s palace.
pub open spec fn palace_square(side: Side, i: int) -> bool {
    &&& PALACE_FILE_MIN as int <= file_of(i) <= PALACE_FILE_MAX as int
    &&& match side {
        Side::Black => rank_of(i) <= BLACK_PALACE_RANK_MAX as int,
        Side::White => rank_of(i) >= WHITE_PALACE_RANK_MIN as int,
    }
}

/// The rank is one of the last three ranks on the opponent's side.
pub open spec fn promotion_rank(side: Side, rank: int) -> bool {
    match side {
        Side::Black => rank >= WHITE_PALACE_RANK_MIN as int,
        Side::White => rank <= BLACK_PALACE_RANK_MAX as int,
    }
}

impl Square {
    /// The square that stands for "no square".
    pub fn none() -> (sq: Self)
        ensures
            sq.0 == 255,
    {
        Square(255)
    }

    pub fn new(rank: usize, file: usize) -> (sq: Self)
        requires
            rank < RANKS,
            file < FILES,
        ensures
            sq.0 == rank * 13 + file,
            rank_of(sq.0 as int) == rank,
            file_of(sq.0 as int) == file,
    {
        Square((rank * FILES + file) as u8)
    }

    pub fn rank(self) -> (r: usize)
        ensures
            r == rank_of(self.0 as int),
    {
        (self.0 as usize) / FILES
    }

    pub fn file(self) -> (f: usize)
        ensures
            f == file_of(self.0 as int),
    {
        (self.0 as usize) % FILES
    }

    pub fn is_valid(self) -> (b: bool)
        ensures
            b == (self.0 < SQUARES),
    {
        (self.0 as usize) < SQUARES
    }

    /// The square is on the own side of the river for the given side.
    pub fn is_own_side(self, side: Side) -> (b: bool)
        ensures
            b == own_side_rank(side, rank_of(self.0 as int)),
    {
        match side {
            Side::Black => self.rank() < RIVER_RANK,
            Side::White => self.rank() > RIVER_RANK,
        }
    }

    /// The square is on the bank of the river for the given side: the rank
    /// immediately before the river.
    pub fn is_bank(self, side: Side) -> (b: bool)
        ensures
            b == bank_rank(side, rank_of(self.0 as int)),
    {
        match side {
            Side::Black => self.rank() == RIVER_RANK - 1,
            Side::White => self.rank() == RIVER_RANK + 1,
        }
    }

    /// A step that can ignore the river: landing on the river rank moves one
    /// rank further in the direction of travel.
    pub fn river_step(origin: Square, d_rank: i8, d_file: i8) -> (res: Option<Square>)
        ensures
            res == river_step_spec(origin, d_rank as int, d_file as int),
    {
        let mut r: isize = origin.rank() as isize + d_rank as isize;
        let f: isize = origin.file() as isize + d_file as isize;

        if f < 0 || f >= FILES as isize {
            return None;
        }
        if r == RIVER_RANK as isize {
            let sign: isize = if d_rank > 0 {
                1
            } else if d_rank < 0 {
                -1
            } else {
                0
            };
            r = r + sign;
        }
        if r < 0 || r >= RANKS as isize {
            return None;
        }
        Some(Square::new(r as usize, f as usize))
    }

    /// The square is in the palace of the given side.
    pub fn is_palace(self, side: Side) -> (b: bool)
        ensures
            b == palace_square(side, self.0 as int),
    {
        let f = self.file();
        let r = self.rank();
        if f < PALACE_FILE_MIN || f > PALACE_FILE_MAX {
            return false;
        }
        match side {
            Side::Black => r <= BLACK_PALACE_RANK_MAX,
            Side::White => r >= WHITE_PALACE_RANK_MIN,
        }
    }

    /// Promotion zone: the last 3 ranks on the opponent's side of the river.
    pub fn is_promotion_zone(self, side: Side) -> (b: bool)
        ensures
            b == promotion_rank(side, rank_of(self.0 as int)),
    {
        match side {
            Side::Black => self.rank() >= WHITE_PALACE_RANK_MIN,
            Side::White => self.rank() <= BLACK_PALACE_RANK_MAX,
        }
    }
}

// ---------------------------------------------------------------------------
// Side
// ---------------------------------------------------------------------------

#[derive(Debug, Clone, Copy, PartialEq, Eq, Hash, Structural)]
pub enum Side {
    /// Moves first, occupies ranks 0-5.
    Black,
    /// Moves second, occupies ranks 7-12.
    White,
}

pub open spec fn side_index(s: Side) -> nat {
    match s {
        Side::Black => 0,
        Side::White => 1,
    }
}

pub open spec fn opponent_of(s: Side) -> Side {
    match s {
        Side::Black => Side::White,
        Side::White => Side::Black,
    }
}

impl Side {
    pub fn opponent(self) -> (o: Self)
        ensures
            o == opponent_of(self),
    {
        match self {
            Side::Black => Side::White,
            Side::White => Side::Black,
        }
    }

    /// Advance direction: black moves to higher ranks (+1), white to lower ranks (-1).
    pub fn forward(self) -> (d: i8)
        ensures
            d == (match self {
                Side::Black => 1i8,
                Side::White => -1i8,
            }),
    {
        match self {
            Side::Black => 1,
            Side::White => -1,
        }
    }

    pub fn index(self) -> (i: usize)
        ensures
            i == side_index(self),
    {
        match self {
            Side::Black => 0,
            Side::White => 1,
        }
    }
}

/// The letter of file `f` (0..=12): "a" to "m".
pub open spec fn file_letter(f: int) -> Seq<char> {
    if f == 0 {
        "a"@
    } else if f == 1 {
        "b"@
    } else if f == 2 {
        "c"@
    } else if f == 3 {
        "d"@
    } else if f == 4 {
        "e"@
    } else if f == 5 {
        "f"@
    } else if f == 6 {
        "g"@
    } else if f == 7 {
        "h"@
    } else if f == 8 {
        "i"@
    } else if f == 9 {
        "j"@
    } else if f == 10 {
        "k"@
    } else if f == 11 {
        "l"@
    } else {
        "m"@
    }
}

/// The decimal numeral of `n` (1..=13).
pub open spec fn rank_numeral(n: int) -> Seq<char> {
    if n == 1 {
        "1"@
    } else if n == 2 {
        "2"@
    } else if n == 3 {
        "3"@
    } else if n == 4 {
        "4"@
    } else if n == 5 {
        "5"@
    } else if n == 6 {
        "6"@
    } else if n == 7 {
        "7"@
    } else if n == 8 {
        "8"@
    } else if n == 9 {
        "9"@
    } else if n == 10 {
        "10"@
    } else if n == 11 {
        "11"@
    } else if n == 12 {
        "12"@
    } else {
        "13"@
    }
}

/// The name of a square: its file letter, then its rank counted from white's
/// side (rank 12 is "1", rank 0 is "13"); "??" for a square off the board.
pub open spec fn square_text(sq: Square) -> Seq<char> {
    if sq.0 < SQUARES {
        file_letter(file_of(sq.0 as int)) + rank_numeral(RANKS as int - rank_of(sq.0 as int))
    } else {
        "??"@
    }
}

proof fn lemma_file_letter_char(f: int)
    requires
        0 <= f < 13,
    ensures
        file_letter(f).len() == 1,
        file_letter(f)[0] == (97 + f) as char,
{
    reveal_strlit("a");
    reveal_strlit("b");
    reveal_strlit("c");
    reveal_strlit("d");
    reveal_strlit("e");
    reveal_strlit("f");
    reveal_strlit("g");
    reveal_strlit("h");
    reveal_strlit("i");
    reveal_strlit("j");
    reveal_strlit("k");
    reveal_strlit("l");
    reveal_strlit("m");
}

proof fn lemma_rank_numeral_chars(n: int)
    requires
        1 <= n <= 13,
    ensures
        n < 10 ==> rank_numeral(n).len() == 1 && rank_numeral(n)[0] == (48 + n) as char,
        n >= 10 ==> rank_numeral(n).len() == 2 && rank_numeral(n)[0] == '1' && rank_numeral(n)[1]
            == (48 + n - 10) as char,
{
    reveal_strlit("1");
    reveal_strlit("2");
    reveal_strlit("3");
    reveal_strlit("4");
    reveal_strlit("5");
    reveal_strlit("6");
    reveal_strlit("7");
    reveal_strlit("8");
    reveal_strlit("9");
    reveal_strlit("10");
    reveal_strlit("11");
    reveal_strlit("12");
    reveal_strlit("13");
}

/// The name of a board square is its file letter, 'a' for file 0 up to 'm' for
/// file 12, followed by the decimal number of its rank counted from white's side
/// (13 minus the rank).
pub proof fn lemma_square_name(i: int)
    requires
        0 <= i < SQUARES,
    ensures
        ({
            let t = square_text(Square(i as u8));
            let n = RANKS as int - rank_of(i);
            &&& t[0] == (97 + file_of(i)) as char
            &&& n < 10 ==> t.len() == 2 && t[1] == (48 + n) as char
            &&& n >= 10 ==> t.len() == 3 && t[1] == '1' && t[2] == (48 + n - 10) as char
        }),
{
    lemma_file_letter_char(file_of(i));
    lemma_rank_numeral_chars(RANKS as int - rank_of(i));
}

/// Distinct squares of the board have distinct names.
pub proof fn lemma_square_names_distinct(i: int, j: int)
    requires
        0 <= i < SQUARES,
        0 <= j < SQUARES,
        i != j,
    ensures
        square_text(Square(i as u8)) != square_text(Square(j as u8)),
{
    lemma_square_name(i);
    lemma_square_name(j);
    let ti = square_text(Square(i as u8));
    let tj = square_text(Square(j as u8));
    if ti == tj {
        assert(ti[0] == tj[0]);
        assert(file_of(i) == file_of(j));
        let ni = RANKS as int - rank_of(i);
        let nj = RANKS as int - rank_of(j);
        if ni < 10 {
            assert(ti[1] == tj[1]);
        } else {
            assert(ti[2] == tj[2]);
        }
        assert(rank_of(i) == rank_of(j));
    }
}

fn file_letter_str(f: usize) -> (s: &'static str)
    requires
        f < FILES,
    ensures
        s@ == file_letter(f as int),
{
        if f == 0 {
            "a"
        } else if f == 1 {
            "b"
        } else if f == 2 {
            "c"
        } else if f == 3 {
            "d"
        } else if f == 4 {
            "e"
        } else if f == 5 {
            "f"
        } else if f == 6 {
            "g"
        } else if f == 7 {
            "h"
        } else if f == 8 {
            "i"
        } else if f == 9 {
            "j"
        } else if f == 10 {
            "k"
        } else if f == 11 {
            "l"
        } else {
            "m"
        }
}

fn rank_numeral_str(n: usize) -> (s: &'static str)
    requires
        1 <= n <= 13,
    ensures
        s@ == rank_numeral(n as int),
{
        if n == 1 {
            "1"
        } else if n == 2 {
            "2"
        } else if n == 3 {
            "3"
        } else if n == 4 {
            "4"
        } else if n == 5 {
            "5"
        } else if n == 6 {
            "6"
        } else if n == 7 {
            "7"
        } else if n == 8 {
            "8"
        } else if n == 9 {
            "9"
        } else if n == 10 {
            "10"
        } else if n == 11 {
            "11"
        } else if n == 12 {
            "12"
        } else {
            "13"
        }
}

impl Square {
    /// The name of the square, as in "g2"; "??" for a square off the board.
    pub fn to_string(self) -> (s: String)
        ensures
            s@ == square_text(self),
    {
        if !self.is_valid() {
            return String::from_str("??");
        }
        let mut s = String::from_str(file_letter_str(self.file()));
        s.append(rank_numeral_str(RANKS - self.rank()));
        s
    }
}

impl Side {
    /// "black" or "white".
    pub fn to_string(self) -> (s: String)
        ensures
            s@ == (match self {
                Side::Black => "black"@,
                Side::White => "white"@,
            }),
    {
        match self {
            Side::Black => String::from_str("black"),
            Side::White => String::from_str("white"),
        }
    }
}

/// Each side is the other's opponent.
pub proof fn lemma_opponent_involution(s: Side)
    ensures
        opponent_of(opponent_of(s)) == s,
        opponent_of(s) != s,
        side_index(s) + side_index(opponent_of(s)) == 1,
{
}

/// How the regions of a side lie: its bank and its palace are on its own side of
/// the river, and its promotion zone is the far end of the opponent's side, which
/// holds the opponent's palace.
pub proof fn lemma_regions(side: Side, i: int)
    requires
        0 <= i < SQUARES,
    ensures
        bank_rank(side, rank_of(i)) ==> own_side_rank(side, rank_of(i)),
        palace_square(side, i) ==> own_side_rank(side, rank_of(i)),
        promotion_rank(side, rank_of(i)) ==> own_side_rank(opponent_of(side), rank_of(i)),
        palace_square(opponent_of(side), i) ==> promotion_rank(side, rank_of(i)),
        rank_of(i) == RIVER_RANK as int ==> !own_side_rank(side, rank_of(i)),
{
}

// ---------------------------------------------------------------------------
// PieceKind
// ---------------------------------------------------------------------------

#[derive(Debug, Clone, Copy, PartialEq, Eq, Hash, Structural)]
pub enum PieceKind {
    // Base pieces
    King,
    Queen,
    General,
    Elephant,
    Priest,
    Horse,
    Cannon,
    Tower,
    Carriage,
    Archer,
    Pawn,
    // Promoted pieces
    /// Promoted Elephant.
    Fortress,
    /// Promoted Priest.
    Wisdom,
    /// Promoted Horse.
    Steed,
    /// Promoted Cannon.
    Artillery,
    /// Promoted Tower.
    Barricade,
    /// Promoted Pawn.
    Crossbow,
}

/// The number of a kind, 0 for the King up to 16 for the Crossbow.
pub open spec fn kind_index(k: PieceKind) -> nat {
    match k {
        PieceKind::King => 0,
        PieceKind::Queen => 1,
        PieceKind::General => 2,
        PieceKind::Elephant => 3,
        PieceKind::Priest => 4,
        PieceKind::Horse => 5,
        PieceKind::Cannon => 6,
        PieceKind::Tower => 7,
        PieceKind::Carriage => 8,
        PieceKind::Archer => 9,
        PieceKind::Pawn => 10,
        PieceKind::Fortress => 11,
        PieceKind::Wisdom => 12,
        PieceKind::Steed => 13,
        PieceKind::Artillery => 14,
        PieceKind::Barricade => 15,
        PieceKind::Crossbow => 16,
    }
}

/// The kind with number `i` (0..=16); the Crossbow for any larger number.
pub open spec fn kind_at(i: int) -> PieceKind {
    if i <= 0 {
        PieceKind::King
    } else if i == 1 {
        PieceKind::Queen
    } else if i == 2 {
        PieceKind::General
    } else if i == 3 {
        PieceKind::Elephant
    } else if i == 4 {
        PieceKind::Priest
    } else if i == 5 {
        PieceKind::Horse
    } else if i == 6 {
        PieceKind::Cannon
    } else if i == 7 {
        PieceKind::Tower
    } else if i == 8 {
        PieceKind::Carriage
    } else if i == 9 {
        PieceKind::Archer
    } else if i == 10 {
        PieceKind::Pawn
    } else if i == 11 {
        PieceKind::Fortress
    } else if i == 12 {
        PieceKind::Wisdom
    } else if i == 13 {
        PieceKind::Steed
    } else if i == 14 {
        PieceKind::Artillery
    } else if i == 15 {
        PieceKind::Barricade
    } else {
        PieceKind::Crossbow
    }
}

pub open spec fn kanji_of(k: PieceKind) -> Seq<char> {
    match k {
        PieceKind::King => "王"@,
        PieceKind::Queen => "后"@,
        PieceKind::General => "師"@,
        PieceKind::Elephant => "象"@,
        PieceKind::Priest => "仙"@,
        PieceKind::Horse => "馬"@,
        PieceKind::Cannon => "炮"@,
        PieceKind::Tower => "塔"@,
        PieceKind::Carriage => "輦"@,
        PieceKind::Archer => "矢"@,
        PieceKind::Pawn => "兵"@,
        PieceKind::Fortress => "毅"@,
        PieceKind::Wisdom => "叡"@,
        PieceKind::Steed => "駿"@,
        PieceKind::Artillery => "熕"@,
        PieceKind::Barricade => "𨐌"@,
        PieceKind::Crossbow => "弩"@,
    }
}

/// Kinds that can be dropped from the reserve after being captured.
pub open spec fn reusable_kind(k: PieceKind) -> bool {
    k == PieceKind::Tower || k == PieceKind::General || k == PieceKind::Pawn || k
        == PieceKind::Crossbow
}

/// The promoted form of a kind, for the kinds that have one.
pub open spec fn promoted_of(k: PieceKind) -> Option<PieceKind> {
    match k {
        PieceKind::Elephant => Some(PieceKind::Fortress),
        PieceKind::Priest => Some(PieceKind::Wisdom),
        PieceKind::Horse => Some(PieceKind::Steed),
        PieceKind::Cannon => Some(PieceKind::Artillery),
        PieceKind::Tower => Some(PieceKind::Barricade),
        PieceKind::Pawn => Some(PieceKind::Crossbow),
        _ => None,
    }
}

/// The base form of a kind: the unpromoted kind for a promoted one, else itself.
pub open spec fn base_of(k: PieceKind) -> PieceKind {
    match k {
        PieceKind::Fortress => PieceKind::Elephant,
        PieceKind::Wisdom => PieceKind::Priest,
        PieceKind::Steed => PieceKind::Horse,
        PieceKind::Artillery => PieceKind::Cannon,
        PieceKind::Barricade => PieceKind::Tower,
        PieceKind::Crossbow => PieceKind::Pawn,
        other => other,
    }
}

impl PieceKind {
    pub const COUNT: usize = 17;

    /// Kinds without a promoted form counted apart.
    pub const BASE_COUNT: usize = 11;

    pub fn kanji(self) -> (s: &'static str)
        ensures
            s@ == kanji_of(self),
    {
        match self {
            PieceKind::King => "王",
            PieceKind::Queen => "后",
            PieceKind::General => "師",
            PieceKind::Elephant => "象",
            PieceKind::Priest => "仙",
            PieceKind::Horse => "馬",
            PieceKind::Cannon => "炮",
            PieceKind::Tower => "塔",
            PieceKind::Carriage => "輦",
            PieceKind::Archer => "矢",
            PieceKind::Pawn => "兵",
            PieceKind::Fortress => "毅",
            PieceKind::Wisdom => "叡",
            PieceKind::Steed => "駿",
            PieceKind::Artillery => "熕",
            PieceKind::Barricade => "𨐌",
            PieceKind::Crossbow => "弩",
        }
    }

    /// The piece can be dropped from the reserve after being captured.
    pub fn is_reusable(self) -> (b: bool)
        ensures
            b == reusable_kind(self),
    {
        match self {
            PieceKind::Tower | PieceKind::General | PieceKind::Pawn | PieceKind::Crossbow => true,
            _ => false,
        }
    }

    /// Kinds that can promote when moving into the promotion zone.
    pub fn can_promote(self) -> (b: bool)
        ensures
            b == promoted_of(self).is_some(),
    {
        match self {
            PieceKind::Elephant | PieceKind::Priest | PieceKind::Horse | PieceKind::Cannon
            | PieceKind::Tower | PieceKind::Pawn => true,
            _ => false,
        }
    }

    /// Promoted form of a kind, if it can promote.
    pub fn promoted_form(self) -> (p: Option<PieceKind>)
        ensures
            p == promoted_of(self),
    {
        match self {
            PieceKind::Elephant => Some(PieceKind::Fortress),
            PieceKind::Priest => Some(PieceKind::Wisdom),
            PieceKind::Horse => Some(PieceKind::Steed),
            PieceKind::Cannon => Some(PieceKind::Artillery),
            PieceKind::Tower => Some(PieceKind::Barricade),
            PieceKind::Pawn => Some(PieceKind::Crossbow),
            _ => None,
        }
    }

    /// Base form of a promoted kind (for drops from the reserve).
    pub fn base_form(self) -> (b: PieceKind)
        ensures
            b == base_of(self),
    {
        match self {
            PieceKind::Fortress => PieceKind::Elephant,
            PieceKind::Wisdom => PieceKind::Priest,
            PieceKind::Steed => PieceKind::Horse,
            PieceKind::Artillery => PieceKind::Cannon,
            PieceKind::Barricade => PieceKind::Tower,
            PieceKind::Crossbow => PieceKind::Pawn,
            other => other,
        }
    }

    /// Whether the kind can cross the river: all but the Archer and the Carriage.
    pub fn can_cross_river(self) -> (b: bool)
        ensures
            b == !(self == PieceKind::Archer || self == PieceKind::Carriage),
    {
        match self {
            PieceKind::Archer | PieceKind::Carriage => false,
            _ => true,
        }
    }

    pub fn index(self) -> (i: usize)
        ensures
            i == kind_index(self),
    {
        match self {
            PieceKind::King => 0,
            PieceKind::Queen => 1,
            PieceKind::General => 2,
            PieceKind::Elephant => 3,
            PieceKind::Priest => 4,
            PieceKind::Horse => 5,
            PieceKind::Cannon => 6,
            PieceKind::Tower => 7,
            PieceKind::Carriage => 8,
            PieceKind::Archer => 9,
            PieceKind::Pawn => 10,
            PieceKind::Fortress => 11,
            PieceKind::Wisdom => 12,
            PieceKind::Steed => 13,
            PieceKind::Artillery => 14,
            PieceKind::Barricade => 15,
            PieceKind::Crossbow => 16,
        }
    }

    /// The kind with number `i`.
    pub fn from_index(i: u8) -> (k: PieceKind)
        requires
            i <= 16,
        ensures
            k == kind_at(i as int),
            kind_index(k) == i,
    {
        if i == 0 {
            PieceKind::King
        } else if i == 1 {
            PieceKind::Queen
        } else if i == 2 {
            PieceKind::General
        } else if i == 3 {
            PieceKind::Elephant
        } else if i == 4 {
            PieceKind::Priest
        } else if i == 5 {
            PieceKind::Horse
        } else if i == 6 {
            PieceKind::Cannon
        } else if i == 7 {
            PieceKind::Tower
        } else if i == 8 {
            PieceKind::Carriage
        } else if i == 9 {
            PieceKind::Archer
        } else if i == 10 {
            PieceKind::Pawn
        } else if i == 11 {
            PieceKind::Fortress
        } else if i == 12 {
            PieceKind::Wisdom
        } else if i == 13 {
            PieceKind::Steed
        } else if i == 14 {
            PieceKind::Artillery
        } else if i == 15 {
            PieceKind::Barricade
        } else {
            PieceKind::Crossbow
        }
    }
}

/// The number of a kind names it again.
pub proof fn lemma_kind_index_roundtrip(k: PieceKind)
    ensures
        kind_at(kind_index(k) as int) == k,
        kind_index(k) < 17,
{
}

/// Promotion and demotion undo each other: the promoted form of a kind has that
/// kind as its base form, a promoted kind is the promoted form of its base, and
/// taking the base form twice changes nothing.
pub proof fn lemma_promotion_roundtrip(k: PieceKind)
    ensures
        promoted_of(k) matches Some(p) ==> base_of(p) == k && p != k,
        base_of(k) != k ==> promoted_of(base_of(k)) == Some(k),
        base_of(base_of(k)) == base_of(k),
{
}

/// Promotion keeps the order of the kinds: of two kinds that can promote, the
/// earlier one promotes to the earlier promoted kind, and the promoted kinds are
/// the last six (numbers 11 to 16). With the roundtrip law this fixes every pair.
pub proof fn lemma_promotion_keeps_order(k1: PieceKind, k2: PieceKind)
    requires
        promoted_of(k1) is Some,
        promoted_of(k2) is Some,
    ensures
        kind_index(k1) < kind_index(k2) <==> kind_index(promoted_of(k1)->0) < kind_index(
            promoted_of(k2)->0,
        ),
        11 <= kind_index(promoted_of(k1)->0) <= 16,
        kind_index(k1) < 11,
{
}

/// Demotion keeps the order of the promoted kinds, and gives a kind before them.
pub proof fn lemma_base_keeps_order(p1: PieceKind, p2: PieceKind)
    requires
        kind_index(p1) >= 11,
        kind_index(p2) >= 11,
    ensures
        kind_index(p1) < kind_index(p2) <==> kind_index(base_of(p1)) < kind_index(base_of(p2)),
        kind_index(base_of(p1)) < 11,
        promoted_of(base_of(p1)) == Some(p1),
{
}

/// Exactly four kinds can be dropped from the reserve: the Tower, the General,
/// the Pawn and the promoted Pawn (the Crossbow).
pub proof fn lemma_reusable_kinds()
    ensures
        Set::new(|k: PieceKind| reusable_kind(k)) == Set::<PieceKind>::empty().insert(
            PieceKind::Tower,
        ).insert(PieceKind::General).insert(PieceKind::Pawn).insert(PieceKind::Crossbow),
        Set::new(|k: PieceKind| reusable_kind(k)).len() == 4,
{
    let e = Set::<PieceKind>::empty().insert(PieceKind::Tower).insert(PieceKind::General).insert(
        PieceKind::Pawn,
    ).insert(PieceKind::Crossbow);
    assert(Set::new(|k: PieceKind| reusable_kind(k)) =~= e);
    assert(e.len() == 4);
}

// ---------------------------------------------------------------------------
// Piece
// ---------------------------------------------------------------------------

/// A piece on the board, kind and side packed in one byte:
/// bits 0-4 hold the kind, bit 5 the side.
#[derive(Debug, Clone, Copy, PartialEq, Eq, Hash, Structural)]
pub struct Piece(pub u8);

/// The byte that packs `kind` and `side`.
pub open spec fn piece_code(kind: PieceKind, side: Side) -> int {
    (kind_index(kind) + 32 * side_index(side)) as int
}

/// The kind number stored in a piece byte.
pub open spec fn piece_kind_bits(p: Piece) -> int {
    p.0 as int % 32
}

/// The side stored in a piece byte.
pub open spec fn piece_side_of(p: Piece) -> Side {
    if (p.0 as int / 32) % 2 == 0 {
        Side::Black
    } else {
        Side::White
    }
}

proof fn lemma_piece_bits(k: u8, s: u8, x: u8)
    by (bit_vector)
    requires
        k < 32,
        s < 2,
    ensures
        k | (s << 5u8) == k + 32 * s,
        x & 0x1Fu8 == x % 32,
        (x >> 5u8) & 1u8 == (x / 32) % 2,
{
}

impl Piece {
    /// The piece that stands for "no piece".
    pub fn none() -> (p: Self)
        ensures
            p.0 == 255,
    {
        Piece(255)
    }

    pub fn new(kind: PieceKind, side: Side) -> (p: Self)
        ensures
            p.0 == piece_code(kind, side),
    {
        let k = kind.index() as u8;
        let s = side.index() as u8;
        proof {
            lemma_piece_bits(k, s, 0);
        }
        Piece(k | (s << 5u8))
    }

    /// The kind of the piece; the byte must hold a kind number (0..=16).
    pub fn kind(self) -> (k: PieceKind)
        requires
            piece_kind_bits(self) <= 16,
        ensures
            k == kind_at(piece_kind_bits(self)),
            kind_index(k) == piece_kind_bits(self),
    {
        proof {
            lemma_piece_bits(0, 0, self.0);
        }
        let k = self.0 & 0x1F;
        PieceKind::from_index(k)
    }

    pub fn side(self) -> (s: Side)
        ensures
            s == piece_side_of(self),
    {
        proof {
            lemma_piece_bits(0, 0, self.0);
        }
        if (self.0 >> 5u8) & 1 == 0 {
            Side::Black
        } else {
            Side::White
        }
    }

    pub fn is_none(self) -> (b: bool)
        ensures
            b == (self.0 == 255),
    {
        self.0 == 255
    }

    pub fn index(self) -> (i: usize)
        ensures
            i == self.0,
    {
        self.0 as usize
    }
}

/// A packed piece gives back its kind and side, and is never the empty piece.
pub proof fn lemma_piece_roundtrip(kind: PieceKind, side: Side)
    ensures
        ({
            let p = Piece(piece_code(kind, side) as u8);
            &&& piece_kind_bits(p) == kind_index(kind)
            &&& kind_at(piece_kind_bits(p)) == kind
            &&& piece_side_of(p) == side
            &&& p.0 != 255
        }),
{
    let c = piece_code(kind, side);
    assert(c < 64);
    assert(c % 32 == kind_index(kind));
    assert(c / 32 == side_index(side));
}

// ---------------------------------------------------------------------------
// Move
// ---------------------------------------------------------------------------

/// A move packed in 32 bits:
/// bits 0-7 source square (255 for a drop from the reserve),
/// bits 8-15 destination square,
/// bits 16-20 moving kind,
/// bits 21-25 captured kind (31 when nothing is captured),
/// bit 26 promotion in this move,
/// bit 27 drop from the reserve,
/// bits 28-31 reserved.
#[derive(Debug, Clone, Copy, PartialEq, Eq, Hash, Structural)]
pub struct Move(pub u32);

/// The 5-bit capture field for an optional captured kind.
pub open spec fn capture_code(c: Option<PieceKind>) -> int {
    match c {
        Some(k) => kind_index(k) as int,
        None => 31,
    }
}

pub open spec fn flag(b: bool) -> int {
    if b {
        1
    } else {
        0
    }
}

/// The number that packs the fields of a move.
pub open spec fn move_code(
    from: int,
    to: int,
    piece: int,
    cap: int,
    promote: bool,
    drop: bool,
) -> int {
    from + 256 * to + 65536 * piece + 2097152 * cap + 67108864 * flag(promote) + 134217728 * flag(
        drop,
    )
}

pub open spec fn move_from_bits(m: Move) -> int {
    m.0 as int % 256
}

pub open spec fn move_to_bits(m: Move) -> int {
    (m.0 as int / 256) % 256
}

pub open spec fn move_piece_bits(m: Move) -> int {
    (m.0 as int / 65536) % 32
}

pub open spec fn move_capture_bits(m: Move) -> int {
    (m.0 as int / 2097152) % 32
}

pub open spec fn move_promotion_flag(m: Move) -> bool {
    (m.0 as int / 67108864) % 2 == 1
}

pub open spec fn move_drop_flag(m: Move) -> bool {
    (m.0 as int / 134217728) % 2 == 1
}

/// The captured kind a move records, if any.
pub open spec fn move_captured_of(m: Move) -> Option<PieceKind> {
    if move_capture_bits(m) == 31 {
        None
    } else {
        Some(kind_at(move_capture_bits(m)))
    }
}

proof fn lemma_move_pack(a: u32, b: u32, c: u32, d: u32, e: u32, f: u32)
    by (bit_vector)
    requires
        a < 256,
        b < 256,
        c < 32,
        d < 32,
        e < 2,
        f < 2,
    ensures
        a | (b << 8u32) | (c << 16u32) | (d << 21u32) | (e << 26u32) == a + 256 * b + 65536 * c
            + 2097152 * d + 67108864 * e,
        a | (b << 8u32) | (c << 16u32) | (d << 21u32) | (f << 27u32) == a + 256 * b + 65536 * c
            + 2097152 * d + 134217728 * f,
{
}

proof fn lemma_move_unpack(x: u32)
    by (bit_vector)
    ensures
        x & 0xFFu32 == x % 256,
        (x >> 8u32) & 0xFFu32 == (x / 256) % 256,
        (x >> 16u32) & 0x1Fu32 == (x / 65536) % 32,
        (x >> 21u32) & 0x1Fu32 == (x / 2097152) % 32,
        (x >> 26u32) & 1u32 == (x / 67108864) % 2,
        (x >> 27u32) & 1u32 == (x / 134217728) % 2,
{
}

impl Move {
    /// The empty move.
    pub fn null() -> (m: Self)
        ensures
            m.0 == 0,
    {
        Move(0)
    }

    pub fn new_normal(
        from: Square,
        to: Square,
        piece: PieceKind,
        captured: Option<PieceKind>,
        promote: bool,
    ) -> (m: Self)
        ensures
            m.0 == move_code(
                from.0 as int,
                to.0 as int,
                kind_index(piece) as int,
                capture_code(captured),
                promote,
                false,
            ),
    {
        let cap: u32 = match captured {
            Some(k) => k.index() as u32,
            None => 31,
        };
        let p: u32 = if promote {
            1
        } else {
            0
        };
        let a = from.0 as u32;
        let b = to.0 as u32;
        let c = piece.index() as u32;
        proof {
            lemma_move_pack(a, b, c, cap, p, 0);
        }
        Move(a | (b << 8u32) | (c << 16u32) | (cap << 21u32) | (p << 26u32))
    }

    pub fn new_drop(to: Square, piece: PieceKind) -> (m: Self)
        ensures
            m.0 == move_code(255, to.0 as int, kind_index(piece) as int, 31, false, true),
    {
        let b = to.0 as u32;
        let c = piece.index() as u32;
        proof {
            lemma_move_pack(255, b, c, 31, 0, 1);
        }
        // from = 255 marks a drop; a drop captures nothing
        Move(255u32 | (b << 8u32) | (c << 16u32) | (31u32 << 21u32) | (1u32 << 27u32))
    }

    pub fn from_sq(self) -> (sq: Square)
        ensures
            sq.0 == move_from_bits(self),
    {
        proof {
            lemma_move_unpack(self.0);
        }
        Square((self.0 & 0xFF) as u8)
    }

    pub fn to_sq(self) -> (sq: Square)
        ensures
            sq.0 == move_to_bits(self),
    {
        proof {
            lemma_move_unpack(self.0);
        }
        Square(((self.0 >> 8u32) & 0xFF) as u8)
    }

    /// The moving kind; the field must hold a kind number (0..=16).
    pub fn piece(self) -> (k: PieceKind)
        requires
            move_piece_bits(self) <= 16,
        ensures
            k == kind_at(move_piece_bits(self)),
            kind_index(k) == move_piece_bits(self),
    {
        proof {
            lemma_move_unpack(self.0);
        }
        let k = ((self.0 >> 16u32) & 0x1F) as u8;
        PieceKind::from_index(k)
    }

    /// The captured kind; the field must be 31 (no capture) or a kind number.
    pub fn captured(self) -> (c: Option<PieceKind>)
        requires
            move_capture_bits(self) == 31 || move_capture_bits(self) <= 16,
        ensures
            c == move_captured_of(self),
    {
        proof {
            lemma_move_unpack(self.0);
        }
        let k = ((self.0 >> 21u32) & 0x1F) as u8;
        if k == 31 {
            return None;
        }
        Some(PieceKind::from_index(k))
    }

    pub fn is_promotion(self) -> (b: bool)
        ensures
            b == move_promotion_flag(self),
    {
        proof {
            lemma_move_unpack(self.0);
        }
        (self.0 >> 26u32) & 1 == 1
    }

    pub fn is_drop(self) -> (b: bool)
        ensures
            b == move_drop_flag(self),
    {
        proof {
            lemma_move_unpack(self.0);
        }
        (self.0 >> 27u32) & 1 == 1
    }

    pub fn is_capture(self) -> (b: bool)
        requires
            move_capture_bits(self) == 31 || move_capture_bits(self) <= 16,
        ensures
            b == (move_capture_bits(self) != 31),
    {
        self.captured().is_some()
    }

    pub fn is_null(self) -> (b: bool)
        ensures
            b == (self.0 == 0),
    {
        self.0 == 0
    }
}

/// Every field that goes into a move comes back out of it unchanged.
pub proof fn lemma_move_roundtrip(
    from: int,
    to: int,
    piece: int,
    cap: int,
    promote: bool,
    drop: bool,
)
    requires
        0 <= from < 256,
        0 <= to < 256,
        0 <= piece < 32,
        0 <= cap < 32,
    ensures
        ({
            let m = Move(move_code(from, to, piece, cap, promote, drop) as u32);
            &&& move_code(from, to, piece, cap, promote, drop) < 0x1000_0000
            &&& move_from_bits(m) == from
            &&& move_to_bits(m) == to
            &&& move_piece_bits(m) == piece
            &&& move_capture_bits(m) == cap
            &&& move_promotion_flag(m) == promote
            &&& move_drop_flag(m) == drop
        }),
{
    let x = move_code(from, to, piece, cap, promote, drop);
    let p = flag(promote);
    let d = flag(drop);
    assert(x == from + 256 * (to + 256 * (piece + 32 * (cap + 32 * (p + 2 * d)))));
    lemma_unpack_nested(from, to, piece, cap, p, d);
}

proof fn lemma_unpack_nested(a: int, b: int, c: int, d: int, e: int, f: int)
    by (nonlinear_arith)
    requires
        0 <= a < 256,
        0 <= b < 256,
        0 <= c < 32,
        0 <= d < 32,
        0 <= e < 2,
        0 <= f < 2,
    ensures
        ({
            let x = a + 256 * (b + 256 * (c + 32 * (d + 32 * (e + 2 * f))));
            &&& x < 0x1000_0000
            &&& x % 256 == a
            &&& (x / 256) % 256 == b
            &&& (x / 65536) % 32 == c
            &&& (x / 2097152) % 32 == d
            &&& (x / 67108864) % 2 == e
            &&& (x / 134217728) % 2 == f
        }),
{
}

// ---------------------------------------------------------------------------
// MoveList
// ---------------------------------------------------------------------------

/// A list of at most 256 moves, held inline without heap allocation.
pub struct MoveList {
    moves: [Move; 256],
    len: usize,
}

impl View for MoveList {
    type V = Seq<Move>;

    closed spec fn view(&self) -> Seq<Move> {
        self.moves@.subrange(0, self.len as int)
    }
}

impl MoveList {
    #[verifier::type_invariant]
    spec fn len_in_bounds(self) -> bool {
        self.len <= 256
    }

    pub fn new() -> (l: Self)
        ensures
            l@ == Seq::<Move>::empty(),
    {
        MoveList { moves: [Move(0); 256], len: 0 }
    }

    pub fn push(&mut self, mv: Move)
        requires
            old(self)@.len() < 256,
        ensures
            final(self)@ == old(self)@.push(mv),
    {
        proof {
            use_type_invariant(&*self);
        }
        let i = self.len;
        self.moves[i] = mv;
        self.len = i + 1;
    }

    pub fn len(&self) -> (n: usize)
        ensures
            n == self@.len(),
            n <= 256,
    {
        proof {
            use_type_invariant(self);
        }
        self.len
    }

    pub fn is_empty(&self) -> (b: bool)
        ensures
            b == (self@.len() == 0),
    {
        proof {
            use_type_invariant(self);
        }
        self.len == 0
    }

    pub fn as_slice(&self) -> (s: &[Move])
        ensures
            s@ == self@,
    {
        proof {
            use_type_invariant(self);
        }
        &self.moves[0..self.len]
    }

    pub fn as_mut_slice(&mut self) -> (s: &mut [Move])
        ensures
            s@ == old(self)@,
            final(self)@ == final(s)@,
    {
        proof {
            use_type_invariant(&*self);
        }
        let n = self.len;
        let (head, _tail) = self.moves.split_at_mut(n);
        head
    }
}

impl Default for MoveList {
    fn default() -> (l: Self)
        ensures
            l@ == Seq::<Move>::empty(),
    {
        Self::new()
    }
}

// ---------------------------------------------------------------------------
// GameResult
// ---------------------------------------------------------------------------

#[derive(Debug, Clone, Copy, PartialEq, Eq, Structural)]
pub enum GameResult {
    Win(Side),
    Draw,
    Ongoing,
}

// ---------------------------------------------------------------------------
// PalaceState
// ---------------------------------------------------------------------------

/// Tracks whether an enemy piece is inside a palace and for how many more turns
/// the defender may leave it there (the 3-turn rule).
#[derive(Debug, Clone, Copy, PartialEq, Eq, Default, Structural)]
pub struct PalaceState {
    /// A foreign piece is in the palace.
    pub invaded: bool,
    /// Turns the defender has left to expel it (0-3).
    pub turns_remaining: u8,
    /// The palace is cursed (after 3 turns of invasion).
    pub cursed: bool,
}

} // verus!
