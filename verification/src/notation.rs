//! Move notation.
use vstd::prelude::*;
use vstd::string::StringExecFns;
use crate::types::{
    Move, PieceKind, Square, base_of, move_drop_flag, move_promotion_flag, move_to_bits,
    square_text, capture_code, move_code, kind_index,
};

verus! {

// ---------------------------------------------------------------------------
// Terminal marks
// ---------------------------------------------------------------------------

/// How a move ends the game, if it does.
#[derive(Debug, Clone, Copy, PartialEq, Eq, Default, Structural)]
pub enum NotationTerminal {
    #[default]
    Unmarked,
    Checkmate,
    PalaceMate,
    Stalemate,
    Draw,
    DrawAgreement,
    MoveLimitDraw,
}

pub open spec fn terminal_text(t: NotationTerminal) -> Seq<char> {
    match t {
        NotationTerminal::Unmarked => ""@,
        NotationTerminal::Checkmate => "#"@,
        NotationTerminal::PalaceMate => "##"@,
        NotationTerminal::Stalemate => "^"@,
        NotationTerminal::Draw => "="@,
        NotationTerminal::DrawAgreement => "=="@,
        NotationTerminal::MoveLimitDraw => "/"@,
    }
}

impl NotationTerminal {
    pub fn as_str(self) -> (s: &'static str)
        ensures
            s@ == terminal_text(self),
    {
        match self {
            NotationTerminal::Unmarked => "",
            NotationTerminal::Checkmate => "#",
            NotationTerminal::PalaceMate => "##",
            NotationTerminal::Stalemate => "^",
            NotationTerminal::Draw => "=",
            NotationTerminal::DrawAgreement => "==",
            NotationTerminal::MoveLimitDraw => "/",
        }
    }
}

// ---------------------------------------------------------------------------
// Archer and palace-curse records
// ---------------------------------------------------------------------------

#[derive(Debug, Clone, Copy, PartialEq, Eq, Structural)]
pub struct ArcherOption {
    pub piece: PieceKind,
    pub square: Square,
    pub retreat_to: Option<Square>,
}

/// What an archer's ambush captured, or could have captured.
#[derive(Debug, Clone, PartialEq, Eq)]
pub enum ArcherNotation {
    SingleCapture { victim: PieceKind, victim_sq: Square },
    AutoCaptureAll { victims: Vec<(PieceKind, Square)> },
    ChooseCapture { chosen_index: usize, options: Vec<ArcherOption> },
}

/// The pieces taken by palace curses, in groups.
#[derive(Debug, Clone, PartialEq, Eq, Default)]
pub struct PalaceCurseNotation {
    pub groups: Vec<Vec<(PieceKind, Square)>>,
}

#[derive(Debug, Clone, PartialEq, Eq, Default)]
pub struct MoveNotationContext {
    pub archer: Option<ArcherNotation>,
    pub curse: Option<PalaceCurseNotation>,
    pub terminal: NotationTerminal,
    pub check: bool,
}

// ---------------------------------------------------------------------------
// Piece symbols
// ---------------------------------------------------------------------------

/// The letter(s) that stand for a kind.
pub open spec fn symbol_of(k: PieceKind) -> Seq<char> {
    match k {
        PieceKind::King => "K"@,
        PieceKind::Queen => "Q"@,
        PieceKind::General => "G"@,
        PieceKind::Elephant => "E"@,
        PieceKind::Priest => "P"@,
        PieceKind::Horse => "H"@,
        PieceKind::Cannon => "C"@,
        PieceKind::Tower => "T"@,
        PieceKind::Carriage => "Ca"@,
        PieceKind::Archer => "A"@,
        PieceKind::Pawn => "p"@,
        PieceKind::Fortress => "F"@,
        PieceKind::Wisdom => "W"@,
        PieceKind::Steed => "S"@,
        PieceKind::Artillery => "R"@,
        PieceKind::Barricade => "U"@,
        PieceKind::Crossbow => "B"@,
    }
}

/// The symbol of a kind in lower case, as it is written for a captured piece.
pub open spec fn lower_symbol_of(k: PieceKind) -> Seq<char> {
    match k {
        PieceKind::King => "k"@,
        PieceKind::Queen => "q"@,
        PieceKind::General => "g"@,
        PieceKind::Elephant => "e"@,
        PieceKind::Priest => "p"@,
        PieceKind::Horse => "h"@,
        PieceKind::Cannon => "c"@,
        PieceKind::Tower => "t"@,
        PieceKind::Carriage => "ca"@,
        PieceKind::Archer => "a"@,
        PieceKind::Pawn => "p"@,
        PieceKind::Fortress => "f"@,
        PieceKind::Wisdom => "w"@,
        PieceKind::Steed => "s"@,
        PieceKind::Artillery => "r"@,
        PieceKind::Barricade => "u"@,
        PieceKind::Crossbow => "b"@,
    }
}

/// ASCII upper-case letters turned to lower case; other characters kept.
pub open spec fn ascii_lower(s: Seq<char>) -> Seq<char> {
    s.map_values(|c: char| if 'A' <= c && c <= 'Z' { ((c as int) + 32) as char } else { c })
}

/// The capture symbol of a kind is its symbol in lower case.
pub proof fn lemma_lower_symbol(k: PieceKind)
    ensures
        lower_symbol_of(k) == ascii_lower(symbol_of(k)),
{
    reveal_strlit("K");
    reveal_strlit("k");
    reveal_strlit("Q");
    reveal_strlit("q");
    reveal_strlit("G");
    reveal_strlit("g");
    reveal_strlit("E");
    reveal_strlit("e");
    reveal_strlit("P");
    reveal_strlit("p");
    reveal_strlit("H");
    reveal_strlit("h");
    reveal_strlit("C");
    reveal_strlit("c");
    reveal_strlit("T");
    reveal_strlit("t");
    reveal_strlit("Ca");
    reveal_strlit("ca");
    reveal_strlit("A");
    reveal_strlit("a");
    reveal_strlit("p");
    reveal_strlit("F");
    reveal_strlit("f");
    reveal_strlit("W");
    reveal_strlit("w");
    reveal_strlit("S");
    reveal_strlit("s");
    reveal_strlit("R");
    reveal_strlit("r");
    reveal_strlit("U");
    reveal_strlit("u");
    reveal_strlit("B");
    reveal_strlit("b");
    assert(lower_symbol_of(k) =~= ascii_lower(symbol_of(k)));
}

/// Every symbol is a single upper-case letter, save the Carriage's "Ca" and the
/// Pawn's "p"; no two kinds share a symbol.
pub proof fn lemma_symbols_distinct(k1: PieceKind, k2: PieceKind)
    ensures
        k1 != k2 ==> symbol_of(k1) != symbol_of(k2),
        1 <= symbol_of(k1).len() <= 2,
        symbol_of(k1).len() == 2 <==> k1 == PieceKind::Carriage,
        'A' <= symbol_of(k1)[0] <= 'Z' <==> k1 != PieceKind::Pawn,
{
    reveal_strlit("K");
    reveal_strlit("Q");
    reveal_strlit("G");
    reveal_strlit("E");
    reveal_strlit("P");
    reveal_strlit("H");
    reveal_strlit("C");
    reveal_strlit("T");
    reveal_strlit("Ca");
    reveal_strlit("A");
    reveal_strlit("p");
    reveal_strlit("F");
    reveal_strlit("W");
    reveal_strlit("S");
    reveal_strlit("R");
    reveal_strlit("U");
    reveal_strlit("B");
    if k1 != k2 && symbol_of(k1) == symbol_of(k2) {
        assert(symbol_of(k1)[0] == symbol_of(k2)[0]);
        assert(symbol_of(k1).len() == symbol_of(k2).len());
    }
}

fn piece_symbol(kind: PieceKind) -> (s: &'static str)
    ensures
        s@ == symbol_of(kind),
{
    match kind {
        PieceKind::King => "K",
        PieceKind::Queen => "Q",
        PieceKind::General => "G",
        PieceKind::Elephant => "E",
        PieceKind::Priest => "P",
        PieceKind::Horse => "H",
        PieceKind::Cannon => "C",
        PieceKind::Tower => "T",
        PieceKind::Carriage => "Ca",
        PieceKind::Archer => "A",
        PieceKind::Pawn => "p",
        PieceKind::Fortress => "F",
        PieceKind::Wisdom => "W",
        PieceKind::Steed => "S",
        PieceKind::Artillery => "R",
        PieceKind::Barricade => "U",
        PieceKind::Crossbow => "B",
    }
}

fn piece_symbol_lower(kind: PieceKind) -> (s: String)
    ensures
        s@ == lower_symbol_of(kind),
{
    String::from_str(
        match kind {
        PieceKind::King => "k",
        PieceKind::Queen => "q",
        PieceKind::General => "g",
        PieceKind::Elephant => "e",
        PieceKind::Priest => "p",
        PieceKind::Horse => "h",
        PieceKind::Cannon => "c",
        PieceKind::Tower => "t",
        PieceKind::Carriage => "ca",
        PieceKind::Archer => "a",
        PieceKind::Pawn => "p",
        PieceKind::Fortress => "f",
        PieceKind::Wisdom => "w",
        PieceKind::Steed => "s",
        PieceKind::Artillery => "r",
        PieceKind::Barricade => "u",
        PieceKind::Crossbow => "b",
        },
    )
}

// ---------------------------------------------------------------------------
// Palace curse suffix
// ---------------------------------------------------------------------------

/// A piece and its square: symbol then square name.
pub open spec fn placed_text(p: (PieceKind, Square)) -> Seq<char> {
    symbol_of(p.0) + square_text(p.1)
}

/// The first `n` pieces of a curse group, joined by "&".
pub open spec fn group_items_text(g: Seq<(PieceKind, Square)>, n: int) -> Seq<char>
    decreases n,
{
    if n <= 0 {
        Seq::empty()
    } else if n == 1 {
        placed_text(g[0])
    } else {
        group_items_text(g, n - 1) + "&"@ + placed_text(g[n - 1])
    }
}

/// One curse group: "&", its pieces joined by "&", then "-"; nothing for an
/// empty group.
pub open spec fn group_text(g: Seq<(PieceKind, Square)>) -> Seq<char> {
    if g.len() == 0 {
        Seq::empty()
    } else {
        "&"@ + group_items_text(g, g.len() as int) + "-"@
    }
}

/// The suffix for the first `n` curse groups.
pub open spec fn curse_text(groups: Seq<Vec<(PieceKind, Square)>>, n: int) -> Seq<char>
    decreases n,
{
    if n <= 0 {
        Seq::empty()
    } else {
        curse_text(groups, n - 1) + group_text(groups[n - 1]@)
    }
}

/// The total length of the texts of the first `n` pieces of a group.
pub open spec fn placed_total(g: Seq<(PieceKind, Square)>, n: int) -> int
    decreases n,
{
    if n <= 0 {
        0
    } else {
        placed_total(g, n - 1) + placed_text(g[n - 1]).len()
    }
}

proof fn lemma_group_items(g: Seq<(PieceKind, Square)>, n: int)
    requires
        1 <= n <= g.len(),
    ensures
        group_items_text(g, n).len() == (n - 1) + placed_total(g, n),
        forall|j: int|
            0 <= j < n ==> #[trigger] group_items_text(g, n).subrange(
                j + placed_total(g, j),
                j + placed_total(g, j + 1),
            ) == placed_text(g[j]),
    decreases n,
{
    reveal_strlit("&");
    assert(placed_total(g, 0) == 0);
    assert(placed_total(g, n) == placed_total(g, n - 1) + placed_text(g[n - 1]).len());
    if n > 1 {
        lemma_group_items(g, n - 1);
        let prev = group_items_text(g, n - 1);
        let cur = group_items_text(g, n);
        assert(cur == prev + "&"@ + placed_text(g[n - 1]));
        assert forall|j: int| 0 <= j < n implies #[trigger] cur.subrange(
            j + placed_total(g, j),
            j + placed_total(g, j + 1),
        ) == placed_text(g[j]) by {
            assert(placed_total(g, j + 1) == placed_total(g, j) + placed_text(g[j]).len());
            lemma_placed_total_monotone(g, 0, j);
            if j < n - 1 {
                assert(prev.subrange(j + placed_total(g, j), j + placed_total(g, j + 1))
                    == placed_text(g[j]));
                lemma_placed_total_monotone(g, j + 1, n - 1);
                assert(cur.subrange(j + placed_total(g, j), j + placed_total(g, j + 1))
                    =~= prev.subrange(j + placed_total(g, j), j + placed_total(g, j + 1)));
            } else {
                assert(cur.subrange(j + placed_total(g, j), j + placed_total(g, j + 1))
                    =~= placed_text(g[j]));
            }
        }
    } else {
        assert(placed_total(g, 1) == placed_text(g[0]).len());
        assert(group_items_text(g, 1).subrange(0, placed_total(g, 1)) =~= placed_text(g[0]));
    }
}

proof fn lemma_placed_total_monotone(g: Seq<(PieceKind, Square)>, a: int, b: int)
    requires
        0 <= a <= b,
    ensures
        placed_total(g, a) <= placed_total(g, b),
    decreases b - a,
{
    if a < b {
        lemma_placed_total_monotone(g, a, b - 1);
    }
}

/// A non-empty curse group names every one of its pieces: its text is "&", the
/// pieces' texts with one "&" between each two, then "-", so piece `j` stands at
/// offset `1 + j` plus the lengths of the pieces before it, and the text is one
/// character per separator longer than the pieces' texts together.
pub proof fn lemma_group_names_every_piece(g: Seq<(PieceKind, Square)>)
    requires
        g.len() > 0,
    ensures
        group_text(g).len() == g.len() + 1 + placed_total(g, g.len() as int),
        group_text(g)[0] == '&',
        group_text(g).last() == '-',
        forall|j: int|
            0 <= j < g.len() ==> #[trigger] group_text(g).subrange(
                1 + j + placed_total(g, j),
                1 + j + placed_total(g, j + 1),
            ) == placed_text(g[j]),
{
    reveal_strlit("&");
    reveal_strlit("-");
    let n = g.len() as int;
    lemma_group_items(g, n);
    let items = group_items_text(g, n);
    let t = group_text(g);
    assert(t == "&"@ + items + "-"@);
    assert forall|j: int| 0 <= j < g.len() implies #[trigger] t.subrange(
        1 + j + placed_total(g, j),
        1 + j + placed_total(g, j + 1),
    ) == placed_text(g[j]) by {
        assert(placed_total(g, j + 1) == placed_total(g, j) + placed_text(g[j]).len());
        lemma_placed_total_monotone(g, 0, j);
        lemma_placed_total_monotone(g, j + 1, n);
        assert(items.subrange(j + placed_total(g, j), j + placed_total(g, j + 1)) == placed_text(g[j]));
        assert(t.subrange(1 + j + placed_total(g, j), 1 + j + placed_total(g, j + 1)) =~= items.subrange(
            j + placed_total(g, j),
            j + placed_total(g, j + 1),
        ));
    }
}

/// The length of the curse suffix of the first `n` groups: each non-empty group
/// gives its pieces' texts, one "&" per piece and a closing "-".
pub open spec fn curse_len(groups: Seq<Vec<(PieceKind, Square)>>, n: int) -> int
    decreases n,
{
    if n <= 0 {
        0
    } else {
        curse_len(groups, n - 1) + if groups[n - 1]@.len() == 0 {
            0
        } else {
            groups[n - 1]@.len() + 1 + placed_total(groups[n - 1]@, groups[n - 1]@.len() as int)
        }
    }
}

/// The curse suffix spends one "&" on every piece of every group and one "-" on
/// every non-empty group, beside the pieces' own texts; nothing is dropped.
pub proof fn lemma_curse_length(groups: Seq<Vec<(PieceKind, Square)>>, n: int)
    requires
        0 <= n <= groups.len(),
    ensures
        curse_text(groups, n).len() == curse_len(groups, n),
    decreases n,
{
    if n > 0 {
        lemma_curse_length(groups, n - 1);
        if groups[n - 1]@.len() > 0 {
            lemma_group_names_every_piece(groups[n - 1]@);
        }
    }
}

/// The palace-curse suffix of a move: each non-empty group in turn.
#[verifier::rlimit(40)]
pub fn append_curse_notation(curse: &PalaceCurseNotation) -> (s: String)
    ensures
        s@ == curse_text(curse.groups@, curse.groups@.len() as int),
{
    let mut suffix = String::new();
    let n = curse.groups.len();
    let mut gi: usize = 0;
    while gi < n
        invariant
            n == curse.groups@.len(),
            gi <= n,
            suffix@ == curse_text(curse.groups@, gi as int),
        decreases n - gi,
    {
        let group = &curse.groups[gi];
        if group.len() != 0 {
            let ghost before = suffix@;
            suffix.append("&");
            let m = group.len();
            let mut j: usize = 0;
            while j < m
                invariant
                    m == group@.len(),
                    m > 0,
                    j <= m,
                    suffix@ == before + "&"@ + group_items_text(group@, j as int),
                decreases m - j,
            {
                if j > 0 {
                    suffix.append("&");
                }
                let (piece, sq) = group[j];
                suffix.append(piece_symbol(piece));
                let t = sq.to_string();
                suffix.append(t.as_str());
                j = j + 1;
            }
            suffix.append("-");
        }
        gi = gi + 1;
    }
    suffix
}

// ---------------------------------------------------------------------------
// Archer ambush
// ---------------------------------------------------------------------------

/// A captured piece: symbol, "x", square.
pub open spec fn capture_text(p: (PieceKind, Square)) -> Seq<char> {
    symbol_of(p.0) + "x"@ + square_text(p.1)
}

/// The first `n` victims, joined by ",".
pub open spec fn victims_text(v: Seq<(PieceKind, Square)>, n: int) -> Seq<char>
    decreases n,
{
    if n <= 0 {
        Seq::empty()
    } else if n == 1 {
        capture_text(v[0])
    } else {
        victims_text(v, n - 1) + ","@ + capture_text(v[n - 1])
    }
}

/// An option that was not chosen: a piece that retreats is written with its
/// square, an arrow and where it retreats to; one that does not, as a capture.
pub open spec fn option_text(o: ArcherOption) -> Seq<char> {
    symbol_of(o.piece) + match o.retreat_to {
        Some(r) => square_text(o.square) + "→"@ + square_text(r),
        None => "x"@ + square_text(o.square),
    }
}

/// The first `n` options but the chosen one, each after a ",".
pub open spec fn other_options_text(opts: Seq<ArcherOption>, chosen: int, n: int) -> Seq<char>
    decreases n,
{
    if n <= 0 {
        Seq::empty()
    } else {
        other_options_text(opts, chosen, n - 1) + if n - 1 == chosen {
            Seq::empty()
        } else {
            ","@ + option_text(opts[n - 1])
        }
    }
}

/// What follows "A" and the destination in an ambush.
pub open spec fn ambush_text(a: ArcherNotation) -> Seq<char> {
    match a {
        ArcherNotation::SingleCapture { victim, victim_sq } => ">"@ + capture_text(
            (victim, victim_sq),
        ),
        ArcherNotation::AutoCaptureAll { victims } => if victims@.len() == 0 {
            Seq::empty()
        } else {
            ">"@ + victims_text(victims@, victims@.len() as int)
        },
        ArcherNotation::ChooseCapture { chosen_index, options } => if options@.len() > 0
            && chosen_index < options@.len() {
            ">"@ + capture_text((options@[chosen_index as int].piece, options@[chosen_index as int].square))
                + other_options_text(options@, chosen_index as int, options@.len() as int)
        } else {
            Seq::empty()
        },
    }
}

#[verifier::rlimit(40)]
fn append_victims(s: &mut String, victims: &Vec<(PieceKind, Square)>)
    ensures
        final(s)@ == old(s)@ + victims_text(victims@, victims@.len() as int),
{
    let ghost start = s@;
    let n = victims.len();
    let mut i: usize = 0;
    while i < n
        invariant
            n == victims@.len(),
            i <= n,
            s@ == start + victims_text(victims@, i as int),
        decreases n - i,
    {
        if i > 0 {
            s.append(",");
        }
        let (victim, sq) = victims[i];
        s.append(piece_symbol(victim));
        s.append("x");
        let t = sq.to_string();
        s.append(t.as_str());
        i = i + 1;
    }
}

#[verifier::rlimit(40)]
fn append_other_options(s: &mut String, options: &Vec<ArcherOption>, chosen: usize)
    ensures
        final(s)@ == old(s)@ + other_options_text(options@, chosen as int, options@.len() as int),
{
    let ghost start = s@;
    let n = options.len();
    let mut i: usize = 0;
    proof {
        assert(start + Seq::<char>::empty() =~= start);
    }
    while i < n
        invariant
            n == options@.len(),
            i <= n,
            s@ == start + other_options_text(options@, chosen as int, i as int),
        decreases n - i,
    {
        if i != chosen {
            let opt = options[i];
            s.append(",");
            s.append(piece_symbol(opt.piece));
            match opt.retreat_to {
                Some(retreat_to) => {
                    let from = opt.square.to_string();
                    s.append(from.as_str());
                    s.append("→");
                    let dest = retreat_to.to_string();
                    s.append(dest.as_str());
                },
                None => {
                    s.append("x");
                    let at = opt.square.to_string();
                    s.append(at.as_str());
                },
            }
        }
        i = i + 1;
    }
}

fn append_ambush(s: &mut String, ambush: &ArcherNotation)
    ensures
        final(s)@ == old(s)@ + ambush_text(*ambush),
{
    match ambush {
        ArcherNotation::SingleCapture { victim, victim_sq } => {
            s.append(">");
            s.append(piece_symbol(*victim));
            s.append("x");
            let t = victim_sq.to_string();
            s.append(t.as_str());
        },
        ArcherNotation::AutoCaptureAll { victims } => {
            if victims.len() != 0 {
                s.append(">");
                append_victims(s, victims);
            }
        },
        ArcherNotation::ChooseCapture { chosen_index, options } => {
            if options.len() != 0 && *chosen_index < options.len() {
                let chosen = options[*chosen_index];
                s.append(">");
                s.append(piece_symbol(chosen.piece));
                s.append("x");
                let t = chosen.square.to_string();
                s.append(t.as_str());
                append_other_options(s, options, *chosen_index);
            }
        },
    }
}

// ---------------------------------------------------------------------------
// Move notation
// ---------------------------------------------------------------------------

/// The part of a move's notation before the terminal mark: a drop is the base
/// symbol, "*" and the destination; an ambush is "A", the destination and what
/// it captured; any other move is the symbol, "x" and the lower-case symbol of a
/// captured piece, the destination, and "+" for a promotion.
pub open spec fn move_body_text(
    mv: Move,
    moved_piece_after: PieceKind,
    captured_piece: Option<PieceKind>,
    ambush: Option<ArcherNotation>,
) -> Seq<char> {
    let to = square_text(Square(move_to_bits(mv) as u8));
    if move_drop_flag(mv) {
        symbol_of(base_of(moved_piece_after)) + "*"@ + to
    } else if ambush is Some {
        "A"@ + to + ambush_text(ambush->0)
    } else {
        symbol_of(moved_piece_after) + match captured_piece {
            Some(t) => "x"@ + lower_symbol_of(t),
            None => Seq::empty(),
        } + to + if move_promotion_flag(mv) {
            "+"@
        } else {
            Seq::empty()
        }
    }
}

/// The terminal mark, which takes priority over the check mark "%".
pub open spec fn end_mark_text(terminal: NotationTerminal, check: bool) -> Seq<char> {
    if terminal != NotationTerminal::Unmarked {
        terminal_text(terminal)
    } else if check {
        "%"@
    } else {
        Seq::empty()
    }
}

/// The full notation of a move: body, end mark, then the palace-curse suffix.
pub open spec fn move_notation_text(
    mv: Move,
    moved_piece_after: PieceKind,
    captured_piece: Option<PieceKind>,
    ambush: Option<ArcherNotation>,
    curse: Option<PalaceCurseNotation>,
    terminal: NotationTerminal,
    check: bool,
) -> Seq<char> {
    move_body_text(mv, moved_piece_after, captured_piece, ambush) + end_mark_text(terminal, check)
        + match curse {
        Some(c) => curse_text(c.groups@, c.groups@.len() as int),
        None => Seq::empty(),
    }
}

/// An optional reference read as an optional value.
pub open spec fn deref_opt<T>(o: Option<&T>) -> Option<T> {
    match o {
        Some(x) => Some(*x),
        None => None,
    }
}

/// Builds the notation of a move. The index of the chosen ambush option is read
/// from the archer record itself; the separate index is not used.
#[verifier::rlimit(40)]
pub fn generate_move_notation(
    mv: Move,
    moved_piece_after: PieceKind,
    captured_piece: Option<PieceKind>,
    ambush: Option<&ArcherNotation>,
    _chosen_ambush_index: usize,
    curse: Option<&PalaceCurseNotation>,
    terminal: NotationTerminal,
    check: bool,
) -> (s: String)
    ensures
        s@ == move_notation_text(
            mv,
            moved_piece_after,
            captured_piece,
            deref_opt(ambush),
            deref_opt(curse),
            terminal,
            check,
        ),
{
    let mut s = String::new();
    let to_str = mv.to_sq().to_string();

    if mv.is_drop() {
        s.append(piece_symbol(moved_piece_after.base_form()));
        s.append("*");
        s.append(to_str.as_str());
    } else {
        match ambush {
            Some(ambush_info) => {
                s.append("A");
                s.append(to_str.as_str());
                append_ambush(&mut s, ambush_info);
            },
            None => {
                s.append(piece_symbol(moved_piece_after));
                match captured_piece {
                    Some(target) => {
                        s.append("x");
                        let lower = piece_symbol_lower(target);
                        s.append(lower.as_str());
                    },
                    None => {},
                }
                s.append(to_str.as_str());
                if mv.is_promotion() {
                    s.append("+");
                }
            },
        }
    }
    let ghost body = s@;

    // a terminal mark takes priority over a plain check
    if terminal != NotationTerminal::Unmarked {
        s.append(terminal.as_str());
    } else if check {
        s.append("%");
    }
    let ghost marked = s@;

    match curse {
        Some(c) => {
            let suffix = append_curse_notation(c);
            s.append(suffix.as_str());
        },
        None => {},
    }
    proof {
        assert(body =~= move_body_text(mv, moved_piece_after, captured_piece, deref_opt(ambush)));
        assert(marked =~= body + end_mark_text(terminal, check));
    }
    s
}

impl Move {
    /// The notation of this move; see `generate_move_notation`.
    pub fn notation_with(
        self,
        moved_piece_after: PieceKind,
        captured_piece: Option<PieceKind>,
        ambush: Option<&ArcherNotation>,
        chosen_ambush_index: usize,
        curse: Option<&PalaceCurseNotation>,
        terminal: NotationTerminal,
        check: bool,
    ) -> (s: String)
        ensures
            s@ == move_notation_text(
                self,
                moved_piece_after,
                captured_piece,
                deref_opt(ambush),
                deref_opt(curse),
                terminal,
                check,
            ),
    {
        generate_move_notation(
            self,
            moved_piece_after,
            captured_piece,
            ambush,
            chosen_ambush_index,
            curse,
            terminal,
            check,
        )
    }
}

/// A promotion is marked by a "+" after the destination, whether or not the move
/// captures: the notation of a promoting move (neither a drop nor an ambush) is
/// the notation of the same move without promotion, followed by "+".
pub proof fn lemma_promotion_mark(
    from: int,
    to: int,
    piece: PieceKind,
    cap: Option<PieceKind>,
    moved_piece_after: PieceKind,
    captured_piece: Option<PieceKind>,
)
    requires
        0 <= from < 256,
        0 <= to < 256,
    ensures
        ({
            let code = capture_code(cap);
            let promoting = Move(
                move_code(from, to, kind_index(piece) as int, code, true, false) as u32,
            );
            let plain = Move(move_code(from, to, kind_index(piece) as int, code, false, false) as u32);
            move_notation_text(
                promoting,
                moved_piece_after,
                captured_piece,
                None,
                None,
                NotationTerminal::Unmarked,
                false,
            ) == move_notation_text(
                plain,
                moved_piece_after,
                captured_piece,
                None,
                None,
                NotationTerminal::Unmarked,
                false,
            ) + "+"@
        }),
{
    let code = capture_code(cap);
    crate::types::lemma_kind_index_roundtrip(piece);
    if let Some(c) = cap {
        crate::types::lemma_kind_index_roundtrip(c);
    }
    crate::types::lemma_move_roundtrip(from, to, kind_index(piece) as int, code, true, false);
    crate::types::lemma_move_roundtrip(from, to, kind_index(piece) as int, code, false, false);
    let promoting = Move(move_code(from, to, kind_index(piece) as int, code, true, false) as u32);
    let plain = Move(move_code(from, to, kind_index(piece) as int, code, false, false) as u32);
    assert(move_to_bits(promoting) == move_to_bits(plain));
    let body = move_body_text(plain, moved_piece_after, captured_piece, None);
    assert(move_body_text(promoting, moved_piece_after, captured_piece, None) == body + "+"@);
    assert(end_mark_text(NotationTerminal::Unmarked, false) == Seq::<char>::empty());
    assert(body + Seq::<char>::empty() + Seq::<char>::empty() =~= body);
    assert(body + "+"@ + Seq::<char>::empty() + Seq::<char>::empty() =~= body + "+"@);
}

/// A terminal mark replaces the check mark: once the move ends the game, whether
/// it also gives check changes nothing; without one, check adds "%" and nothing else.
pub proof fn lemma_terminal_beats_check(
    mv: Move,
    moved_piece_after: PieceKind,
    captured_piece: Option<PieceKind>,
    ambush: Option<ArcherNotation>,
    curse: Option<PalaceCurseNotation>,
    terminal: NotationTerminal,
)
    ensures
        terminal != NotationTerminal::Unmarked ==> move_notation_text(
            mv,
            moved_piece_after,
            captured_piece,
            ambush,
            curse,
            terminal,
            true,
        ) == move_notation_text(
            mv,
            moved_piece_after,
            captured_piece,
            ambush,
            curse,
            terminal,
            false,
        ),
        move_notation_text(
            mv,
            moved_piece_after,
            captured_piece,
            ambush,
            None,
            NotationTerminal::Unmarked,
            true,
        ) == move_notation_text(
            mv,
            moved_piece_after,
            captured_piece,
            ambush,
            None,
            NotationTerminal::Unmarked,
            false,
        ) + "%"@,
{
    let body = move_body_text(mv, moved_piece_after, captured_piece, ambush);
    assert(body + "%"@ + Seq::<char>::empty() =~= body + Seq::<char>::empty() + Seq::<char>::empty()
        + "%"@);
}

/// A drop is written the same whatever piece it records after the move, as long
/// as the base form agrees, and whatever capture or ambush is passed with it.
pub proof fn lemma_drop_notation(
    mv: Move,
    k1: PieceKind,
    k2: PieceKind,
    c1: Option<PieceKind>,
    c2: Option<PieceKind>,
    a1: Option<ArcherNotation>,
    a2: Option<ArcherNotation>,
)
    requires
        move_drop_flag(mv),
        base_of(k1) == base_of(k2),
    ensures
        move_notation_text(mv, k1, c1, a1, None, NotationTerminal::Unmarked, false)
            == move_notation_text(mv, k2, c2, a2, None, NotationTerminal::Unmarked, false),
{
}

} // verus!
