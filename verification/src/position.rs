//! The game position and the initial setup.
use vstd::prelude::*;
use crate::types::{
    Piece, PieceKind, Side, Square, PalaceState, SQUARES, FILES, kind_at, kind_index, piece_code,
    rank_of, file_of, piece_kind_bits, piece_side_of, lemma_piece_roundtrip,
    lemma_kind_index_roundtrip,
};
use crate::bitboard::Bitboard;
use crate::zobrist::{table, zobrist_keys, piece_key_index, piece_key_in};

verus! {

pub struct Position {
    pub board: [Piece; 169],
    pub pieces: [[Bitboard; 17]; 2],
    pub occupancy: [Bitboard; 2],
    pub side_to_move: Side,
    pub hash: u64,
    pub reserve: [[u8; 17]; 2],
    pub palace: [PalaceState; 2],
    pub fullmove: u32,
    pub halfmove: u32,
}

/// The kind on file `file` of a back rank.
pub open spec fn back_rank_kind(file: int) -> PieceKind {
    if file == 0 || file == 12 {
        PieceKind::Tower
    } else if file == 1 || file == 11 {
        PieceKind::Cannon
    } else if file == 2 || file == 10 {
        PieceKind::Horse
    } else if file == 3 || file == 9 {
        PieceKind::Priest
    } else if file == 4 || file == 8 {
        PieceKind::Elephant
    } else if file == 5 {
        PieceKind::General
    } else if file == 6 {
        PieceKind::King
    } else {
        PieceKind::Queen
    }
}

/// The kind on file `file` of the rank behind the pawns, if any: carriages on
/// files 1 and 11, the archer on file 6.
pub open spec fn second_rank_kind(file: int) -> Option<PieceKind> {
    if file == 1 || file == 11 {
        Some(PieceKind::Carriage)
    } else if file == 6 {
        Some(PieceKind::Archer)
    } else {
        None
    }
}

/// The piece that starts on square `i`: black on ranks 0-2, white on the mirrored
/// ranks 10-12, nothing elsewhere.
pub open spec fn initial_piece(i: int) -> Option<(PieceKind, Side)> {
    let r = rank_of(i);
    let f = file_of(i);
    if i < 0 || i >= SQUARES as int {
        None
    } else if r == 0 || r == 12 {
        Some((back_rank_kind(f), if r == 0 { Side::Black } else { Side::White }))
    } else if r == 1 || r == 11 {
        match second_rank_kind(f) {
            Some(k) => Some((k, if r == 1 { Side::Black } else { Side::White })),
            None => None,
        }
    } else if r == 2 || r == 10 {
        Some((PieceKind::Pawn, if r == 2 { Side::Black } else { Side::White }))
    } else {
        None
    }
}

/// The board byte of square `i` in the initial position.
pub open spec fn initial_board_piece(i: int) -> Piece {
    match initial_piece(i) {
        Some((k, s)) => Piece(piece_code(k, s) as u8),
        None => Piece(255),
    }
}

/// The squares where `kind` of `side` starts.
pub open spec fn initial_squares_of(kind: PieceKind, side: Side) -> Set<int> {
    Set::new(|i: int| initial_piece(i) == Some((kind, side)))
}

/// The squares where the pieces of `side` start.
pub open spec fn initial_squares_of_side(side: Side) -> Set<int> {
    Set::new(|i: int| initial_piece(i) matches Some((_k, s)) && s == side)
}

pub open spec fn side_at(s: int) -> Side {
    if s == 0 {
        Side::Black
    } else {
        Side::White
    }
}

/// The XOR of the keys of the pieces that start on the squares below `n`.
pub open spec fn initial_hash(keys: Seq<u64>, n: int) -> u64
    decreases n,
{
    if n <= 0 {
        0
    } else {
        let h = initial_hash(keys, n - 1);
        match initial_piece(n - 1) {
            Some((k, s)) => h ^ keys[piece_key_index(n - 1, k, s)],
            None => h,
        }
    }
}

fn back_rank_kind_at(file: usize) -> (k: PieceKind)
    ensures
        k == back_rank_kind(file as int),
{
    if file == 0 || file == 12 {
        PieceKind::Tower
    } else if file == 1 || file == 11 {
        PieceKind::Cannon
    } else if file == 2 || file == 10 {
        PieceKind::Horse
    } else if file == 3 || file == 9 {
        PieceKind::Priest
    } else if file == 4 || file == 8 {
        PieceKind::Elephant
    } else if file == 5 {
        PieceKind::General
    } else if file == 6 {
        PieceKind::King
    } else {
        PieceKind::Queen
    }
}

fn initial_piece_at(sq: usize) -> (p: Option<(PieceKind, Side)>)
    requires
        sq < SQUARES,
    ensures
        p == initial_piece(sq as int),
{
    let r = sq / FILES;
    let f = sq % FILES;
    if r == 0 || r == 12 {
        Some((back_rank_kind_at(f), if r == 0 { Side::Black } else { Side::White }))
    } else if r == 1 || r == 11 {
        let side = if r == 1 { Side::Black } else { Side::White };
        if f == 1 || f == 11 {
            Some((PieceKind::Carriage, side))
        } else if f == 6 {
            Some((PieceKind::Archer, side))
        } else {
            None
        }
    } else if r == 2 || r == 10 {
        Some((PieceKind::Pawn, if r == 2 { Side::Black } else { Side::White }))
    } else {
        None
    }
}

/// The XOR of the keys of the pieces on the first `n` squares of `board`, each
/// key taken at the square, kind and side that the board byte holds.
pub open spec fn board_hash(keys: Seq<u64>, board: Seq<Piece>, n: int) -> u64
    decreases n,
{
    if n <= 0 {
        0
    } else {
        let h = board_hash(keys, board, n - 1);
        let p = board[n - 1];
        if p.0 == 255 {
            h
        } else {
            h ^ keys[piece_key_index(n - 1, kind_at(piece_kind_bits(p)), piece_side_of(p))]
        }
    }
}

/// The initial board byte of a square is the packed piece of kind `k` and side `s`
/// exactly when `k` of `s` starts there.
proof fn lemma_initial_byte(i: int, k: PieceKind, s: Side)
    requires
        0 <= i < SQUARES,
    ensures
        initial_board_piece(i) == Piece(piece_code(k, s) as u8) <==> initial_piece(i) == Some((k, s)),
        initial_board_piece(i).0 == 255 <==> initial_piece(i) is None,
        initial_piece(i) matches Some((k1, s1)) ==> kind_at(piece_kind_bits(initial_board_piece(i)))
            == k1 && piece_side_of(initial_board_piece(i)) == s1,
{
    lemma_piece_roundtrip(k, s);
    lemma_kind_index_roundtrip(k);
    match initial_piece(i) {
        Some((k1, s1)) => {
            lemma_piece_roundtrip(k1, s1);
            lemma_kind_index_roundtrip(k1);
            if piece_code(k1, s1) == piece_code(k, s) {
                assert(kind_index(k1) == kind_index(k));
            }
        },
        None => {},
    }
}

/// Summing the keys over a board that holds the initial pieces gives the initial hash.
proof fn lemma_board_hash_initial(keys: Seq<u64>, board: Seq<Piece>, n: int)
    requires
        0 <= n <= SQUARES,
        board.len() == SQUARES,
        forall|i: int| 0 <= i < SQUARES ==> #[trigger] board[i] == initial_board_piece(i),
    ensures
        board_hash(keys, board, n) == initial_hash(keys, n),
    decreases n,
{
    if n > 0 {
        lemma_board_hash_initial(keys, board, n - 1);
        lemma_initial_byte(n - 1, PieceKind::King, Side::Black);
    }
}

impl Position {
    /// The initial position: black on ranks 0-2, white on ranks 10-12, the river
    /// empty, white to move, empty reserves, untouched palaces, move 1.
    pub fn new() -> (p: Self)
        ensures
            forall|i: int| 0 <= i < 169 ==> #[trigger] p.board[i] == initial_board_piece(i),
            forall|s: int, k: int|
                0 <= s < 2 && 0 <= k < 17 ==> (#[trigger] p.pieces[s][k])@ == initial_squares_of(
                    kind_at(k),
                    side_at(s),
                ),
            forall|s: int| 0 <= s < 2 ==> (#[trigger] p.occupancy[s])@ == initial_squares_of_side(side_at(s)),
            forall|s: int| 0 <= s < 2 ==> (#[trigger] p.occupancy[s]).on_board(),
            p.side_to_move == Side::White,
            forall|s: int, k: int|
                0 <= s < 2 && 0 <= k < 17 ==> (#[trigger] p.pieces[s][k]).on_board(),
            p.hash == initial_hash(zobrist_keys(), 169),
            // the fields agree with one another
            forall|s: int, k: int, i: int|
                0 <= s < 2 && 0 <= k < 17 && 0 <= i < 169 ==> (#[trigger] p.pieces[s][k]@.contains(i)
                    <==> p.board[i] == Piece(piece_code(kind_at(k), side_at(s)) as u8)),
            forall|s: int, i: int|
                0 <= s < 2 ==> (#[trigger] p.occupancy[s]@.contains(i) <==> exists|k: int|
                    0 <= k < 17 && p.pieces[s][k]@.contains(i)),
            p.occupancy[0]@.disjoint(p.occupancy[1]@),
            p.hash == board_hash(zobrist_keys(), p.board@, 169),
            forall|s: int, k: int| 0 <= s < 2 && 0 <= k < 17 ==> #[trigger] p.reserve[s][k] == 0,
            forall|s: int|
                0 <= s < 2 ==> #[trigger] p.palace[s] == (PalaceState {
                    invaded: false,
                    turns_remaining: 0,
                    cursed: false,
                }),
            p.fullmove == 1,
            p.halfmove == 0,
    {
        let keys = table();
        let empty = Bitboard::empty();
        let mut board: [Piece; 169] = [Piece(255); 169];
        let mut pieces: [[Bitboard; 17]; 2] = [[empty; 17]; 2];
        let mut occupancy: [Bitboard; 2] = [empty; 2];
        let mut hash: u64 = 0;
        let mut sq: usize = 0;
        while sq < SQUARES
            invariant
                sq <= SQUARES,
                keys@ == zobrist_keys(),
                keys@.len() == crate::zobrist::TABLE_SIZE,
                empty@ == Set::<int>::empty(),
                forall|i: int| 0 <= i < sq ==> #[trigger] board[i] == initial_board_piece(i),
                forall|i: int| sq <= i < 169 ==> #[trigger] board[i] == Piece(255),
                forall|s: int, k: int|
                    0 <= s < 2 && 0 <= k < 17 ==> (#[trigger] pieces[s][k])@ == initial_squares_of(
                        kind_at(k),
                        side_at(s),
                    ).intersect(vstd::set_lib::set_int_range(0, sq as int)),
                forall|s: int|
                    0 <= s < 2 ==> (#[trigger] occupancy[s])@ == initial_squares_of_side(
                        side_at(s),
                    ).intersect(vstd::set_lib::set_int_range(0, sq as int)),
                forall|s: int| 0 <= s < 2 ==> (#[trigger] occupancy[s]).on_board(),
                forall|s: int, k: int|
                    0 <= s < 2 && 0 <= k < 17 ==> (#[trigger] pieces[s][k]).on_board(),
                hash == initial_hash(zobrist_keys(), sq as int),
            decreases SQUARES - sq,
        {
            match initial_piece_at(sq) {
                Some((kind, side)) => {
                    board[sq] = Piece::new(kind, side);
                    let bb = Bitboard::from_square(Square(sq as u8));
                    let si = side.index();
                    let ki = kind.index();
                    let mut row = pieces[si];
                    row[ki] = row[ki] | bb;
                    pieces[si] = row;
                    occupancy[si] = occupancy[si] | bb;
                    hash = hash ^ piece_key_in(keys.as_slice(), Square(sq as u8), kind, side);
                },
                None => {},
            }
            proof {
                assert forall|s: int, k: int|
                    0 <= s < 2 && 0 <= k < 17 implies (#[trigger] pieces[s][k])@
                        == initial_squares_of(kind_at(k), side_at(s)).intersect(
                        vstd::set_lib::set_int_range(0, sq + 1),
                    ) by {
                    assert(pieces[s][k]@ =~= initial_squares_of(kind_at(k), side_at(s)).intersect(
                        vstd::set_lib::set_int_range(0, sq + 1),
                    ));
                }
                assert forall|s: int| 0 <= s < 2 implies (#[trigger] occupancy[s])@
                    == initial_squares_of_side(side_at(s)).intersect(
                    vstd::set_lib::set_int_range(0, sq + 1),
                ) by {
                    assert(occupancy[s]@ =~= initial_squares_of_side(side_at(s)).intersect(
                        vstd::set_lib::set_int_range(0, sq + 1),
                    ));
                }
            }
            sq = sq + 1;
        }
        proof {
            assert forall|s: int, k: int|
                0 <= s < 2 && 0 <= k < 17 implies (#[trigger] pieces[s][k])@ == initial_squares_of(
                kind_at(k),
                side_at(s),
            ) by {
                assert(pieces[s][k]@ =~= initial_squares_of(kind_at(k), side_at(s)));
            }
            assert forall|s: int| 0 <= s < 2 implies (#[trigger] occupancy[s])@
                == initial_squares_of_side(side_at(s)) by {
                assert(occupancy[s]@ =~= initial_squares_of_side(side_at(s)));
            }
        }
        let no_curse = PalaceState { invaded: false, turns_remaining: 0, cursed: false };
        let p = Position {
            board,
            pieces,
            occupancy,
            side_to_move: Side::White,
            hash,
            reserve: [[0u8; 17]; 2],
            palace: [no_curse; 2],
            fullmove: 1,
            halfmove: 0,
        };
        proof {
            assert forall|s: int, k: int, i: int|
                0 <= s < 2 && 0 <= k < 17 && 0 <= i < 169 implies (#[trigger] p.pieces[s][k]@.contains(i)
                    <==> p.board[i] == Piece(piece_code(kind_at(k), side_at(s)) as u8)) by {
                lemma_initial_byte(i, kind_at(k), side_at(s));
            }
            assert forall|s: int, i: int|
                0 <= s < 2 implies (#[trigger] p.occupancy[s]@.contains(i) <==> exists|k: int|
                    0 <= k < 17 && p.pieces[s][k]@.contains(i)) by {
                if p.occupancy[s]@.contains(i) {
                    let kk = (initial_piece(i)->0).0;
                    lemma_kind_index_roundtrip(kk);
                    assert(p.pieces[s][kind_index(kk) as int]@.contains(i));
                }
                if exists|k: int| 0 <= k < 17 && p.pieces[s][k]@.contains(i) {
                    let k = choose|k: int| 0 <= k < 17 && p.pieces[s][k]@.contains(i);
                    assert(p.pieces[s][k]@.contains(i));
                    assert(initial_piece(i) == Some((kind_at(k), side_at(s))));
                }
            }
            assert(p.occupancy[0]@.disjoint(p.occupancy[1]@));
            lemma_board_hash_initial(zobrist_keys(), p.board@, 169);
        }
        p
    }
}

/// In the initial position the occupancy of a side holds exactly the squares
/// whose board byte is a piece of that side, and that byte gives back the kind.
pub proof fn lemma_initial_board_matches_occupancy(i: int, side: Side)
    requires
        0 <= i < SQUARES,
    ensures
        initial_squares_of_side(side).contains(i) <==> (initial_board_piece(i).0 != 255
            && crate::types::piece_side_of(initial_board_piece(i)) == side),
        initial_piece(i) matches Some((k, s)) ==> kind_at(
            crate::types::piece_kind_bits(initial_board_piece(i)),
        ) == k && initial_squares_of(k, s).contains(i),
{
    match initial_piece(i) {
        Some((k, s)) => {
            crate::types::lemma_piece_roundtrip(k, s);
        },
        None => {},
    }
}

/// Each side starts with 29 pieces: a full back rank, two carriages and an
/// archer, and a full rank of pawns.
pub proof fn lemma_initial_piece_count(side: Side)
    ensures
        initial_squares_of_side(side).finite(),
        initial_squares_of_side(side).len() == 29,
{
    let back_row: int = match side {
        Side::Black => 0,
        Side::White => 156,
    };
    let pawn_row: int = match side {
        Side::Black => 26,
        Side::White => 130,
    };
    let second: int = match side {
        Side::Black => 13,
        Side::White => 143,
    };
    let a = vstd::set_lib::set_int_range(back_row, back_row + 13);
    let b = Set::<int>::empty().insert(second + 1).insert(second + 6).insert(second + 11);
    let c = vstd::set_lib::set_int_range(pawn_row, pawn_row + 13);
    vstd::set_lib::lemma_int_range(back_row, back_row + 13);
    vstd::set_lib::lemma_int_range(pawn_row, pawn_row + 13);
    assert(initial_squares_of_side(side) =~= a.union(b).union(c));
    assert(a.disjoint(b));
    vstd::set_lib::lemma_set_disjoint_lens(a, b);
    assert(a.union(b).disjoint(c));
    vstd::set_lib::lemma_set_disjoint_lens(a.union(b), c);
}

/// In the initial position the piece bitboards of a side split its occupancy:
/// a square of a kind is occupied by that side, and no square holds two kinds.
pub proof fn lemma_initial_pieces_split_occupancy(k1: PieceKind, k2: PieceKind, side: Side)
    ensures
        initial_squares_of(k1, side).subset_of(initial_squares_of_side(side)),
        k1 != k2 ==> initial_squares_of(k1, side).disjoint(initial_squares_of(k2, side)),
        forall|i: int|
            #[trigger] initial_squares_of_side(side).contains(i) ==> initial_squares_of(
                (initial_piece(i)->0).0,
                side,
            ).contains(i),
{
}

} // verus!
