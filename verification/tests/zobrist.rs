use rand::{Rng, SeedableRng};
use std::collections::HashSet;
use weigong_engine::types::{PieceKind, Side, Square};
use weigong_engine::zobrist;

#[test]
fn table_has_correct_size() {
    let table = zobrist::table();
    // SQUARES * PieceKind::COUNT * 2 (board) + PieceKind::COUNT * 2 (reserve) + 1 (side)
    let expected = 169 * 17 * 2 + 17 * 2 + 1;
    assert_eq!(table.len(), expected);
}

#[test]
fn table_no_zeros() {
    let table = zobrist::table();
    assert!(table.iter().any(|&x| x != 0));
}

#[test]
fn table_all_unique() {
    let table = zobrist::table();
    let set: HashSet<u64> = table.iter().copied().collect();
    assert_eq!(set.len(), table.len());
}

#[test]
fn piece_key_same_result_twice() {
    // same input must always return same key
    let k1 = zobrist::piece_key(Square::new(0, 0), PieceKind::King, Side::Black);
    let k2 = zobrist::piece_key(Square::new(0, 0), PieceKind::King, Side::Black);
    assert_eq!(k1, k2);
}

#[test]
fn piece_key_different_squares() {
    // different squares must give different keys
    let k1 = zobrist::piece_key(Square::new(0, 0), PieceKind::Tower, Side::Black);
    let k2 = zobrist::piece_key(Square::new(1, 0), PieceKind::Tower, Side::Black);
    assert_ne!(k1, k2);
}

#[test]
fn piece_key_different_sides() {
    // same square and piece but different side must give different keys
    let k1 = zobrist::piece_key(Square::new(0, 0), PieceKind::Tower, Side::Black);
    let k2 = zobrist::piece_key(Square::new(0, 0), PieceKind::Tower, Side::White);
    assert_ne!(k1, k2);
}

#[test]
fn reserve_key_same_result_twice() {
    let k1 = zobrist::reserve_key(PieceKind::Pawn, Side::Black);
    let k2 = zobrist::reserve_key(PieceKind::Pawn, Side::Black);
    assert_eq!(k1, k2);
}

#[test]
fn reserve_key_different_from_piece_key() {
    // reserve key must not collide with board piece key
    let board = zobrist::piece_key(Square::new(0, 0), PieceKind::Pawn, Side::Black);
    let reserve = zobrist::reserve_key(PieceKind::Pawn, Side::Black);
    assert_ne!(board, reserve);
}

#[test]
fn side_key_nonzero() {
    assert_ne!(zobrist::side_key(), 0);
}

#[test]
fn xor_is_reversible() {
    // XORing the same key twice gives the hash back
    let mut hash = 0u64;
    let key = zobrist::piece_key(Square::new(5, 5), PieceKind::Horse, Side::White);
    hash ^= key;
    hash ^= key;
    assert_eq!(hash, 0);
}

// ---------------------------------------------------------------------------
// Further cases
// ---------------------------------------------------------------------------

#[test]
fn keys_come_from_their_table_entries() {
    let table = zobrist::table();
    let sq = Square::new(7, 3);
    let idx = sq.0 as usize * 34 + PieceKind::Cannon.index() * 2 + Side::White.index();
    assert_eq!(zobrist::piece_key(sq, PieceKind::Cannon, Side::White), table[idx]);
    let idx = 169 * 34 + PieceKind::Queen.index() * 2 + Side::Black.index();
    assert_eq!(zobrist::reserve_key(PieceKind::Queen, Side::Black), table[idx]);
    assert_eq!(zobrist::side_key(), table[table.len() - 1]);
}

#[test]
fn table_is_the_same_every_time() {
    assert_eq!(zobrist::table(), zobrist::table());
}

#[test]
fn table_matches_seeded_std_rng() {
    let mut rng = rand::rngs::StdRng::seed_from_u64(0x5765_6967_6F6E_6700);
    let table = zobrist::table();
    for k in table.iter().take(100) {
        assert_eq!(*k, rng.gen::<u64>());
    }
}

#[test]
fn lookups_in_a_given_table() {
    let table = zobrist::table();
    let sq = Square::new(2, 9);
    assert_eq!(
        zobrist::piece_key_in(&table, sq, PieceKind::Wisdom, Side::Black),
        zobrist::piece_key(sq, PieceKind::Wisdom, Side::Black)
    );
    assert_eq!(
        zobrist::reserve_key_in(&table, PieceKind::Archer, Side::White),
        zobrist::reserve_key(PieceKind::Archer, Side::White)
    );
    let small = [7u64, 8, 9];
    assert_eq!(zobrist::piece_key_in(&small, Square(0), PieceKind::Queen, Side::Black), 9);
}
