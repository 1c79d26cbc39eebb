//! Zobrist keys: one random 64-bit key per (square, kind, side), per reserve
//! (kind, side), and one for the side to move, drawn from a seeded `StdRng`.
use vstd::prelude::*;
use crate::types::{Square, Side, PieceKind, SQUARES, kind_index, side_index};

verus! {

/// Keys for the board, then for the reserve, then the side-to-move key.
pub const TABLE_SIZE: usize = SQUARES * PieceKind::COUNT * 2 + PieceKind::COUNT * 2 + 1;

/// The seed of the key table ("Weigong").
pub const ZOBRIST_SEED: u64 = 0x5765_6967_6F6E_6700;

/// The first `count` values that `gen::<u64>()` returns, one after another, from a
/// `rand::rngs::StdRng` made by `seed_from_u64(seed)`.
pub uninterp spec fn std_rng_u64_stream(seed: u64, count: nat) -> Seq<u64>;

/// `StdRng::seed_from_u64(seed)` followed by `count` draws of `u64` from the
/// `Standard` distribution (what `gen::<u64>()` draws). The contract claims that
/// the values are the named stream for `seed` and that there are `count` of them.
#[verifier::external_body]
fn seeded_u64_stream(seed: u64, count: usize) -> (keys: Vec<u64>)
    ensures
        keys@ == std_rng_u64_stream(seed, count as nat),
        keys@.len() == count,
{
    let rng = <rand::rngs::StdRng as rand::SeedableRng>::seed_from_u64(seed);
    rand::Rng::sample_iter(rng, rand::distributions::Standard).take(count).collect()
}

/// The key table.
pub open spec fn zobrist_keys() -> Seq<u64> {
    std_rng_u64_stream(ZOBRIST_SEED, TABLE_SIZE as nat)
}

/// Where the key of `kind` of `side` on square `sq` stands in the table.
pub open spec fn piece_key_index(sq: int, kind: PieceKind, side: Side) -> int {
    sq * (PieceKind::COUNT as int) * 2 + kind_index(kind) * 2 + side_index(side)
}

/// Where the key of `kind` of `side` in the reserve stands in the table.
pub open spec fn reserve_key_index(kind: PieceKind, side: Side) -> int {
    SQUARES as int * PieceKind::COUNT as int * 2 + kind_index(kind) * 2 + side_index(side)
}

/// Where the side-to-move key stands in the table.
pub open spec fn side_key_index() -> int {
    TABLE_SIZE as int - 1
}

/// The whole key table, drawn afresh from the seeded generator.
pub fn table() -> (t: Vec<u64>)
    ensures
        t@ == zobrist_keys(),
        t@.len() == TABLE_SIZE,
{
    seeded_u64_stream(ZOBRIST_SEED, TABLE_SIZE)
}

/// The key of `piece` of `side` on `sq`, looked up in a key table `keys`.
pub fn piece_key_in(keys: &[u64], sq: Square, piece: PieceKind, side: Side) -> (k: u64)
    requires
        piece_key_index(sq.0 as int, piece, side) < keys@.len(),
    ensures
        k == keys@[piece_key_index(sq.0 as int, piece, side)],
{
    let idx = sq.0 as usize * PieceKind::COUNT * 2 + piece.index() * 2 + side.index();
    keys[idx]
}

/// The key of `piece` of `side` in the reserve, looked up in a key table `keys`.
pub fn reserve_key_in(keys: &[u64], piece: PieceKind, side: Side) -> (k: u64)
    requires
        reserve_key_index(piece, side) < keys@.len(),
    ensures
        k == keys@[reserve_key_index(piece, side)],
{
    let idx = SQUARES * PieceKind::COUNT * 2 + piece.index() * 2 + side.index();
    keys[idx]
}

/// The key of `piece` of `side` on `sq`. Squares up to 170 index the table; the
/// ones past the board reach into the reserve keys.
pub fn piece_key(sq: Square, piece: PieceKind, side: Side) -> (k: u64)
    requires
        piece_key_index(sq.0 as int, piece, side) < TABLE_SIZE,
    ensures
        k == zobrist_keys()[piece_key_index(sq.0 as int, piece, side)],
{
    let t = table();
    piece_key_in(t.as_slice(), sq, piece, side)
}

/// The key of `piece` of `side` held in the reserve.
pub fn reserve_key(piece: PieceKind, side: Side) -> (k: u64)
    ensures
        k == zobrist_keys()[reserve_key_index(piece, side)],
{
    let t = table();
    reserve_key_in(t.as_slice(), piece, side)
}

/// The key for the side to move.
pub fn side_key() -> (k: u64)
    ensures
        k == zobrist_keys()[side_key_index()],
{
    let t = table();
    t[TABLE_SIZE - 1]
}

/// The table gives every (square, kind, side) of the board, every (kind, side)
/// of the reserve and the side to move an entry of its own.
pub proof fn lemma_key_indices_distinct(
    sq1: int,
    k1: PieceKind,
    s1: Side,
    sq2: int,
    k2: PieceKind,
    s2: Side,
)
    requires
        0 <= sq1 < SQUARES,
        0 <= sq2 < SQUARES,
    ensures
        0 <= piece_key_index(sq1, k1, s1) < reserve_key_index(k2, s2) < side_key_index() < TABLE_SIZE,
        piece_key_index(sq1, k1, s1) == piece_key_index(sq2, k2, s2) ==> sq1 == sq2 && k1 == k2 && s1
            == s2,
        reserve_key_index(k1, s1) == reserve_key_index(k2, s2) ==> k1 == k2 && s1 == s2,
{
    crate::types::lemma_kind_index_roundtrip(k1);
    crate::types::lemma_kind_index_roundtrip(k2);
    let a = piece_key_index(sq1, k1, s1);
    let b = piece_key_index(sq2, k2, s2);
    if a == b {
        assert(sq1 * 34 + (kind_index(k1) * 2 + side_index(s1)) == sq2 * 34 + (kind_index(k2) * 2
            + side_index(s2)));
        assert(sq1 == sq2);
        assert(kind_index(k1) == kind_index(k2));
    }
}

/// Toggling a key into a hash twice leaves the hash as it was.
pub proof fn lemma_xor_toggle(hash: u64, key: u64)
    ensures
        (hash ^ key) ^ key == hash,
        hash ^ 0 == hash,
{
    assert((hash ^ key) ^ key == hash && hash ^ 0 == hash) by (bit_vector);
}

} // verus!
