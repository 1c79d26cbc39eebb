//! Core of the Weigong engine: board geometry, pieces and moves, bitboards,
//! move notation, Zobrist keys and the initial position.
pub mod types;
pub mod bitboard;
pub mod zobrist;
pub mod position;
pub mod rules;
pub mod notation;
