# weigong_engine

Core of an engine for Weigong, a 13x13 board game with a river across rank 6,
palaces, promotions and drops from a reserve. The library is written in Verus:
every function carries a contract, and Verus proves all of them except the two
`count_ones` wrappers and the `rand` call behind the key table, whose contracts it trusts.

- `src/types.rs`: squares, sides, piece kinds, packed pieces and moves, move lists.
- `src/bitboard.rs`: 192-bit bitboards viewed as sets of squares; shifts, masks of
  ranks, files and board regions, and the laws of the board geometry.
- `src/rules/river.rs`: steps that skip the river.
- `src/zobrist.rs`: the Zobrist key table drawn from a seeded `rand::rngs::StdRng`.
- `src/position.rs`: the position and the initial setup.
- `src/notation.rs`: move notation, with archer ambushes and palace curses.
- `app/`: what stays outside the proofs: the floating-point training value of a
  result, and a key table kept once per process.
