//! Steps across the river.
use vstd::prelude::*;
use crate::types::{Square, river_step_spec, rank_of, file_of, RIVER_RANK, SQUARES};

verus! {

/// A step of `(d_rank, d_file)` from `origin` that skips the river: a step that
/// would stop on the river rank continues one rank further the same way.
pub fn river_step(origin: Square, d_rank: i8, d_file: i8) -> (res: Option<Square>)
    ensures
        res == river_step_spec(origin, d_rank as int, d_file as int),
{
    Square::river_step(origin, d_rank, d_file)
}

/// A step lands on the board, and never on the river unless it neither moves
/// rank nor starts there.
pub proof fn lemma_river_step_lands_on_board(origin: Square, d_rank: int, d_file: int)
    ensures
        river_step_spec(origin, d_rank, d_file) matches Some(sq) ==> {
            &&& sq.0 < SQUARES
            &&& file_of(sq.0 as int) == file_of(origin.0 as int) + d_file
            &&& (rank_of(sq.0 as int) == RIVER_RANK as int ==> d_rank == 0 && rank_of(
                origin.0 as int,
            ) == RIVER_RANK as int)
        },
{
}

/// A step of at most one rank, from a square of the board off the river, is
/// undone by the opposite step.
pub proof fn lemma_river_step_undo(origin: Square, d_rank: int, d_file: int)
    requires
        origin.0 < SQUARES,
        rank_of(origin.0 as int) != RIVER_RANK as int,
        -1 <= d_rank <= 1,
        river_step_spec(origin, d_rank, d_file) is Some,
    ensures
        river_step_spec(river_step_spec(origin, d_rank, d_file)->0, -d_rank, -d_file) == Some(
            origin,
        ),
{
}

} // verus!
