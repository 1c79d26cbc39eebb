use weigong_engine::rules::river::river_step;
use weigong_engine::types::Square;

#[test]
fn pawn_forward_black_crosses_river() {
    let origin = Square::new(5, 6);
    let dest = river_step(origin, 1, 0).unwrap();
    assert_eq!(dest.rank(), 7);
    assert_eq!(dest.file(), 6);
}

#[test]
fn pawn_forward_white_crosses_river() {
    let origin = Square::new(7, 6);
    let dest = river_step(origin, -1, 0).unwrap();
    assert_eq!(dest.rank(), 5);
    assert_eq!(dest.file(), 6);
}

#[test]
fn pawn_capture_diagonal_black_crosses_river() {
    let origin = Square::new(5, 4);
    let dest = river_step(origin, 1, 1).unwrap();
    assert_eq!(dest.rank(), 7);
    assert_eq!(dest.file(), 5);
}

#[test]
fn pawn_capture_diagonal_white_crosses_river() {
    let origin = Square::new(7, 8);
    let dest = river_step(origin, -1, -1).unwrap();
    assert_eq!(dest.rank(), 5);
    assert_eq!(dest.file(), 7);
}

#[test]
fn crossbow_all_8_from_black_bank() {
    let origin = Square::new(5, 6);
    assert_eq!(river_step(origin, 1, 0).unwrap().rank(), 7);
    assert_eq!(river_step(origin, -1, 0).unwrap().rank(), 4);
    assert_eq!(river_step(origin, 0, 1).unwrap().rank(), 5);
    assert_eq!(river_step(origin, 0, -1).unwrap().rank(), 5);
    assert_eq!(river_step(origin, 1, 1).unwrap().rank(), 7);
    assert_eq!(river_step(origin, 1, -1).unwrap().rank(), 7);
    assert_eq!(river_step(origin, -1, 1).unwrap().rank(), 4);
    assert_eq!(river_step(origin, -1, -1).unwrap().rank(), 4);
}

#[test]
fn crossbow_all_8_from_white_bank() {
    let origin = Square::new(7, 6);
    assert_eq!(river_step(origin, -1, 0).unwrap().rank(), 5);
    assert_eq!(river_step(origin, 1, 0).unwrap().rank(), 8);
    assert_eq!(river_step(origin, 0, 1).unwrap().rank(), 7);
    assert_eq!(river_step(origin, 0, -1).unwrap().rank(), 7);
    assert_eq!(river_step(origin, -1, 1).unwrap().rank(), 5);
    assert_eq!(river_step(origin, -1, -1).unwrap().rank(), 5);
    assert_eq!(river_step(origin, 1, 1).unwrap().rank(), 8);
    assert_eq!(river_step(origin, 1, -1).unwrap().rank(), 8);
}

#[test]
fn fortress_forward_crosses_river() {
    let origin = Square::new(5, 3);
    let dest = river_step(origin, 1, 0).unwrap();
    assert_eq!(dest.rank(), 7);
}

#[test]
fn fortress_backward_2_skips_river() {
    let origin = Square::new(8, 3);
    let dest = river_step(origin, -2, 0).unwrap();
    assert_eq!(dest.rank(), 5);
}

#[test]
fn step_off_board_returns_none() {
    assert!(river_step(Square::new(0, 6), -1, 0).is_none()); // top
    assert!(river_step(Square::new(12, 6), 1, 0).is_none()); // bottom
    assert!(river_step(Square::new(5, 0), 0, -1).is_none()); // left
    assert!(river_step(Square::new(5, 12), 0, 1).is_none()); // right
}

#[test]
fn normal_step_unaffected_by_river() {
    let origin = Square::new(3, 6);
    let dest = river_step(origin, 1, 0).unwrap();
    assert_eq!(dest.rank(), 4);
}

// ---------------------------------------------------------------------------
// Further cases
// ---------------------------------------------------------------------------

#[test]
fn square_river_step_agrees_with_free_function() {
    for sq in 0..169u8 {
        for dr in -2i8..=2 {
            for df in -2i8..=2 {
                assert_eq!(Square::river_step(Square(sq), dr, df), river_step(Square(sq), dr, df));
            }
        }
    }
}

#[test]
fn single_steps_are_undone() {
    for sq in 0..169u8 {
        let origin = Square(sq);
        if origin.rank() == 6 {
            continue;
        }
        for dr in -1i8..=1 {
            for df in -1i8..=1 {
                if let Some(dest) = river_step(origin, dr, df) {
                    assert_ne!(dest.rank(), 6);
                    assert_eq!(river_step(dest, -dr, -df), Some(origin));
                }
            }
        }
    }
}

#[test]
fn sideways_step_on_the_river_stays_there() {
    let origin = Square::new(6, 4);
    assert_eq!(river_step(origin, 0, 1), Some(Square::new(6, 5)));
    // a step off the river skips nothing
    assert_eq!(river_step(origin, 1, 0), Some(Square::new(7, 4)));
}

#[test]
fn step_past_the_far_rank_after_skipping_is_none() {
    // from rank 5 two ranks up lands past the river on rank 7
    assert_eq!(river_step(Square::new(4, 0), 2, 0), Some(Square::new(7, 0)));
    assert!(river_step(Square::new(12, 0), 2, 0).is_none());
}
