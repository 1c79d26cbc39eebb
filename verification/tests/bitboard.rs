use weigong_engine::bitboard::{
    bank_bb, black_palace, black_side, file_bb, own_side_bb, palace_bb, promotion_zone_bb,
    rank_bb, river, square_bb, white_palace, white_side, Bitboard,
};
use weigong_engine::types::{Side, Square, FILES, RANKS, SQUARES};

#[test]
fn bitboard_empty_is_empty() {
    assert!(Bitboard::empty().is_empty());
    assert_eq!(Bitboard::empty().popcount(), 0);
}

#[test]
fn bitboard_square_roundtrip() {
    for i in 0..SQUARES {
        let sq = Square(i as u8);
        let bb = Bitboard::from_square(sq);
        assert_eq!(bb.popcount(), 1);
        assert!(bb.contains(sq));
        assert!(!bb.contains(Square(((i + 1) % SQUARES) as u8)));
    }
}

#[test]
fn bitboard_rank_mask_has_13_bits() {
    for rank in 0..RANKS {
        assert_eq!(rank_bb(rank).popcount(), FILES as u32, "rank {} should have 13 squares", rank);
    }
}

#[test]
fn bitboard_file_mask_has_13_bits() {
    for file in 0..FILES {
        assert_eq!(file_bb(file).popcount(), RANKS as u32, "file {} should have 13 squares", file);
    }
}

#[test]
fn bitboard_all_squares_covered() {
    let mut all = Bitboard::empty();
    for rank in 0..RANKS {
        all |= rank_bb(rank);
    }
    assert_eq!(all.popcount(), SQUARES as u32);
}

#[test]
fn bitboard_palace_has_9_squares() {
    assert_eq!(black_palace().popcount(), 9);
    assert_eq!(white_palace().popcount(), 9);
}

#[test]
fn bitboard_palaces_do_not_overlap() {
    assert!((black_palace() & white_palace()).is_empty());
}

#[test]
fn bitboard_shift_south_moves_rank() {
    let rank0 = rank_bb(0);
    let shifted = rank0.shift_south();
    assert_eq!(shifted, rank_bb(1));
}

#[test]
fn bitboard_shift_north_moves_rank() {
    let rank5 = rank_bb(5);
    let shifted = rank5.shift_north();
    assert_eq!(shifted, rank_bb(4));
}

#[test]
fn bitboard_shift_east_no_wrap() {
    // a square on file 12 must not reappear on file 0 when shifted east
    let bb = Bitboard::from_square(Square::new(0, 12));
    let shifted = bb.shift_east();
    assert!(shifted.is_empty(), "shift_east en file 12 debe dar vacío");
}

#[test]
fn bitboard_shift_west_no_wrap() {
    let bb = Bitboard::from_square(Square::new(0, 0));
    let shifted = bb.shift_west();
    assert!(shifted.is_empty(), "shift_west en file 0 debe dar vacío");
}

#[test]
fn bitboard_pop_lsb_iterates_all() {
    let mut bb = black_palace();
    let mut count = 0;
    while let Some(_sq) = bb.pop_lsb() {
        count += 1;
    }
    assert_eq!(count, 9);
    assert!(bb.is_empty());
}

#[test]
fn bitboard_sides_do_not_overlap_with_river() {
    // black side, river and white side are disjoint and cover all squares
    let total = (black_side() | river() | white_side()).popcount();
    assert_eq!(total, SQUARES as u32);
    assert!((black_side() & white_side()).is_empty());
    assert!((black_side() & river()).is_empty());
    assert!((white_side() & river()).is_empty());
}

#[test]
fn print_board_sides() {
    println!("\n=== BOARD LAYOUT ===");
    println!("     a b c d e f g h i j k l m");
    for rank in 0..RANKS {
        let rank_num = RANKS - rank;
        let mut line = format!("  {:2} ", rank_num);
        for file in 0..FILES {
            let sq = Square::new(rank, file);
            let ch = if black_palace().contains(sq) {
                'B'
            } else if white_palace().contains(sq) {
                'W'
            } else if river().contains(sq) {
                '~'
            } else if black_side().contains(sq) {
                'b'
            } else if white_side().contains(sq) {
                'w'
            } else {
                '?'
            };
            line.push(ch);
            line.push(' ');
        }
        println!("{}", line);
    }
    println!();
    println!("  B = black palace  W = white palace");
    println!("  b = black side    w = white side");
    println!("  ~ = river");
}

// ---------------------------------------------------------------------------
// Further cases
// ---------------------------------------------------------------------------

#[test]
fn shift_west_carries_from_hi_to_lo() {
    // square 128 (rank 9, file 11) moves west to square 127 (rank 9, file 10)
    let bb = Bitboard::from_square(Square(128));
    let shifted = bb.shift_west();
    assert_eq!(shifted, Bitboard::from_square(Square(127)));
}

#[test]
fn shift_east_carries_from_lo_to_hi() {
    let bb = Bitboard::from_square(Square(127));
    assert_eq!(bb.shift_east(), Bitboard::from_square(Square(128)));
}

#[test]
fn shift_south_and_north_cross_the_word_boundary() {
    // rank 9 straddles the two words (squares 117..130)
    assert_eq!(rank_bb(9).shift_south(), rank_bb(10));
    assert_eq!(rank_bb(10).shift_north(), rank_bb(9));
    assert_eq!(rank_bb(8).shift_south(), rank_bb(9));
    assert!(rank_bb(12).shift_south().is_empty());
    assert!(rank_bb(0).shift_north().is_empty());
}

#[test]
fn shifts_undo_each_other_off_the_edge() {
    let bb = black_palace() | white_palace() | Bitboard::from_square(Square::new(12, 3));
    let back = bb.shift_south().shift_north();
    assert_eq!(back, bb & !rank_bb(12));
    let back = bb.shift_east().shift_west();
    assert_eq!(back, bb & !file_bb(12));
}

#[test]
fn rank_masks_past_the_board_are_empty() {
    assert!(rank_bb(13).is_empty());
    assert!(rank_bb(14).is_empty());
}

#[test]
fn rank_mask_exact_words() {
    assert_eq!(rank_bb(0), Bitboard { lo: 0x1FFF, hi: 0 });
    assert_eq!(rank_bb(9), Bitboard { lo: !0u128 << 117, hi: 0x3 });
    assert_eq!(rank_bb(12), Bitboard { lo: 0, hi: 0x1FFF << 28 });
}

#[test]
fn file_mask_squares() {
    let f = file_bb(3);
    for rank in 0..RANKS {
        assert!(f.contains(Square::new(rank, 3)));
        assert!(!f.contains(Square::new(rank, 4)));
    }
}

#[test]
fn lsb_and_pop_lsb_go_lowest_first() {
    let mut bb = Bitboard::from_square(Square(150)) | Bitboard::from_square(Square(7))
        | Bitboard::from_square(Square(127));
    assert_eq!(bb.lsb(), Some(Square(7)));
    assert_eq!(bb.pop_lsb(), Some(Square(7)));
    assert_eq!(bb.popcount(), 2);
    assert_eq!(bb.pop_lsb(), Some(Square(127)));
    assert_eq!(bb.lsb(), Some(Square(150)));
    assert_eq!(bb.pop_lsb(), Some(Square(150)));
    assert_eq!(bb.pop_lsb(), None);
    assert_eq!(bb.lsb(), None);
}

#[test]
fn iter_visits_squares_in_order() {
    let mut it = black_palace().iter();
    let mut seen = Vec::new();
    while let Some(sq) = it.next() {
        seen.push(sq.0);
    }
    assert_eq!(seen, vec![5, 6, 7, 18, 19, 20, 31, 32, 33]);
}

#[test]
fn operators_are_set_operations() {
    let a = rank_bb(3) | rank_bb(4);
    let b = file_bb(2);
    assert_eq!((a & b).popcount(), 2);
    assert_eq!((a | b).popcount(), 26 + 13 - 2);
    assert_eq!((a ^ b).popcount(), 26 + 13 - 4);
    assert_eq!((!a).popcount(), 169 - 26);
    assert_eq!(!Bitboard::empty(), black_side() | river() | white_side());
    let mut c = a;
    c &= b;
    assert_eq!(c, a & b);
    let mut d = a;
    d ^= b;
    assert_eq!(d, a ^ b);
}

#[test]
fn region_masks_agree_with_square_predicates() {
    for i in 0..SQUARES {
        let sq = Square(i as u8);
        for side in [Side::Black, Side::White] {
            assert_eq!(bank_bb(side).contains(sq), sq.is_bank(side));
            assert_eq!(palace_bb(side).contains(sq), sq.is_palace(side));
            assert_eq!(promotion_zone_bb(side).contains(sq), sq.is_promotion_zone(side));
            assert_eq!(own_side_bb(side).contains(sq), sq.is_own_side(side));
        }
    }
}

#[test]
fn square_mask_is_single_square() {
    assert_eq!(square_bb(Square(130)), Bitboard { lo: 0, hi: 4 });
    assert_eq!(square_bb(Square(3)), Bitboard { lo: 8, hi: 0 });
}

#[test]
fn contains_squares_beyond_the_board() {
    // bits 169..191 exist in the words but are not squares of the board
    let bb = Bitboard { lo: 0, hi: 1 << 50 };
    assert!(bb.contains(Square(178)));
    assert_eq!(bb.popcount(), 1);
}

#[test]
fn grid_picture() {
    let text = black_palace().grid_string();
    let lines: Vec<&str> = text.lines().collect();
    assert_eq!(lines.len(), 15);
    assert_eq!(lines[0], "Bitboard {");
    assert_eq!(lines[1], "  rank  0 |.....XXX.....|");
    assert_eq!(lines[3], "  rank  2 |.....XXX.....|");
    assert_eq!(lines[4], "  rank  3 |.............|");
    assert_eq!(lines[13], "  rank 12 |.............|");
    assert_eq!(lines[14], "}");
    assert!(!text.ends_with('\n'));
}
