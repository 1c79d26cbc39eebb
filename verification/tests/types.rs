use weigong_engine::types::{
    GameResult, Move, MoveList, PalaceState, Piece, PieceKind, Side, Square, SQUARES,
};

const ALL_KINDS: [PieceKind; 17] = [
    PieceKind::King,
    PieceKind::Queen,
    PieceKind::General,
    PieceKind::Elephant,
    PieceKind::Priest,
    PieceKind::Horse,
    PieceKind::Cannon,
    PieceKind::Tower,
    PieceKind::Carriage,
    PieceKind::Archer,
    PieceKind::Pawn,
    PieceKind::Fortress,
    PieceKind::Wisdom,
    PieceKind::Steed,
    PieceKind::Artillery,
    PieceKind::Barricade,
    PieceKind::Crossbow,
];

#[test]
fn square_coordinates() {
    let sq = Square::new(11, 6);
    assert_eq!(sq.0, 149);
    assert_eq!(sq.rank(), 11);
    assert_eq!(sq.file(), 6);
    assert!(sq.is_valid());
    assert!(!Square(169).is_valid());
    assert!(!Square::none().is_valid());
    assert_eq!(Square::none().0, 255);
}

#[test]
fn square_names() {
    assert_eq!(Square::new(12, 6).to_string(), "g1");
    assert_eq!(Square::new(0, 0).to_string(), "a13");
    assert_eq!(Square::new(3, 12).to_string(), "m10");
    assert_eq!(Square(169).to_string(), "??");
}

#[test]
fn square_regions() {
    let s = Square::new(5, 3);
    assert!(s.is_own_side(Side::Black));
    assert!(!s.is_own_side(Side::White));
    assert!(s.is_bank(Side::Black));
    assert!(!s.is_bank(Side::White));
    assert!(Square::new(7, 0).is_bank(Side::White));
    let river = Square::new(6, 6);
    assert!(!river.is_own_side(Side::Black) && !river.is_own_side(Side::White));
    assert!(Square::new(1, 6).is_palace(Side::Black));
    assert!(!Square::new(1, 4).is_palace(Side::Black));
    assert!(Square::new(11, 7).is_palace(Side::White));
    assert!(!Square::new(9, 6).is_palace(Side::White));
    assert!(Square::new(10, 0).is_promotion_zone(Side::Black));
    assert!(Square::new(2, 0).is_promotion_zone(Side::White));
    assert!(!Square::new(3, 0).is_promotion_zone(Side::White));
}

#[test]
fn square_river_step_method() {
    assert_eq!(Square::river_step(Square::new(5, 6), 1, 0), Some(Square::new(7, 6)));
    assert_eq!(Square::river_step(Square::new(0, 0), -1, 0), None);
}

#[test]
fn sides() {
    assert_eq!(Side::Black.opponent(), Side::White);
    assert_eq!(Side::White.opponent(), Side::Black);
    assert_eq!(Side::Black.forward(), 1);
    assert_eq!(Side::White.forward(), -1);
    assert_eq!(Side::Black.index(), 0);
    assert_eq!(Side::White.index(), 1);
    assert_eq!(Side::Black.to_string(), "black");
    assert_eq!(Side::White.to_string(), "white");
}

#[test]
fn piece_kinds() {
    for (i, k) in ALL_KINDS.iter().enumerate() {
        assert_eq!(k.index(), i);
        assert_eq!(PieceKind::from_index(i as u8), *k);
        assert_eq!(k.can_promote(), k.promoted_form().is_some());
        if let Some(p) = k.promoted_form() {
            assert_eq!(p.base_form(), *k);
        }
        assert_eq!(k.base_form().base_form(), k.base_form());
    }
    assert_eq!(PieceKind::COUNT, 17);
    assert_eq!(PieceKind::BASE_COUNT, 11);
    assert_eq!(PieceKind::Elephant.promoted_form(), Some(PieceKind::Fortress));
    assert_eq!(PieceKind::King.promoted_form(), None);
    assert_eq!(PieceKind::Steed.base_form(), PieceKind::Horse);
    assert_eq!(PieceKind::Queen.base_form(), PieceKind::Queen);
    assert!(PieceKind::Crossbow.is_reusable());
    assert!(PieceKind::General.is_reusable());
    assert!(!PieceKind::Queen.is_reusable());
    assert!(!PieceKind::Archer.can_cross_river());
    assert!(!PieceKind::Carriage.can_cross_river());
    assert!(PieceKind::Pawn.can_cross_river());
    assert_eq!(PieceKind::King.kanji(), "王");
    assert_eq!(PieceKind::Barricade.kanji(), "𨐌");
    assert_eq!(PieceKind::Crossbow.kanji(), "弩");
}

#[test]
fn pieces_pack_kind_and_side() {
    for k in ALL_KINDS {
        for s in [Side::Black, Side::White] {
            let p = Piece::new(k, s);
            assert_eq!(p.kind(), k);
            assert_eq!(p.side(), s);
            assert!(!p.is_none());
        }
    }
    assert_eq!(Piece::new(PieceKind::Pawn, Side::White).0, 10 | 32);
    assert_eq!(Piece::new(PieceKind::Pawn, Side::White).index(), 42);
    assert!(Piece::none().is_none());
}

#[test]
fn moves_pack_their_fields() {
    let mv = Move::new_normal(
        Square::new(3, 4),
        Square::new(2, 4),
        PieceKind::Pawn,
        Some(PieceKind::Queen),
        true,
    );
    assert_eq!(mv.0, 43 | (30 << 8) | (10 << 16) | (1 << 21) | (1 << 26));
    assert_eq!(mv.from_sq(), Square::new(3, 4));
    assert_eq!(mv.to_sq(), Square::new(2, 4));
    assert_eq!(mv.piece(), PieceKind::Pawn);
    assert_eq!(mv.captured(), Some(PieceKind::Queen));
    assert!(mv.is_capture());
    assert!(mv.is_promotion());
    assert!(!mv.is_drop());
    assert!(!mv.is_null());

    let quiet = Move::new_normal(Square(0), Square(1), PieceKind::King, None, false);
    assert_eq!(quiet.captured(), None);
    assert!(!quiet.is_capture());
    assert!(!quiet.is_promotion());

    let drop = Move::new_drop(Square::new(6, 5), PieceKind::Tower);
    assert_eq!(drop.0, 255 | (83 << 8) | (7 << 16) | (31 << 21) | (1 << 27));
    assert_eq!(drop.from_sq(), Square(255));
    assert_eq!(drop.to_sq(), Square(83));
    assert_eq!(drop.piece(), PieceKind::Tower);
    assert!(drop.is_drop());
    assert!(!drop.is_capture());

    assert!(Move::null().is_null());
    assert_eq!(Move::null().0, 0);
}

#[test]
fn move_list_holds_moves_in_order() {
    let mut list = MoveList::new();
    assert!(list.is_empty());
    assert_eq!(list.len(), 0);
    let a = Move::new_drop(Square(10), PieceKind::Pawn);
    let b = Move::new_normal(Square(1), Square(2), PieceKind::Horse, None, false);
    list.push(a);
    list.push(b);
    assert_eq!(list.len(), 2);
    assert!(!list.is_empty());
    assert_eq!(list.as_slice(), &[a, b]);
    list.as_mut_slice()[0] = b;
    assert_eq!(list.as_slice(), &[b, b]);
    let d = MoveList::default();
    assert_eq!(d.len(), 0);
}

#[test]
fn move_list_fills_to_capacity() {
    let mut list = MoveList::new();
    for i in 0..256u32 {
        list.push(Move(i));
    }
    assert_eq!(list.len(), 256);
    assert_eq!(list.as_slice()[255], Move(255));
}

#[test]
fn plain_records() {
    let s = PalaceState::default();
    assert!(!s.invaded && !s.cursed);
    assert_eq!(s.turns_remaining, 0);
    assert_ne!(GameResult::Win(Side::Black), GameResult::Draw);
    assert_eq!(SQUARES, 169);
}
