use weigong_engine::notation::{
    append_curse_notation, generate_move_notation, ArcherNotation, ArcherOption,
    NotationTerminal, PalaceCurseNotation,
};
use weigong_engine::types::{Move, PieceKind, Square};

#[test]
fn notation_normal_move() {
    let mv = Move::new_normal(Square::new(12, 6), Square::new(11, 6), PieceKind::King, None, false);

    assert_eq!(
        mv.notation_with(PieceKind::King, None, None, 0, None, NotationTerminal::Unmarked, false),
        "Kg2"
    );
}

#[test]
fn notation_drop() {
    let mv = Move::new_drop(Square::new(6, 5), PieceKind::Pawn);

    assert_eq!(
        mv.notation_with(PieceKind::Pawn, None, None, 0, None, NotationTerminal::Unmarked, false),
        "p*f7"
    );
}

// ---------------------------------------------------------------------------
// Further cases
// ---------------------------------------------------------------------------

#[test]
fn notation_capture_promotion_and_check() {
    let mv = Move::new_normal(
        Square::new(3, 4),
        Square::new(2, 4),
        PieceKind::Pawn,
        Some(PieceKind::Carriage),
        true,
    );
    let s = generate_move_notation(
        mv,
        PieceKind::Crossbow,
        Some(PieceKind::Carriage),
        None,
        0,
        None,
        NotationTerminal::Unmarked,
        true,
    );
    assert_eq!(s, "Bxcae11+%");
}

#[test]
fn notation_terminal_beats_check() {
    let mv = Move::new_normal(Square::new(1, 0), Square::new(0, 0), PieceKind::Queen, None, false);
    let s = mv.notation_with(PieceKind::Queen, None, None, 0, None, NotationTerminal::PalaceMate, true);
    assert_eq!(s, "Qa13##");
    let s = mv.notation_with(PieceKind::Queen, None, None, 0, None, NotationTerminal::Checkmate, false);
    assert_eq!(s, "Qa13#");
}

#[test]
fn notation_drop_uses_base_form() {
    let mv = Move::new_drop(Square::new(8, 0), PieceKind::Pawn);
    let s = mv.notation_with(PieceKind::Crossbow, None, None, 0, None, NotationTerminal::Draw, false);
    assert_eq!(s, "p*a5=");
}

#[test]
fn terminal_marks() {
    assert_eq!(NotationTerminal::Unmarked.as_str(), "");
    assert_eq!(NotationTerminal::Checkmate.as_str(), "#");
    assert_eq!(NotationTerminal::PalaceMate.as_str(), "##");
    assert_eq!(NotationTerminal::Stalemate.as_str(), "^");
    assert_eq!(NotationTerminal::Draw.as_str(), "=");
    assert_eq!(NotationTerminal::DrawAgreement.as_str(), "==");
    assert_eq!(NotationTerminal::MoveLimitDraw.as_str(), "/");
    assert_eq!(NotationTerminal::default(), NotationTerminal::Unmarked);
}

#[test]
fn notation_single_ambush() {
    let mv = Move::new_normal(Square::new(1, 6), Square::new(3, 6), PieceKind::Archer, None, false);
    let ambush = ArcherNotation::SingleCapture { victim: PieceKind::Horse, victim_sq: Square::new(4, 7) };
    let s = mv.notation_with(PieceKind::Archer, None, Some(&ambush), 0, None, NotationTerminal::Unmarked, false);
    assert_eq!(s, "Ag10>Hxh9");
}

#[test]
fn notation_auto_capture_all() {
    let mv = Move::new_normal(Square::new(1, 6), Square::new(3, 6), PieceKind::Archer, None, false);
    let ambush = ArcherNotation::AutoCaptureAll {
        victims: vec![(PieceKind::Horse, Square::new(4, 7)), (PieceKind::Pawn, Square::new(4, 5))],
    };
    let s = mv.notation_with(PieceKind::Archer, None, Some(&ambush), 0, None, NotationTerminal::Unmarked, false);
    assert_eq!(s, "Ag10>Hxh9,pxf9");
    let none = ArcherNotation::AutoCaptureAll { victims: vec![] };
    let s = mv.notation_with(PieceKind::Archer, None, Some(&none), 0, None, NotationTerminal::Unmarked, false);
    assert_eq!(s, "Ag10");
}

#[test]
fn notation_choose_capture() {
    let mv = Move::new_normal(Square::new(1, 6), Square::new(3, 6), PieceKind::Archer, None, false);
    let options = vec![
        ArcherOption { piece: PieceKind::Horse, square: Square::new(4, 7), retreat_to: None },
        ArcherOption { piece: PieceKind::Tower, square: Square::new(4, 5), retreat_to: Some(Square::new(5, 5)) },
        ArcherOption { piece: PieceKind::Pawn, square: Square::new(4, 6), retreat_to: None },
    ];
    let ambush = ArcherNotation::ChooseCapture { chosen_index: 2, options: options.clone() };
    let s = mv.notation_with(PieceKind::Archer, None, Some(&ambush), 2, None, NotationTerminal::Unmarked, false);
    assert_eq!(s, "Ag10>pxg9,Hxh9,Tf9→f8");
    // an index out of range writes no capture
    let bad = ArcherNotation::ChooseCapture { chosen_index: 3, options };
    let s = mv.notation_with(PieceKind::Archer, None, Some(&bad), 3, None, NotationTerminal::Unmarked, false);
    assert_eq!(s, "Ag10");
}

#[test]
fn curse_suffix() {
    let curse = PalaceCurseNotation {
        groups: vec![
            vec![(PieceKind::Horse, Square::new(0, 5)), (PieceKind::Pawn, Square::new(1, 6))],
            vec![],
            vec![(PieceKind::Queen, Square::new(12, 7))],
        ],
    };
    assert_eq!(append_curse_notation(&curse), "&Hf13&pg12-&Qh1-");
    assert_eq!(append_curse_notation(&PalaceCurseNotation::default()), "");
    let mv = Move::new_normal(Square::new(1, 6), Square::new(1, 7), PieceKind::General, None, false);
    let s = mv.notation_with(PieceKind::General, None, None, 0, Some(&curse), NotationTerminal::Unmarked, true);
    assert_eq!(s, "Gh12%&Hf13&pg12-&Qh1-");
}
