use qchess_bot::chess::{CastlingMode, ChessMove, File, Rank, Role, Square, UciMove};
use qchess_bot::encode::{IllegalUciMoveError, UciMoveId, move_is_encodable, uci_is_encodable};
use shakmaty::{Chess, Position};

fn square(name: &str) -> Square {
    let bytes = name.as_bytes();
    Square::from_coords(File::new(bytes[0] - b'a'), Rank::new(bytes[1] - b'1'))
}

fn uci(text: &str) -> UciMove {
    let promotion = match text.as_bytes().get(4) {
        Some(b'n') => Some(Role::Knight),
        Some(b'b') => Some(Role::Bishop),
        Some(b'r') => Some(Role::Rook),
        Some(b'q') => Some(Role::Queen),
        Some(b'k') => Some(Role::King),
        Some(b'p') => Some(Role::Pawn),
        _ => None,
    };
    UciMove::Normal { from: square(&text[0..2]), to: square(&text[2..4]), promotion }
}

fn id_of(text: &str) -> Option<u16> {
    UciMoveId::from_uci(uci(text)).map(|id| id.u16())
}

#[test]
fn test_uci_match() {
    for n in 0..UciMoveId::TOTAL {
        let id = UciMoveId::new(n).unwrap();
        let id2 = UciMoveId::from_uci(id.to_uci()).unwrap();
        assert_eq!(id, id2);
    }
}

#[test]
fn new_accepts_ids_below_total_only() {
    assert_eq!(UciMoveId::new(0).map(|id| id.u16()), Some(0));
    assert_eq!(UciMoveId::new(1879).map(|id| id.u16()), Some(1879));
    assert!(UciMoveId::new(1880).is_none());
    assert!(UciMoveId::new(u16::MAX).is_none());
}

#[test]
fn ids_of_known_moves() {
    assert_eq!(id_of("e2e4"), Some(681));
    assert_eq!(id_of("e7e5"), Some(718));
    assert_eq!(id_of("g1f3"), Some(1780));
    assert_eq!(id_of("b1c3"), Some(1462));
    assert_eq!(id_of("e1g1"), Some(229));
    assert_eq!(id_of("e1c1"), Some(226));
    assert_eq!(id_of("a1a2"), Some(448));
    assert_eq!(id_of("h8h1"), Some(889));
    assert_eq!(id_of("a1h8"), Some(1014));
    assert_eq!(id_of("d1h5"), Some(1139));
    assert_eq!(id_of("h1a8"), Some(1294));
    assert_eq!(id_of("a8h1"), Some(1337));
}

#[test]
fn ids_of_promotions() {
    assert_eq!(id_of("a7a8q"), Some(1795));
    assert_eq!(id_of("b7a8n"), Some(1852));
    assert_eq!(id_of("a7b8r"), Some(1826));
    assert_eq!(id_of("h7h8b"), Some(1821));
    assert_eq!(id_of("g7h8q"), Some(1851));
    // only files count: a black promotion shares the id of the white one
    assert_eq!(id_of("h2h1q"), Some(1823));
    assert_eq!(id_of("a2a1q"), Some(1795));
}

#[test]
fn moves_without_id() {
    assert_eq!(id_of("a1b4"), None);
    assert_eq!(id_of("e2e2"), None);
    assert!(UciMoveId::from_uci(UciMove::Null).is_none());
    assert!(UciMoveId::from_uci(UciMove::Put { role: Role::Queen, to: square("f7") }).is_none());
}

#[test]
fn ids_decode_to_moves() {
    assert_eq!(UciMoveId::new(681).unwrap().to_uci(), uci("e2e4"));
    assert_eq!(UciMoveId::new(1780).unwrap().to_uci(), uci("g1f3"));
    assert_eq!(UciMoveId::new(1795).unwrap().to_uci(), uci("a7a8q"));
    assert_eq!(UciMoveId::new(1014).unwrap().to_uci(), uci("a1h8"));
    assert_eq!(UciMoveId::new(1337).unwrap().to_uci(), uci("a8h1"));
    assert_eq!(UciMoveId::new(0).unwrap().to_uci(), uci("a1b1"));
    assert_eq!(UciMoveId::new(1879).unwrap().to_uci(), uci("h7g8q"));
}

#[test]
fn canonical_moves_decode_back() {
    for text in ["e2e4", "g1f3", "e1g1", "b7a8n", "h8h1", "d1h5", "c2c1q"] {
        let u = uci(text);
        if text == "c2c1q" {
            // a promotion onto the first rank decodes to the seventh-rank one
            assert_eq!(UciMoveId::from_uci(u).unwrap().to_uci(), uci("c7c8q"));
        } else {
            assert_eq!(UciMoveId::from_uci(u).unwrap().to_uci(), u);
        }
    }
}

#[test]
fn encodable_checks() {
    assert!(uci_is_encodable(&uci("a7a8q")));
    assert!(!uci_is_encodable(&uci("a7a8k")));
    assert!(!uci_is_encodable(&uci("a7a8p")));
    assert!(uci_is_encodable(&UciMove::Null));
    let castle = ChessMove::Castle { king: square("e1"), rook: square("h1") };
    assert!(move_is_encodable(&castle));
    let drop = ChessMove::Put { role: Role::Knight, to: square("e4") };
    assert!(!move_is_encodable(&drop));
}

#[test]
fn castling_is_written_as_king_move() {
    let short = ChessMove::Castle { king: square("e1"), rook: square("h1") };
    let long = ChessMove::Castle { king: square("e8"), rook: square("a8") };
    assert_eq!(short.to_uci(CastlingMode::Standard), uci("e1g1"));
    assert_eq!(long.to_uci(CastlingMode::Standard), uci("e8c8"));
    assert_eq!(short.to_uci(CastlingMode::Chess960), uci("e1h1"));
    assert_eq!(UciMoveId::from_move(&short).u16(), 229);
}

#[test]
fn from_move_uses_from_and_to() {
    let m = ChessMove::Normal {
        role: Role::Knight,
        from: square("g1"),
        capture: None,
        to: square("f3"),
        promotion: None,
    };
    assert_eq!(UciMoveId::from_move(&m).u16(), 1780);
    let ep = ChessMove::EnPassant { from: square("e5"), to: square("d6") };
    assert_eq!(UciMoveId::from_move(&ep), UciMoveId::from_uci(uci("e5d6")).unwrap());
}

#[test]
fn mirrored_moves() {
    let m = ChessMove::Normal {
        role: Role::Pawn,
        from: square("e7"),
        capture: None,
        to: square("e5"),
        promotion: None,
    };
    let mirrored = m.to_mirrored();
    assert_eq!(
        mirrored,
        ChessMove::Normal { role: Role::Pawn, from: square("e2"), capture: None, to: square("e4"), promotion: None }
    );
    assert_eq!(mirrored.to_mirrored(), m);
}

#[test]
fn to_move_checks_legality() {
    let pos = Chess::default();
    let e4 = UciMoveId::from_uci(uci("e2e4")).unwrap();
    let m = e4.to_move(&pos).unwrap();
    assert_eq!(m.to().to_string(), "e4");
    let after = pos.clone().play(m).unwrap();
    assert_eq!(after.fullmoves().get(), 1);
    let e5 = UciMoveId::from_uci(uci("e2e5")).unwrap();
    assert_eq!(e5.to_move(&pos).unwrap_err(), IllegalUciMoveError);
    let nf3 = UciMoveId::new(1780).unwrap();
    let m = nf3.to_move(&pos).unwrap();
    assert_eq!(m.from().unwrap().to_string(), "g1");
    assert_eq!(m.to().to_string(), "f3");
    // a legal move of the position is given back for its own id
    let after = pos.clone().play(m).unwrap();
    let e5 = UciMoveId::from_uci(uci("e7e5")).unwrap();
    assert_eq!(e5.to_move(&after).unwrap().to().to_string(), "e5");
}

#[test]
fn squares_and_coordinates() {
    let sq = Square::new(12);
    assert_eq!(sq, square("e2"));
    assert_eq!(sq.index(), 12);
    assert_eq!(sq.file().index(), 4);
    assert_eq!(sq.rank().index(), 1);
    assert_eq!(sq.flip_vertical(), square("e7"));
    assert_eq!(Role::Queen.index(), 4);
}
