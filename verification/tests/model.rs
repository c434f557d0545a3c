use qchess_bot::chess::{ChessMove, File, Rank, Role, Square};
use qchess_bot::encode::UciMoveId;
use qchess_bot::model::{Bitboards, BoardState, PLANES_LEN, batch_planes, board_planes, policy_id};

fn square(name: &str) -> Square {
    let bytes = name.as_bytes();
    Square::from_coords(File::new(bytes[0] - b'a'), Rank::new(bytes[1] - b'1'))
}

fn start() -> Bitboards {
    Bitboards {
        white: 0x0000_0000_0000_ffff,
        black: 0xffff_0000_0000_0000,
        pawns: 0x00ff_0000_0000_ff00,
        knights: 0x4200_0000_0000_0042,
        bishops: 0x2400_0000_0000_0024,
        rooks: 0x8100_0000_0000_0081,
        queens: 0x0800_0000_0000_0008,
        kings: 0x1000_0000_0000_0010,
    }
}

fn at(planes: &[u8], plane: usize, file: usize, rank: usize) -> u8 {
    planes[plane * 64 + file * 8 + rank]
}

#[test]
fn white_to_move_planes() {
    let state = BoardState { board: start(), black_to_move: false, ep_square: None };
    let planes = board_planes(&state);
    assert_eq!(planes.len(), PLANES_LEN);
    for file in 0..8 {
        assert_eq!(at(&planes, 0, file, 1), 1);
        assert_eq!(at(&planes, 6, file, 6), 1);
        assert_eq!(at(&planes, 0, file, 2), 0);
    }
    assert_eq!(at(&planes, 5, 4, 0), 1); // white king e1
    assert_eq!(at(&planes, 11, 4, 7), 1); // black king e8
    assert_eq!(at(&planes, 4, 3, 0), 1); // white queen d1
    assert_eq!(planes.iter().map(|x| *x as u32).sum::<u32>(), 32);
}

#[test]
fn black_to_move_sees_own_pieces_first() {
    let mut board = start();
    // 1. e4: the e2 pawn moves to e4
    board.white = (board.white & !(1 << 12)) | (1 << 28);
    board.pawns = (board.pawns & !(1 << 12)) | (1 << 28);
    let state = BoardState { board, black_to_move: true, ep_square: Some(square("e3")) };
    let planes = board_planes(&state);
    // black pawns, mirrored onto the second rank
    for file in 0..8 {
        assert_eq!(at(&planes, 0, file, 1), 1);
    }
    // black king e8 seen on e1
    assert_eq!(at(&planes, 5, 4, 0), 1);
    // the white pawn on e4 is seen on e5 among the opponent's pawns
    assert_eq!(at(&planes, 6, 4, 4), 1);
    assert_eq!(at(&planes, 6, 4, 6), 0);
    // the en passant square is not mirrored
    assert_eq!(at(&planes, 12, 4, 2), 1);
    assert_eq!(planes[12 * 64..].iter().map(|x| *x as u32).sum::<u32>(), 1);
}

#[test]
fn batch_concatenates_positions() {
    let white = BoardState { board: start(), black_to_move: false, ep_square: None };
    let black = BoardState { board: start(), black_to_move: true, ep_square: None };
    let batch = batch_planes(&vec![white, black]);
    assert_eq!(batch.len(), 2 * PLANES_LEN);
    assert_eq!(&batch[..PLANES_LEN], &board_planes(&white)[..]);
    assert_eq!(&batch[PLANES_LEN..], &board_planes(&black)[..]);
    // the start position looks the same from both sides
    assert_eq!(board_planes(&white), board_planes(&black));
    assert!(batch_planes(&vec![]).is_empty());
}

#[test]
fn policy_ids_are_seen_from_the_side_to_move() {
    let e5 = ChessMove::Normal { role: Role::Pawn, from: square("e7"), capture: None, to: square("e5"), promotion: None };
    let e4 = ChessMove::Normal { role: Role::Pawn, from: square("e2"), capture: None, to: square("e4"), promotion: None };
    assert_eq!(policy_id(&e5, true), policy_id(&e4, false));
    assert_eq!(policy_id(&e4, false), UciMoveId::new(681).unwrap());
    assert_eq!(policy_id(&e5, false).u16(), 718);
}
