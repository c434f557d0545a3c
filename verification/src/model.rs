//! What the policy network reads and writes, apart from the network itself:
//! the 13 planes of 8x8 squares that describe a position, and the output slot
//! of each move.

use vstd::prelude::*;

use crate::chess::{CastlingMode, ChessMove, Square};
use crate::encode::{UciMoveId, move_encodable, spec_from_uci};

verus! {

/// The pieces of a position as sets of squares: bit `file + 8 * rank` of a
/// board is set when the square holds a piece of that color or role.
#[derive(Debug, Clone, Copy, PartialEq, Eq, Structural)]
pub struct Bitboards {
    pub white: u64,
    pub black: u64,
    pub pawns: u64,
    pub knights: u64,
    pub bishops: u64,
    pub rooks: u64,
    pub queens: u64,
    pub kings: u64,
}

/// What the network is told of a position: the pieces, the side to move, and
/// the square a pawn may be taken on en passant.
#[derive(Debug, Clone, Copy, PartialEq, Eq, Structural)]
pub struct BoardState {
    pub board: Bitboards,
    pub black_to_move: bool,
    pub ep_square: Option<Square>,
}

/// The number of values describing one position: 13 planes of 64 squares.
pub const PLANES_LEN: usize = 832;

/// Whether bit `file + 8 * rank` of `b` is set.
pub open spec fn occupied(b: u64, file: int, rank: int) -> bool {
    (b >> ((file + 8 * rank) as u64)) & 1u64 == 1u64
}

/// The board of role `k`: pawns, knights, bishops, rooks, queens, kings for
/// `k` from 0 to 5.
pub open spec fn role_board(b: Bitboards, k: int) -> u64 {
    if k == 0 {
        b.pawns
    } else if k == 1 {
        b.knights
    } else if k == 2 {
        b.bishops
    } else if k == 3 {
        b.rooks
    } else if k == 4 {
        b.queens
    } else {
        b.kings
    }
}

/// Plane `p < 12` of pieces already seen from the side to move: planes 0 to
/// 5 the white pieces by role, 6 to 11 the black ones.
pub open spec fn side_plane(b: Bitboards, p: int) -> u64 {
    (if p < 6 {
        b.white
    } else {
        b.black
    }) & role_board(b, p % 6)
}

/// Whether square `(file, rank)` of plane `p` is set. The position is seen
/// from the side to move: when black is to move the board is mirrored
/// vertically and the colors are swapped. Planes 0 to 5 hold the pieces of the
/// side to move (pawns, knights, bishops, rooks, queens, kings), planes 6 to 11
/// those of the other side, and plane 12 the en passant square, which is not
/// mirrored.
pub open spec fn plane_bit(s: BoardState, p: int, file: int, rank: int) -> bool {
    if p < 12 {
        let seen_rank = if s.black_to_move {
            7 - rank
        } else {
            rank
        };
        let side = if (p < 6) != s.black_to_move {
            s.board.white
        } else {
            s.board.black
        };
        occupied(side, file, seen_rank) && occupied(role_board(s.board, p % 6), file, seen_rank)
    } else {
        s.ep_square matches Some(sq) && sq.file@ == file && sq.rank@ == rank
    }
}

/// The 832 values describing a position, plane by plane, then file by file,
/// then rank by rank: 1 where the square is set, 0 elsewhere.
pub open spec fn spec_planes(s: BoardState) -> Seq<u8> {
    Seq::new(
        832,
        |i: int|
            if plane_bit(s, i / 64, (i / 8) % 8, i % 8) {
                1u8
            } else {
                0u8
            },
    )
}

/// The values of several positions, one after the other.
pub open spec fn spec_batch_planes(states: Seq<BoardState>) -> Seq<u8>
    decreases states.len(),
{
    if states.len() == 0 {
        Seq::empty()
    } else {
        spec_batch_planes(states.drop_last()) + spec_planes(states.last())
    }
}

/// `t` is `s` with the colors exchanged and the board mirrored vertically.
pub open spec fn color_mirrored(s: Bitboards, t: Bitboards) -> bool {
    forall|f: int, r: int|
        0 <= f < 8 && 0 <= r < 8 ==> {
            &&& #[trigger] occupied(t.white, f, r) == occupied(s.black, f, 7 - r)
            &&& occupied(t.black, f, r) == occupied(s.white, f, 7 - r)
            &&& forall|k: int|
                0 <= k < 6 ==> #[trigger] occupied(role_board(t, k), f, r) == occupied(
                    role_board(s, k),
                    f,
                    7 - r,
                )
        }
}

/// The pieces are described the same way for a position and for its
/// color-reversed mirror image with the other side to move: the network
/// always sees the board from the side to move.
pub proof fn lemma_planes_color_symmetry(s: BoardState, t: BoardState)
    requires
        color_mirrored(s.board, t.board),
        t.black_to_move != s.black_to_move,
    ensures
        forall|p: int, f: int, r: int|
            0 <= p < 12 && 0 <= f < 8 && 0 <= r < 8 ==> #[trigger] plane_bit(s, p, f, r)
                == plane_bit(t, p, f, r),
{
    assert forall|p: int, f: int, r: int|
        0 <= p < 12 && 0 <= f < 8 && 0 <= r < 8 implies #[trigger] plane_bit(s, p, f, r)
        == plane_bit(t, p, f, r) by {
        let rs = if s.black_to_move {
            7 - r
        } else {
            r
        };
        let rt = if t.black_to_move {
            7 - r
        } else {
            r
        };
        assert(rt == 7 - rs);
        assert(occupied(t.board.white, f, rt) == occupied(s.board.black, f, 7 - rt));
        assert(occupied(role_board(t.board, p % 6), f, rt) == occupied(
            role_board(s.board, p % 6),
            f,
            7 - rt,
        ));
    }
}

/// A batch describes its positions in order: it holds 832 values per
/// position, and values `832 * j .. 832 * (j + 1)` are the planes of position
/// `j`.
pub proof fn lemma_batch_layout(states: Seq<BoardState>)
    ensures
        spec_batch_planes(states).len() == 832 * states.len(),
        forall|j: int|
            0 <= j < states.len() ==> #[trigger] spec_batch_planes(states).subrange(
                832 * j,
                832 * (j + 1),
            ) == spec_planes(states[j]),
    decreases states.len(),
{
    if states.len() > 0 {
        let prefix = states.drop_last();
        lemma_batch_layout(prefix);
        let whole = spec_batch_planes(states);
        let n = states.len() - 1;
        assert(whole == spec_batch_planes(prefix) + spec_planes(states.last()));
        assert forall|j: int| 0 <= j < states.len() implies #[trigger] whole.subrange(
            832 * j,
            832 * (j + 1),
        ) == spec_planes(states[j]) by {
            if j < n {
                assert(prefix[j] == states[j]);
                assert(whole.subrange(832 * j, 832 * (j + 1)) =~= spec_batch_planes(
                    prefix,
                ).subrange(832 * j, 832 * (j + 1)));
            } else {
                assert(whole.subrange(832 * j, 832 * (j + 1)) =~= spec_planes(states.last()));
            }
        }
    }
}

/// Plane 12 marks the en passant square, whichever side is to move: the value
/// at file `f`, rank `r` of plane 12 is 1 exactly when the position has an en
/// passant square on that file and rank, and 0 otherwise.
pub proof fn lemma_en_passant_plane(s: BoardState, f: int, r: int)
    requires
        0 <= f < 8,
        0 <= r < 8,
    ensures
        spec_planes(s)[768 + 8 * f + r] == (if s.ep_square matches Some(sq) && sq.file@ == f
            && sq.rank@ == r {
            1u8
        } else {
            0u8
        }),
{
    let i = 768 + 8 * f + r;
    assert(i / 64 == 12 && (i / 8) % 8 == f && i % 8 == r);
}

/// `shakmaty::Bitboard::flip_vertical`, which mirrors a bitboard vertically
/// (it reverses the order of the eight bytes): the square on file `f`, rank
/// `r` of the result is set exactly when file `f`, rank `7 - r` is set in `b`.
#[verifier::external_body]
fn flip_vertical(b: u64) -> (flipped: u64)
    ensures
        forall|f: int, r: int|
            0 <= f < 8 && 0 <= r < 8 ==> #[trigger] occupied(flipped, f, r) == occupied(b, f, 7 - r),
{
    shakmaty::Bitboard(b).flip_vertical().0
}

proof fn lemma_occupied_and(a: u64, b: u64, file: int, rank: int)
    requires
        0 <= file < 8,
        0 <= rank < 8,
    ensures
        occupied(a & b, file, rank) == (occupied(a, file, rank) && occupied(b, file, rank)),
{
    let s = (file + 8 * rank) as u64;
    assert(s < 64);
    assert(((a & b) >> s) & 1u64 == 1u64 <==> ((a >> s) & 1u64 == 1u64 && (b >> s) & 1u64 == 1u64))
        by (bit_vector);
}

/// The board of plane `p < 12` of the (already oriented) pieces: the side's
/// color intersected with the plane's role.
fn plane_board(board: &Bitboards, p: usize) -> (b: u64)
    requires
        p < 12,
    ensures
        b == side_plane(*board, p as int),
{
    let side = if p < 6 {
        board.white
    } else {
        board.black
    };
    let role = match p % 6 {
        0 => board.pawns,
        1 => board.knights,
        2 => board.bishops,
        3 => board.rooks,
        4 => board.queens,
        _ => board.kings,
    };
    side & role
}

/// The pieces seen from the side to move: for black, colors swapped and
/// every board mirrored vertically.
fn oriented(state: &BoardState) -> (b: Bitboards)
    ensures
        forall|p: int, f: int, r: int|
            0 <= p < 12 && 0 <= f < 8 && 0 <= r < 8 ==> #[trigger] occupied(
                side_plane(b, p),
                f,
                r,
            ) == plane_bit(*state, p, f, r),
{
    let board = state.board;
    let b = if state.black_to_move {
        Bitboards {
            white: flip_vertical(board.black),
            black: flip_vertical(board.white),
            pawns: flip_vertical(board.pawns),
            knights: flip_vertical(board.knights),
            bishops: flip_vertical(board.bishops),
            rooks: flip_vertical(board.rooks),
            queens: flip_vertical(board.queens),
            kings: flip_vertical(board.kings),
        }
    } else {
        board
    };
    assert forall|p: int, f: int, r: int|
        0 <= p < 12 && 0 <= f < 8 && 0 <= r < 8 implies #[trigger] occupied(
        side_plane(b, p),
        f,
        r,
    ) == plane_bit(*state, p, f, r) by {
        let side = if p < 6 {
            b.white
        } else {
            b.black
        };
        lemma_occupied_and(side, role_board(b, p % 6), f, r);
        if state.black_to_move {
            assert(occupied(role_board(b, p % 6), f, r) == occupied(
                role_board(board, p % 6),
                f,
                7 - r,
            ));
        }
    }
    b
}

/// The 832 values describing a position (see `spec_planes`).
pub fn board_planes(state: &BoardState) -> (planes: Vec<u8>)
    ensures
        planes@ == spec_planes(*state),
{
    let board = oriented(state);
    let mut planes: Vec<u8> = Vec::new();
    let mut i: usize = 0;
    while i < PLANES_LEN
        invariant
            i <= PLANES_LEN,
            planes@ == spec_planes(*state).take(i as int),
            forall|p: int, f: int, r: int|
                0 <= p < 12 && 0 <= f < 8 && 0 <= r < 8 ==> #[trigger] occupied(
                    side_plane(board, p),
                    f,
                    r,
                ) == plane_bit(*state, p, f, r),
        decreases PLANES_LEN - i,
    {
        let p = i / 64;
        let file = (i / 8) % 8;
        let rank = i % 8;
        let set = if p < 12 {
            let b = plane_board(&board, p);
            let square = (file + 8 * rank) as u64;
            let set = (b >> square) & 1 == 1;
            assert(set == occupied(side_plane(board, p as int), file as int, rank as int));
            set
        } else {
            match state.ep_square {
                Some(sq) => sq.file().index() as usize == file && sq.rank().index() as usize == rank,
                None => false,
            }
        };
        assert(set == plane_bit(*state, p as int, file as int, rank as int));
        planes.push(
            if set {
                1
            } else {
                0
            },
        );
        i += 1;
        assert(planes@ =~= spec_planes(*state).take(i as int));
    }
    assert(spec_planes(*state).take(832) =~= spec_planes(*state));
    planes
}

/// The values of several positions, one after the other, as the network takes
/// them in one batch.
pub fn batch_planes(states: &Vec<BoardState>) -> (planes: Vec<u8>)
    ensures
        planes@ == spec_batch_planes(states@),
{
    let mut planes: Vec<u8> = Vec::new();
    let mut i: usize = 0;
    while i < states.len()
        invariant
            i <= states@.len(),
            planes@ == spec_batch_planes(states@.take(i as int)),
        decreases states@.len() - i,
    {
        let mut one = board_planes(&states[i]);
        planes.append(&mut one);
        assert(states@.take(i as int + 1).drop_last() =~= states@.take(i as int));
        i += 1;
    }
    assert(states@.take(states@.len() as int) =~= states@);
    planes
}

/// The output slot of a move for the side to move: black's moves are mirrored
/// vertically first, since the network sees every position from the side to
/// move.
pub fn policy_id(m: &ChessMove, black_to_move: bool) -> (id: UciMoveId)
    requires
        move_encodable(
            if black_to_move {
                m.spec_to_mirrored()
            } else {
                *m
            },
        ),
    ensures
        spec_from_uci(
            (if black_to_move {
                m.spec_to_mirrored()
            } else {
                *m
            }).spec_to_uci(CastlingMode::Standard),
        ) == Some(id@),
{
    let seen = if black_to_move {
        m.to_mirrored()
    } else {
        *m
    };
    UciMoveId::from_move(&seen)
}

} // verus!
