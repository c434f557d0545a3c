//! Numbering of the moves a policy network can choose among.
//!
//! Every queen-like or knight-like move between two squares, and every
//! promotion of a pawn from the seventh to the eighth rank, gets an id in
//! `0..1880`:
//!
//! | ids          | moves                                               |
//! |--------------|-----------------------------------------------------|
//! | `0..448`     | along a rank: 56 per file, 7 per rank of the start  |
//! | `448..896`   | along a file                                        |
//! | `896..1176`  | along a diagonal (file - rank constant)             |
//! | `1176..1456` | along an anti-diagonal (file + rank constant)       |
//! | `1456..1792` | knight jumps, 42 per direction                      |
//! | `1792..1880` | promotions, 4 pieces for each of 22 file pairs      |

use vstd::prelude::*;

use shakmaty::Chess;

use crate::chess::{CastlingMode, File, ChessMove, Rank, Role, Square, UciMove, square_at};

verus! {

/// `b` counted among the seven values of `0..8` other than `a`.
pub open spec fn skip(a: int, b: int) -> int {
    if b > a {
        b - 1
    } else {
        b
    }
}

/// The value of `0..8` other than `a` that is counted `s` (inverse of `skip`).
pub open spec fn unskip(a: int, s: int) -> int {
    if s >= a {
        s + 1
    } else {
        s
    }
}

pub open spec fn min_int(a: int, b: int) -> int {
    if a <= b {
        a
    } else {
        b
    }
}

pub open spec fn max_int(a: int, b: int) -> int {
    if a >= b {
        a
    } else {
        b
    }
}

pub open spec fn abs_int(a: int) -> int {
    if a >= 0 {
        a
    } else {
        -a
    }
}

/// First id of the diagonal whose squares have `file - rank == d` (`-6 <= d <= 6`).
/// A diagonal of `n` squares holds `n * (n - 1)` moves.
pub open spec fn diagonal_base(d: int) -> int {
    if d == -6 {
        896
    } else if d == -5 {
        898
    } else if d == -4 {
        904
    } else if d == -3 {
        916
    } else if d == -2 {
        936
    } else if d == -1 {
        966
    } else if d == 0 {
        1008
    } else if d == 1 {
        1064
    } else if d == 2 {
        1106
    } else if d == 3 {
        1136
    } else if d == 4 {
        1156
    } else if d == 5 {
        1168
    } else {
        1174
    }
}

/// First id of the anti-diagonal whose squares have `file + rank == s` (`1 <= s <= 13`).
pub open spec fn anti_diagonal_base(s: int) -> int {
    diagonal_base(7 - s) + 280
}

/// The index of a knight jump by `(df, dr)` among the eight directions, in the
/// order `(1, 2)`, `(2, 1)`, `(2, -1)`, `(1, -2)`, `(-1, -2)`, `(-2, -1)`, `(-2, 1)`, `(-1, 2)`.
pub open spec fn knight_direction(df: int, dr: int) -> Option<int> {
    if df == 1 && dr == 2 {
        Some(0)
    } else if df == 2 && dr == 1 {
        Some(1)
    } else if df == 2 && dr == -1 {
        Some(2)
    } else if df == 1 && dr == -2 {
        Some(3)
    } else if df == -1 && dr == -2 {
        Some(4)
    } else if df == -2 && dr == -1 {
        Some(5)
    } else if df == -2 && dr == 1 {
        Some(6)
    } else if df == -1 && dr == 2 {
        Some(7)
    } else {
        None
    }
}

/// The file step of knight direction `k`.
pub open spec fn knight_df(k: int) -> int {
    if k == 0 || k == 3 {
        1
    } else if k == 1 || k == 2 {
        2
    } else if k == 4 || k == 7 {
        -1
    } else {
        -2
    }
}

/// The rank step of knight direction `k`.
pub open spec fn knight_dr(k: int) -> int {
    if k == 0 || k == 7 {
        2
    } else if k == 1 || k == 6 {
        1
    } else if k == 2 || k == 5 {
        -1
    } else {
        -2
    }
}

/// The id of a move from `(ff, fr)` to `(tf, tr)` (files and ranks as indices)
/// that promotes nothing, or `None` when the move is neither queen-like nor
/// knight-like.
///
/// Within each group the moves are ordered by start square and then by target:
/// a rank move is `56 * ff + 7 * fr` plus the target file counted among the
/// seven others; a diagonal move is the diagonal's base plus
/// `x * (n - 1) + skip(x, y)` where `x` and `y` are the positions of start and
/// target along the diagonal of `n` squares; a knight jump is its direction's
/// base plus the start square counted among those where the jump stays on the
/// board, file-major.
pub open spec fn move_code(ff: int, fr: int, tf: int, tr: int) -> Option<int> {
    let df = tf - ff;
    let dr = tr - fr;
    if df == 0 && dr == 0 {
        None
    } else if dr == 0 {
        Some(56 * ff + 7 * fr + skip(ff, tf))
    } else if df == 0 {
        Some(448 + 56 * ff + 7 * fr + skip(fr, tr))
    } else if df == dr {
        let d = ff - fr;
        let x = min_int(ff, fr);
        let y = min_int(tf, tr);
        Some(diagonal_base(d) + x * (7 - abs_int(d)) + skip(x, y))
    } else if df == -dr {
        let s = ff + fr;
        let x = min_int(fr, 7 - ff);
        let y = min_int(tr, 7 - tf);
        Some(anti_diagonal_base(s) + x * (7 - abs_int(s - 7)) + skip(x, y))
    } else {
        match knight_direction(df, dr) {
            Some(k) => Some(
                1456 + 42 * k + (ff - max_int(-df, 0)) * (8 - abs_int(dr)) + (fr - max_int(-dr, 0)),
            ),
            None => None,
        }
    }
}

/// The index of a piece a pawn may promote to: knight 0, bishop 1, rook 2, queen 3.
pub open spec fn promotion_index(role: Role) -> Option<int> {
    match role {
        Role::Knight => Some(0),
        Role::Bishop => Some(1),
        Role::Rook => Some(2),
        Role::Queen => Some(3),
        _ => None,
    }
}

/// The piece with the given promotion index.
pub open spec fn promotion_role(p: int) -> Role {
    if p == 0 {
        Role::Knight
    } else if p == 1 {
        Role::Bishop
    } else if p == 2 {
        Role::Rook
    } else {
        Role::Queen
    }
}

/// The id of a promotion from file `ff` to file `tf` to the piece with index `p`.
/// Only the files count: `ff` itself for a straight push, `8 + ff` for a
/// capture towards the h-file, `14 + ff` for a capture towards the a-file.
pub open spec fn promotion_code(ff: int, tf: int, p: int) -> int {
    let file_id = if ff == tf {
        ff
    } else if ff < tf {
        8 + ff
    } else {
        14 + ff
    };
    1792 + 4 * file_id + p
}

/// A UCI move the numbering accepts without failing: any move but a
/// promotion to a pawn or a king.
pub open spec fn uci_encodable(u: UciMove) -> bool {
    match u {
        UciMove::Normal { promotion: Some(role), .. } => promotion_index(role) is Some,
        _ => true,
    }
}

/// The id of a UCI move, or `None` for drops, the null move, and moves that are
/// neither queen-like nor knight-like.
pub open spec fn spec_from_uci(u: UciMove) -> Option<int> {
    match u {
        UciMove::Normal { from, to, promotion } => match promotion {
            Some(role) => match promotion_index(role) {
                Some(p) => Some(promotion_code(from.file@, to.file@, p)),
                None => None,
            },
            None => move_code(from.file@, from.rank@, to.file@, to.rank@),
        },
        _ => None,
    }
}

/// A move without promotion between the given coordinates.
pub open spec fn plain_move(ff: int, fr: int, tf: int, tr: int) -> UciMove {
    UciMove::Normal { from: square_at(ff, fr), to: square_at(tf, tr), promotion: None }
}

/// The diagonal (`file - rank`) that holds the id, for `896 <= id < 1176`.
pub open spec fn diagonal_of(id: int) -> int {
    if id < 898 {
        -6
    } else if id < 904 {
        -5
    } else if id < 916 {
        -4
    } else if id < 936 {
        -3
    } else if id < 966 {
        -2
    } else if id < 1008 {
        -1
    } else if id < 1064 {
        0
    } else if id < 1106 {
        1
    } else if id < 1136 {
        2
    } else if id < 1156 {
        3
    } else if id < 1168 {
        4
    } else if id < 1174 {
        5
    } else {
        6
    }
}

/// The rank move with id `id`, for `0 <= id < 448`.
pub open spec fn decode_rank_move(id: int) -> UciMove {
    let f = id / 56;
    let r = (id / 7) % 8;
    plain_move(f, r, unskip(f, id % 7), r)
}

/// The file move with id `448 + k`, for `0 <= k < 448`.
pub open spec fn decode_file_move(k: int) -> UciMove {
    let f = k / 56;
    let r = (k / 7) % 8;
    plain_move(f, r, f, unskip(r, k % 7))
}

/// The diagonal move with id `id`, for `896 <= id < 1176`.
pub open spec fn decode_diagonal_move(id: int) -> UciMove {
    let d = diagonal_of(id);
    let n = 7 - abs_int(d);
    let k = id - diagonal_base(d);
    let x = k / n;
    let y = unskip(x, k % n);
    let f0 = max_int(d, 0);
    let r0 = max_int(-d, 0);
    plain_move(x + f0, x + r0, y + f0, y + r0)
}

/// The anti-diagonal move with id `id`, for `1176 <= id < 1456`.
pub open spec fn decode_anti_diagonal_move(id: int) -> UciMove {
    let s = 7 - diagonal_of(id - 280);
    let n = 7 - abs_int(s - 7);
    let k = id - anti_diagonal_base(s);
    let x = k / n;
    let y = unskip(x, k % n);
    let f0 = min_int(s, 7);
    let r0 = max_int(s - 7, 0);
    plain_move(f0 - x, r0 + x, f0 - y, r0 + y)
}

/// The knight jump with id `1456 + j`, for `0 <= j < 336`.
pub open spec fn decode_knight_move(j: int) -> UciMove {
    let k = j / 42;
    let i = j % 42;
    let df = knight_df(k);
    let dr = knight_dr(k);
    let w = 8 - abs_int(dr);
    let x = i / w + max_int(-df, 0);
    let y = i % w + max_int(-dr, 0);
    plain_move(x, y, x + df, y + dr)
}

/// The promotion with id `1792 + k`, for `0 <= k < 88`: from the seventh
/// rank to the eighth.
pub open spec fn decode_promotion(k: int) -> UciMove {
    let file_id = k / 4;
    let ff = if file_id < 8 {
        file_id
    } else if file_id < 15 {
        file_id - 8
    } else {
        file_id - 14
    };
    let tf = if file_id < 8 {
        file_id
    } else if file_id < 15 {
        file_id - 7
    } else {
        file_id - 15
    };
    UciMove::Normal {
        from: square_at(ff, 6),
        to: square_at(tf, 7),
        promotion: Some(promotion_role(k % 4)),
    }
}

/// The move with the given id, for `0 <= id < 1880`.
pub open spec fn spec_to_uci(id: int) -> UciMove {
    if id < 448 {
        decode_rank_move(id)
    } else if id < 896 {
        decode_file_move(id - 448)
    } else if id < 1176 {
        decode_diagonal_move(id)
    } else if id < 1456 {
        decode_anti_diagonal_move(id)
    } else if id < 1792 {
        decode_knight_move(id - 1456)
    } else {
        decode_promotion(id - 1792)
    }
}

proof fn lemma_square_at(f: int, r: int)
    requires
        0 <= f < 8,
        0 <= r < 8,
    ensures
        square_at(f, r).file@ == f,
        square_at(f, r).rank@ == r,
{
}

proof fn lemma_rank_moves_roundtrip(id: int)
    requires
        0 <= id < 448,
    ensures
        spec_from_uci(spec_to_uci(id)) == Some(id),
{
    let f = id / 56;
    let r = (id / 7) % 8;
    let t = unskip(f, id % 7);
    assert(id == 56 * f + 7 * r + id % 7);
    lemma_square_at(f, r);
    lemma_square_at(t, r);
    assert(move_code(f, r, t, r) == Some(id));
}

/// Division of a count of diagonal moves by the number of moves from each square.
proof fn lemma_div_mod_small(k: int, n: int)
    requires
        1 <= n <= 7,
        0 <= k < n * (n + 1),
    ensures
        k == n * (k / n) + k % n,
        0 <= k % n < n,
        0 <= k / n <= n,
{
    vstd::arithmetic::div_mod::lemma_fundamental_div_mod(k, n);
    vstd::arithmetic::div_mod::lemma_mod_bound(k, n);
    vstd::arithmetic::div_mod::lemma_multiply_divide_lt(k, n, n + 1);
    vstd::arithmetic::div_mod::lemma_div_pos_is_pos(k, n);
}

proof fn lemma_file_moves_roundtrip(k: int)
    requires
        0 <= k < 448,
    ensures
        spec_from_uci(decode_file_move(k)) == Some(448 + k),
{
    let f = k / 56;
    let r = (k / 7) % 8;
    let t = unskip(r, k % 7);
    assert(k == 56 * f + 7 * r + k % 7);
    lemma_square_at(f, r);
    lemma_square_at(f, t);
    assert(move_code(f, r, f, t) == Some(448 + k));
}

/// The number of moves along the diagonal with `file - rank == d`,
/// `(7 - |d|) * (8 - |d|)`, as a number.
proof fn lemma_diagonal_size(d: int)
    requires
        -6 <= d <= 6,
    ensures
        (7 - abs_int(d)) * (8 - abs_int(d)) == (if d < 6 {
            diagonal_base(d + 1)
        } else {
            1176
        }) - diagonal_base(d),
{
    let n = 7 - abs_int(d);
    if d == -6 {
        assert(n * (n + 1) == 2) by (nonlinear_arith)
            requires
                n == 1,
        ;
    } else if d == -5 {
        assert(n * (n + 1) == 6) by (nonlinear_arith)
            requires
                n == 2,
        ;
    } else if d == -4 {
        assert(n * (n + 1) == 12) by (nonlinear_arith)
            requires
                n == 3,
        ;
    } else if d == -3 {
        assert(n * (n + 1) == 20) by (nonlinear_arith)
            requires
                n == 4,
        ;
    } else if d == -2 {
        assert(n * (n + 1) == 30) by (nonlinear_arith)
            requires
                n == 5,
        ;
    } else if d == -1 {
        assert(n * (n + 1) == 42) by (nonlinear_arith)
            requires
                n == 6,
        ;
    } else if d == 0 {
        assert(n * (n + 1) == 56) by (nonlinear_arith)
            requires
                n == 7,
        ;
    } else if d == 1 {
        assert(n * (n + 1) == 42) by (nonlinear_arith)
            requires
                n == 6,
        ;
    } else if d == 2 {
        assert(n * (n + 1) == 30) by (nonlinear_arith)
            requires
                n == 5,
        ;
    } else if d == 3 {
        assert(n * (n + 1) == 20) by (nonlinear_arith)
            requires
                n == 4,
        ;
    } else if d == 4 {
        assert(n * (n + 1) == 12) by (nonlinear_arith)
            requires
                n == 3,
        ;
    } else if d == 5 {
        assert(n * (n + 1) == 6) by (nonlinear_arith)
            requires
                n == 2,
        ;
    } else if d == 6 {
        assert(n * (n + 1) == 2) by (nonlinear_arith)
            requires
                n == 1,
        ;
    }
}

proof fn lemma_diagonal_base_range(id: int)
    requires
        896 <= id < 1176,
    ensures
        -6 <= diagonal_of(id) <= 6,
        diagonal_base(diagonal_of(id)) <= id,
        id - diagonal_base(diagonal_of(id)) < (7 - abs_int(diagonal_of(id))) * (8 - abs_int(
            diagonal_of(id),
        )),
{
    lemma_diagonal_size(diagonal_of(id));
}

proof fn lemma_diagonal_moves_roundtrip(id: int)
    requires
        896 <= id < 1176,
    ensures
        spec_from_uci(decode_diagonal_move(id)) == Some(id),
{
    let d = diagonal_of(id);
    let n = 7 - abs_int(d);
    let k = id - diagonal_base(d);
    lemma_diagonal_base_range(id);
    lemma_div_mod_small(k, n);
    let x = k / n;
    let y = unskip(x, k % n);
    let f0 = max_int(d, 0);
    let r0 = max_int(-d, 0);
    lemma_square_at(x + f0, x + r0);
    lemma_square_at(y + f0, y + r0);
    assert(f0 - r0 == d);
    assert(min_int(x + f0, x + r0) == x);
    assert(min_int(y + f0, y + r0) == y);
    assert(y != x);
    assert(skip(x, y) == k % n);
    assert(x * n + k % n == k);
    assert(move_code(x + f0, x + r0, y + f0, y + r0) == Some(diagonal_base(d) + x * n + skip(x, y)));
}

proof fn lemma_anti_diagonal_moves_roundtrip(id: int)
    requires
        1176 <= id < 1456,
    ensures
        spec_from_uci(decode_anti_diagonal_move(id)) == Some(id),
{
    let d = diagonal_of(id - 280);
    let s = 7 - d;
    let n = 7 - abs_int(s - 7);
    let k = id - anti_diagonal_base(s);
    lemma_diagonal_base_range(id - 280);
    lemma_div_mod_small(k, n);
    let x = k / n;
    let y = unskip(x, k % n);
    let f0 = min_int(s, 7);
    let r0 = max_int(s - 7, 0);
    lemma_square_at(f0 - x, r0 + x);
    lemma_square_at(f0 - y, r0 + y);
    assert(f0 + r0 == s);
    assert(min_int(r0 + x, 7 - (f0 - x)) == x);
    assert(min_int(r0 + y, 7 - (f0 - y)) == y);
    assert(y != x);
    assert(skip(x, y) == k % n);
    assert(x * n + k % n == k);
    assert(move_code(f0 - x, r0 + x, f0 - y, r0 + y) == Some(
        anti_diagonal_base(s) + x * n + skip(x, y),
    ));
}

/// Division of a count of knight jumps by the number of start ranks per file.
proof fn lemma_div_mod_knight(i: int, w: int, c: int)
    requires
        w * c == 42,
        1 <= w,
        0 <= i < 42,
    ensures
        i == w * (i / w) + i % w,
        0 <= i % w < w,
        0 <= i / w < c,
{
    vstd::arithmetic::div_mod::lemma_fundamental_div_mod(i, w);
    vstd::arithmetic::div_mod::lemma_mod_bound(i, w);
    vstd::arithmetic::div_mod::lemma_multiply_divide_lt(i, w, c);
    vstd::arithmetic::div_mod::lemma_div_pos_is_pos(i, w);
}

proof fn lemma_knight_moves_roundtrip(j: int)
    requires
        0 <= j < 336,
    ensures
        spec_from_uci(decode_knight_move(j)) == Some(1456 + j),
{
    let k = j / 42;
    let i = j % 42;
    assert(j == 42 * k + i);
    let df = knight_df(k);
    let dr = knight_dr(k);
    let w = 8 - abs_int(dr);
    if w == 6 {
        assert(w * 7 == 42);
        lemma_div_mod_knight(i, w, 7);
    } else {
        assert(w * 6 == 42);
        lemma_div_mod_knight(i, w, 6);
    }
    let x = i / w + max_int(-df, 0);
    let y = i % w + max_int(-dr, 0);
    lemma_square_at(x, y);
    lemma_square_at(x + df, y + dr);
    assert(knight_direction(df, dr) == Some(k));
    assert(df != dr && df != -dr && dr != 0 && df != 0);
    assert(x - max_int(-df, 0) == i / w);
    assert((i / w) * w == w * (i / w)) by (nonlinear_arith);
    assert(move_code(x, y, x + df, y + dr) == Some(
        1456 + 42 * k + (x - max_int(-df, 0)) * (8 - abs_int(dr)) + (y - max_int(-dr, 0)),
    ));
}

proof fn lemma_promotions_roundtrip(k: int)
    requires
        0 <= k < 88,
    ensures
        spec_from_uci(decode_promotion(k)) == Some(1792 + k),
{
    let file_id = k / 4;
    assert(k == 4 * file_id + k % 4);
    let ff = if file_id < 8 {
        file_id
    } else if file_id < 15 {
        file_id - 8
    } else {
        file_id - 14
    };
    let tf = if file_id < 8 {
        file_id
    } else if file_id < 15 {
        file_id - 7
    } else {
        file_id - 15
    };
    lemma_square_at(ff, 6);
    lemma_square_at(tf, 7);
    assert(promotion_index(promotion_role(k % 4)) == Some(k % 4));
    assert(promotion_code(ff, tf, k % 4) == 1792 + k);
}

/// Decoding an id and encoding the move gives the id back: the numbering
/// names every id in `0..1880` exactly once.
pub proof fn lemma_uci_roundtrip(id: int)
    requires
        0 <= id < 1880,
    ensures
        spec_from_uci(spec_to_uci(id)) == Some(id),
{
    if id < 448 {
        lemma_rank_moves_roundtrip(id);
    } else if id < 896 {
        lemma_file_moves_roundtrip(id - 448);
    } else if id < 1176 {
        lemma_diagonal_moves_roundtrip(id);
    } else if id < 1456 {
        lemma_anti_diagonal_moves_roundtrip(id);
    } else if id < 1792 {
        lemma_knight_moves_roundtrip(id - 1456);
    } else {
        lemma_promotions_roundtrip(id - 1792);
    }
}

proof fn lemma_square_coords(sq: Square)
    ensures
        square_at(sq.file@, sq.rank@) == sq,
        0 <= sq.file@ < 8,
        0 <= sq.rank@ < 8,
{
}

proof fn lemma_div_mod_unique(k: int, n: int, q: int, r: int)
    requires
        0 < n,
        k == q * n + r,
        0 <= r < n,
    ensures
        k / n == q,
        k % n == r,
{
    assert(k == n * q + r) by (nonlinear_arith)
        requires
            k == q * n + r,
    ;
    vstd::arithmetic::div_mod::lemma_fundamental_div_mod_converse(k, n, q, r);
}

/// A UCI move whose id decodes back to it: any queen-like or knight-like move
/// without promotion, and a promotion from the seventh rank to the eighth by
/// at most one file.
pub open spec fn uci_canonical(u: UciMove) -> bool {
    match u {
        UciMove::Normal { from, to, promotion } => match promotion {
            Some(role) => {
                &&& promotion_index(role) is Some
                &&& from.rank@ == 6
                &&& to.rank@ == 7
                &&& abs_int(from.file@ - to.file@) <= 1
            },
            None => move_code(from.file@, from.rank@, to.file@, to.rank@) is Some,
        },
        _ => false,
    }
}

proof fn lemma_rank_move_decodes(ff: int, fr: int, tf: int)
    requires
        0 <= ff < 8,
        0 <= fr < 8,
        0 <= tf < 8,
        ff != tf,
    ensures
        decode_rank_move(56 * ff + 7 * fr + skip(ff, tf)) == plain_move(ff, fr, tf, fr),
{
    let id = 56 * ff + 7 * fr + skip(ff, tf);
    assert(id / 56 == ff);
    assert(id / 7 == 8 * ff + fr);
    assert((id / 7) % 8 == fr);
    assert(id % 7 == skip(ff, tf));
}

proof fn lemma_file_move_decodes(ff: int, fr: int, tr: int)
    requires
        0 <= ff < 8,
        0 <= fr < 8,
        0 <= tr < 8,
        fr != tr,
    ensures
        decode_file_move(56 * ff + 7 * fr + skip(fr, tr)) == plain_move(ff, fr, ff, tr),
{
    let k = 56 * ff + 7 * fr + skip(fr, tr);
    assert(k / 56 == ff);
    assert(k / 7 == 8 * ff + fr);
    assert((k / 7) % 8 == fr);
    assert(k % 7 == skip(fr, tr));
}

proof fn lemma_diagonal_of_base(d: int, k: int)
    requires
        -6 <= d <= 6,
        0 <= k < (7 - abs_int(d)) * (8 - abs_int(d)),
    ensures
        diagonal_of(diagonal_base(d) + k) == d,
        896 <= diagonal_base(d) + k < 1176,
{
    lemma_diagonal_size(d);
}

proof fn lemma_diagonal_move_decodes(ff: int, fr: int, tf: int, tr: int)
    requires
        0 <= ff < 8,
        0 <= fr < 8,
        0 <= tf < 8,
        0 <= tr < 8,
        tf - ff == tr - fr,
        tf != ff,
    ensures
        896 <= diagonal_base(ff - fr) + min_int(ff, fr) * (7 - abs_int(ff - fr)) + skip(
            min_int(ff, fr),
            min_int(tf, tr),
        ) < 1176,
        decode_diagonal_move(
            diagonal_base(ff - fr) + min_int(ff, fr) * (7 - abs_int(ff - fr)) + skip(
                min_int(ff, fr),
                min_int(tf, tr),
            ),
        ) == plain_move(ff, fr, tf, tr),
{
    let d = ff - fr;
    let n = 7 - abs_int(d);
    let x = min_int(ff, fr);
    let y = min_int(tf, tr);
    let r = skip(x, y);
    assert(0 <= x <= n && 0 <= y <= n && x != y);
    assert(0 <= r < n);
    assert(x * n + r < n * (n + 1)) by (nonlinear_arith)
        requires
            0 <= x <= n,
            0 <= r < n,
    ;
    assert(n * (n + 1) == (7 - abs_int(d)) * (8 - abs_int(d)));
    lemma_diagonal_of_base(d, x * n + r);
    lemma_div_mod_unique(x * n + r, n, x, r);
    assert(unskip(x, r) == y);
}

proof fn lemma_anti_diagonal_move_decodes(ff: int, fr: int, tf: int, tr: int)
    requires
        0 <= ff < 8,
        0 <= fr < 8,
        0 <= tf < 8,
        0 <= tr < 8,
        tf - ff == fr - tr,
        tf != ff,
    ensures
        1176 <= anti_diagonal_base(ff + fr) + min_int(fr, 7 - ff) * (7 - abs_int(ff + fr - 7))
            + skip(min_int(fr, 7 - ff), min_int(tr, 7 - tf)) < 1456,
        decode_anti_diagonal_move(
            anti_diagonal_base(ff + fr) + min_int(fr, 7 - ff) * (7 - abs_int(ff + fr - 7)) + skip(
                min_int(fr, 7 - ff),
                min_int(tr, 7 - tf),
            ),
        ) == plain_move(ff, fr, tf, tr),
{
    let s = ff + fr;
    let d = 7 - s;
    let n = 7 - abs_int(s - 7);
    let x = min_int(fr, 7 - ff);
    let y = min_int(tr, 7 - tf);
    let r = skip(x, y);
    assert(0 <= x <= n && 0 <= y <= n && x != y);
    assert(0 <= r < n);
    assert(x * n + r < n * (n + 1)) by (nonlinear_arith)
        requires
            0 <= x <= n,
            0 <= r < n,
    ;
    assert(n * (n + 1) == (7 - abs_int(d)) * (8 - abs_int(d)));
    lemma_diagonal_of_base(d, x * n + r);
    lemma_div_mod_unique(x * n + r, n, x, r);
    assert(unskip(x, r) == y);
    assert(7 - diagonal_of(anti_diagonal_base(s) + x * n + r - 280) == s);
}

proof fn lemma_knight_move_decodes(ff: int, fr: int, tf: int, tr: int, k: int)
    requires
        0 <= ff < 8,
        0 <= fr < 8,
        0 <= tf < 8,
        0 <= tr < 8,
        knight_direction(tf - ff, tr - fr) == Some(k),
    ensures
        0 <= 42 * k + (ff - max_int(ff - tf, 0)) * (8 - abs_int(tr - fr)) + (fr - max_int(
            fr - tr,
            0,
        )) < 336,
        decode_knight_move(
            42 * k + (ff - max_int(ff - tf, 0)) * (8 - abs_int(tr - fr)) + (fr - max_int(
                fr - tr,
                0,
            )),
        ) == plain_move(ff, fr, tf, tr),
{
    let df = tf - ff;
    let dr = tr - fr;
    let w = 8 - abs_int(dr);
    let a = ff - max_int(-df, 0);
    let b = fr - max_int(-dr, 0);
    assert(knight_df(k) == df && knight_dr(k) == dr);
    assert(0 <= b < w);
    if w == 6 {
        assert(0 <= a < 7);
        assert(a * w + b < 42) by (nonlinear_arith)
            requires
                0 <= a < 7,
                0 <= b < 6,
                w == 6,
        ;
        assert(0 <= a * w) by (nonlinear_arith)
            requires
                0 <= a,
                w == 6,
        ;
    } else {
        assert(0 <= a < 6);
        assert(a * w + b < 42) by (nonlinear_arith)
            requires
                0 <= a < 6,
                0 <= b < 7,
                w == 7,
        ;
        assert(0 <= a * w) by (nonlinear_arith)
            requires
                0 <= a,
                w == 7,
        ;
    }
    let j = 42 * k + a * w + b;
    lemma_div_mod_unique(j, 42, k, a * w + b);
    lemma_div_mod_unique(a * w + b, w, a, b);
}

proof fn lemma_promotion_decodes(ff: int, tf: int, role: Role)
    requires
        0 <= ff < 8,
        0 <= tf < 8,
        abs_int(ff - tf) <= 1,
        promotion_index(role) is Some,
    ensures
        0 <= promotion_code(ff, tf, promotion_index(role).unwrap()) - 1792 < 88,
        decode_promotion(promotion_code(ff, tf, promotion_index(role).unwrap()) - 1792)
            == (UciMove::Normal {
            from: square_at(ff, 6),
            to: square_at(tf, 7),
            promotion: Some(role),
        }),
{
    let p = promotion_index(role).unwrap();
    let file_id = if ff == tf {
        ff
    } else if ff < tf {
        8 + ff
    } else {
        14 + ff
    };
    let k = 4 * file_id + p;
    lemma_div_mod_unique(k, 4, file_id, p);
}

/// Encoding a move and decoding its id gives the move back, for every move
/// the numbering keeps apart from others (see `uci_canonical`).
pub proof fn lemma_uci_canonical_roundtrip(u: UciMove)
    requires
        uci_canonical(u),
    ensures
        spec_from_uci(u) matches Some(id) && 0 <= id < 1880 && spec_to_uci(id) == u,
{
    match u {
        UciMove::Normal { from, to, promotion } => {
            lemma_square_coords(from);
            lemma_square_coords(to);
            let ff = from.file@;
            let fr = from.rank@;
            let tf = to.file@;
            let tr = to.rank@;
            match promotion {
                Some(role) => {
                    lemma_promotion_decodes(ff, tf, role);
                },
                None => {
                    let df = tf - ff;
                    let dr = tr - fr;
                    if dr == 0 {
                        lemma_rank_move_decodes(ff, fr, tf);
                    } else if df == 0 {
                        lemma_file_move_decodes(ff, fr, tr);
                    } else if df == dr {
                        lemma_diagonal_move_decodes(ff, fr, tf, tr);
                    } else if df == -dr {
                        lemma_anti_diagonal_move_decodes(ff, fr, tf, tr);
                    } else {
                        lemma_knight_move_decodes(ff, fr, tf, tr, knight_direction(df, dr).unwrap());
                    }
                },
            }
        },
        _ => {},
    }
}

/// Distinct ids name distinct moves.
pub proof fn lemma_to_uci_injective(a: int, b: int)
    requires
        0 <= a < 1880,
        0 <= b < 1880,
        spec_to_uci(a) == spec_to_uci(b),
    ensures
        a == b,
{
    lemma_uci_roundtrip(a);
    lemma_uci_roundtrip(b);
}

/// The move of every id can be handed back to `from_uci`.
pub proof fn lemma_to_uci_encodable(id: int)
    requires
        0 <= id < 1880,
    ensures
        uci_encodable(spec_to_uci(id)),
        uci_canonical(spec_to_uci(id)),
{
    lemma_uci_roundtrip(id);
    let u = spec_to_uci(id);
    if id >= 1792 {
        let k = id - 1792;
        let file_id = k / 4;
        let ff = if file_id < 8 {
            file_id
        } else if file_id < 15 {
            file_id - 8
        } else {
            file_id - 14
        };
        let tf = if file_id < 8 {
            file_id
        } else if file_id < 15 {
            file_id - 7
        } else {
            file_id - 15
        };
        lemma_square_at(ff, 6);
        lemma_square_at(tf, 7);
    }
}

/// The id of a move follows its promotion: a promotion to a knight, bishop,
/// rook or queen gets an id of the promotion block `1792..1880` whose
/// remainder by 4 is the piece's index and whose move promotes to the same
/// piece; a move without promotion that has an id gets one below 1792.
pub proof fn lemma_move_id_keeps_promotion(m: ChessMove)
    requires
        m is Normal,
    ensures
        m.promotion() is Some && promotion_index(m.promotion().unwrap()) is Some ==> (spec_from_uci(
            m.spec_to_uci(CastlingMode::Standard),
        ) matches Some(id) && 1792 <= id < 1880 && id % 4 == promotion_index(
            m.promotion().unwrap(),
        ).unwrap() && spec_to_uci(id)->Normal_promotion == m.promotion()),
        m.promotion() is None ==> (spec_from_uci(m.spec_to_uci(CastlingMode::Standard)) matches Some(
            id,
        ) ==> id < 1792),
{
    let u = m.spec_to_uci(CastlingMode::Standard);
    match m {
        ChessMove::Normal { from, to, promotion, .. } => {
            lemma_square_coords(from);
            lemma_square_coords(to);
            match promotion {
                Some(role) => {
                    if promotion_index(role) is Some {
                        let p = promotion_index(role).unwrap();
                        let ff = from.file@;
                        let tf = to.file@;
                        let file_id = if ff == tf {
                            ff
                        } else if ff < tf {
                            8 + ff
                        } else {
                            14 + ff
                        };
                        let k = 4 * file_id + p;
                        lemma_div_mod_unique(k, 4, file_id, p);
                        assert(promotion_role(p) == role);
                    }
                },
                None => {
                    if spec_from_uci(u) is Some {
                        lemma_uci_canonical_roundtrip(u);
                        let id = spec_from_uci(u).unwrap();
                        if id >= 1792 {
                            assert(spec_to_uci(id) == decode_promotion(id - 1792));
                        }
                    }
                },
            }
        },
        _ => {},
    }
}

/// Every id the numbering gives lies in `0..1880`.
pub proof fn lemma_uci_code_range(u: UciMove)
    requires
        spec_from_uci(u) is Some,
    ensures
        0 <= spec_from_uci(u).unwrap() < 1880,
{
    match u {
        UciMove::Normal { from, to, promotion } => {
            lemma_square_coords(from);
            lemma_square_coords(to);
            if promotion is None {
                lemma_uci_canonical_roundtrip(u);
            }
        },
        _ => {},
    }
}

/// The id the table-driven computation of `diagonal_id` gives a diagonal move equals
/// `move_code`: the offsets `off` are the diagonal's base minus
/// `(|d| / 2) * (n + 1)`, which the halved coordinate sums `fv` and `tv` add back.
proof fn lemma_diagonal_offset(ff: int, fr: int, tf: int, tr: int, off: int, l: int)
    requires
        0 <= ff < 8,
        0 <= fr < 8,
        0 <= tf < 8,
        0 <= tr < 8,
        tf - ff == tr - fr,
        tf != ff,
        (off, l) == diagonal_offset_table(ff - fr),
    ensures
        off + ((ff + fr) / 2) * l + ((tf + tr) / 2 - (if tr - fr >= 0 {
            1int
        } else {
            0
        })) == move_code(ff, fr, tf, tr).unwrap(),
{
    let d = ff - fr;
    let h = abs_int(d) / 2;
    let x = min_int(ff, fr);
    let y = min_int(tf, tr);
    let adj = if tr - fr >= 0 {
        1int
    } else {
        0
    };
    if d == -6 {
        assert(off == diagonal_base(d) - 3 * (1 + 1));
    } else if d == -5 {
        assert(off == diagonal_base(d) - 2 * (2 + 1));
    } else if d == -4 {
        assert(off == diagonal_base(d) - 2 * (3 + 1));
    } else if d == -3 {
        assert(off == diagonal_base(d) - 1 * (4 + 1));
    } else if d == -2 {
        assert(off == diagonal_base(d) - 1 * (5 + 1));
    } else if d == -1 {
        assert(off == diagonal_base(d) - 0 * (6 + 1));
    } else if d == 0 {
        assert(off == diagonal_base(d) - 0 * (7 + 1));
    } else if d == 1 {
        assert(off == diagonal_base(d) - 0 * (6 + 1));
    } else if d == 2 {
        assert(off == diagonal_base(d) - 1 * (5 + 1));
    } else if d == 3 {
        assert(off == diagonal_base(d) - 1 * (4 + 1));
    } else if d == 4 {
        assert(off == diagonal_base(d) - 2 * (3 + 1));
    } else if d == 5 {
        assert(off == diagonal_base(d) - 2 * (2 + 1));
    } else if d == 6 {
        assert(off == diagonal_base(d) - 3 * (1 + 1));
    }
    assert(l == 7 - abs_int(d));
    assert(off == diagonal_base(d) - h * (l + 1));
    assert((ff + fr) / 2 == x + h);
    assert((tf + tr) / 2 == y + h);
    assert(skip(x, y) == y - adj);
    assert(off + (x + h) * l + (y + h - adj) == diagonal_base(d) + x * l + skip(x, y))
        by (nonlinear_arith)
        requires
            off == diagonal_base(d) - h * (l + 1),
            skip(x, y) == y - adj,
    ;
}

/// Anti-diagonal counterpart of `lemma_diagonal_offset`.
proof fn lemma_anti_diagonal_offset(ff: int, fr: int, tf: int, tr: int, off: int, l: int)
    requires
        0 <= ff < 8,
        0 <= fr < 8,
        0 <= tf < 8,
        0 <= tr < 8,
        tf - ff == fr - tr,
        tf != ff,
        (off, l) == anti_diagonal_offset_table(ff + fr),
    ensures
        off + ((fr + 7 - ff) / 2) * l + ((tr + 7 - tf) / 2 - (if tr - fr >= 0 {
            1int
        } else {
            0
        })) == move_code(ff, fr, tf, tr).unwrap(),
{
    let s = ff + fr;
    let h = abs_int(s - 7) / 2;
    let x = min_int(fr, 7 - ff);
    let y = min_int(tr, 7 - tf);
    let adj = if tr - fr >= 0 {
        1int
    } else {
        0
    };
    if s == 13 {
        assert(off == anti_diagonal_base(s) - 3 * (1 + 1));
    } else if s == 12 {
        assert(off == anti_diagonal_base(s) - 2 * (2 + 1));
    } else if s == 11 {
        assert(off == anti_diagonal_base(s) - 2 * (3 + 1));
    } else if s == 10 {
        assert(off == anti_diagonal_base(s) - 1 * (4 + 1));
    } else if s == 9 {
        assert(off == anti_diagonal_base(s) - 1 * (5 + 1));
    } else if s == 8 {
        assert(off == anti_diagonal_base(s) - 0 * (6 + 1));
    } else if s == 7 {
        assert(off == anti_diagonal_base(s) - 0 * (7 + 1));
    } else if s == 6 {
        assert(off == anti_diagonal_base(s) - 0 * (6 + 1));
    } else if s == 5 {
        assert(off == anti_diagonal_base(s) - 1 * (5 + 1));
    } else if s == 4 {
        assert(off == anti_diagonal_base(s) - 1 * (4 + 1));
    } else if s == 3 {
        assert(off == anti_diagonal_base(s) - 2 * (3 + 1));
    } else if s == 2 {
        assert(off == anti_diagonal_base(s) - 2 * (2 + 1));
    } else if s == 1 {
        assert(off == anti_diagonal_base(s) - 3 * (1 + 1));
    }
    assert(l == 7 - abs_int(s - 7));
    assert((fr + 7 - ff) / 2 == x + h);
    assert((tr + 7 - tf) / 2 == y + h);
    assert(skip(x, y) == y - adj);
    assert(off + (x + h) * l + (y + h - adj) == anti_diagonal_base(s) + x * l + skip(x, y))
        by (nonlinear_arith)
        requires
            off == anti_diagonal_base(s) - h * (l + 1),
            skip(x, y) == y - adj,
    ;
}

/// Offset and moves-per-square used to number the moves of the diagonal with
/// `file - rank == d` from the halved coordinate sums of start and target.
pub open spec fn diagonal_offset_table(d: int) -> (int, int) {
    if d == -6 {
        (890, 1)
    } else if d == -5 {
        (892, 2)
    } else if d == -4 {
        (896, 3)
    } else if d == -3 {
        (911, 4)
    } else if d == -2 {
        (930, 5)
    } else if d == -1 {
        (966, 6)
    } else if d == 0 {
        (1008, 7)
    } else if d == 1 {
        (1064, 6)
    } else if d == 2 {
        (1100, 5)
    } else if d == 3 {
        (1131, 4)
    } else if d == 4 {
        (1148, 3)
    } else if d == 5 {
        (1162, 2)
    } else {
        (1168, 1)
    }
}

/// Offset and moves-per-square used to number the moves of the anti-diagonal
/// with `file + rank == s`.
pub open spec fn anti_diagonal_offset_table(s: int) -> (int, int) {
    if s == 13 {
        (1170, 1)
    } else if s == 12 {
        (1172, 2)
    } else if s == 11 {
        (1176, 3)
    } else if s == 10 {
        (1191, 4)
    } else if s == 9 {
        (1210, 5)
    } else if s == 8 {
        (1246, 6)
    } else if s == 7 {
        (1288, 7)
    } else if s == 6 {
        (1344, 6)
    } else if s == 5 {
        (1380, 5)
    } else if s == 4 {
        (1411, 4)
    } else if s == 3 {
        (1428, 3)
    } else if s == 2 {
        (1442, 2)
    } else {
        (1448, 1)
    }
}

/// The table offset and moves-per-square of the diagonal with `file - rank == d`.
fn diagonal_offset(d: i8) -> (r: (u16, u16))
    requires
        -6 <= d <= 6,
    ensures
        r.0 == diagonal_offset_table(d as int).0,
        r.1 == diagonal_offset_table(d as int).1,
{
    match d {
        -6 => (890, 1),
        -5 => (892, 2),
        -4 => (896, 3),
        -3 => (911, 4),
        -2 => (930, 5),
        -1 => (966, 6),
        0 => (1008, 7),
        1 => (1064, 6),
        2 => (1100, 5),
        3 => (1131, 4),
        4 => (1148, 3),
        5 => (1162, 2),
        _ => (1168, 1),
    }
}

/// The table offset and moves-per-square of the anti-diagonal with `file + rank == s`.
fn anti_diagonal_offset(s: u16) -> (r: (u16, u16))
    requires
        1 <= s <= 13,
    ensures
        r.0 == anti_diagonal_offset_table(s as int).0,
        r.1 == anti_diagonal_offset_table(s as int).1,
{
    match s {
        13 => (1170, 1),
        12 => (1172, 2),
        11 => (1176, 3),
        10 => (1191, 4),
        9 => (1210, 5),
        8 => (1246, 6),
        7 => (1288, 7),
        6 => (1344, 6),
        5 => (1380, 5),
        4 => (1411, 4),
        3 => (1428, 3),
        2 => (1442, 2),
        _ => (1448, 1),
    }
}

/// The id of a diagonal move from `(ff, fr)` to `(tf, tr)`.
fn diagonal_id(ff: u16, fr: u16, tf: u16, tr: u16) -> (id: u16)
    requires
        ff < 8,
        fr < 8,
        tf < 8,
        tr < 8,
        tf - ff == tr - fr,
        tf != ff,
    ensures
        move_code(ff as int, fr as int, tf as int, tr as int) == Some(id as int),
{
    let fv = (ff + fr) / 2;
    let tv = (tf + tr) / 2 - if tr >= fr {
        1
    } else {
        0
    };
    let (off, l) = diagonal_offset(ff as i8 - fr as i8);
    proof {
        lemma_diagonal_offset(ff as int, fr as int, tf as int, tr as int, off as int, l as int);
        assert(fv * l <= 49) by (nonlinear_arith)
            requires
                fv <= 7,
                l <= 7,
        ;
    }
    off + fv * l + tv
}

/// The id of an anti-diagonal move from `(ff, fr)` to `(tf, tr)`.
fn anti_diagonal_id(ff: u16, fr: u16, tf: u16, tr: u16) -> (id: u16)
    requires
        ff < 8,
        fr < 8,
        tf < 8,
        tr < 8,
        tf - ff == fr - tr,
        tf != ff,
    ensures
        move_code(ff as int, fr as int, tf as int, tr as int) == Some(id as int),
{
    let fv = (fr + 7 - ff) / 2;
    let tv = (tr + 7 - tf) / 2 - if tr >= fr {
        1
    } else {
        0
    };
    let (off, l) = anti_diagonal_offset(ff + fr);
    proof {
        lemma_anti_diagonal_offset(ff as int, fr as int, tf as int, tr as int, off as int, l as int);
        assert(fv * l <= 49) by (nonlinear_arith)
            requires
                fv <= 7,
                l <= 7,
        ;
    }
    off + fv * l + tv
}

/// The id of a knight jump by `(fd, rd)` from `(ff, fr)`, or `None` when
/// `(fd, rd)` is no knight jump.
fn knight_id(fd: i8, rd: i8, ff: u16, fr: u16) -> (r: Option<u16>)
    requires
        ff < 8,
        fr < 8,
        0 <= ff + fd < 8,
        0 <= fr + rd < 8,
    ensures
        r matches Some(id) ==> knight_direction(fd as int, rd as int) matches Some(k) && id == 1456
            + 42 * k + (ff - max_int(-fd, 0)) * (8 - abs_int(rd as int)) + (fr - max_int(-rd, 0)),
        r is None ==> knight_direction(fd as int, rd as int) is None,
{
    if fd == 1 && rd == 2 {
        proof {
            lemma_knight_term(ff as int, 0, 6, max_int(-fd, 0), 8 - abs_int(rd as int));
        }
        Some(1456 + ff * 6 + fr)
    } else if fd == 2 && rd == 1 {
        proof {
            lemma_knight_term(ff as int, 0, 7, max_int(-fd, 0), 8 - abs_int(rd as int));
        }
        Some(1498 + ff * 7 + fr)
    } else if fd == 2 && rd == -1 {
        proof {
            lemma_knight_term(ff as int, 0, 7, max_int(-fd, 0), 8 - abs_int(rd as int));
        }
        Some(1539 + ff * 7 + fr)
    } else if fd == 1 && rd == -2 {
        proof {
            lemma_knight_term(ff as int, 0, 6, max_int(-fd, 0), 8 - abs_int(rd as int));
        }
        Some(1580 + ff * 6 + fr)
    } else if fd == -1 && rd == -2 {
        proof {
            lemma_knight_term(ff as int, 1, 6, max_int(-fd, 0), 8 - abs_int(rd as int));
        }
        Some(1616 + ff * 6 + fr)
    } else if fd == -2 && rd == -1 {
        proof {
            lemma_knight_term(ff as int, 2, 7, max_int(-fd, 0), 8 - abs_int(rd as int));
        }
        Some(1651 + ff * 7 + fr)
    } else if fd == -2 && rd == 1 {
        proof {
            lemma_knight_term(ff as int, 2, 7, max_int(-fd, 0), 8 - abs_int(rd as int));
        }
        Some(1694 + ff * 7 + fr)
    } else if fd == -1 && rd == 2 {
        proof {
            lemma_knight_term(ff as int, 1, 6, max_int(-fd, 0), 8 - abs_int(rd as int));
        }
        Some(1744 + ff * 6 + fr)
    } else {
        None
    }
}

/// `(ff - a) * w` for a knight direction's offsets `a` and `w`, written out.
proof fn lemma_knight_term(ff: int, a: int, w: int, a1: int, w1: int)
    requires
        a == a1,
        w == w1,
    ensures
        (ff - a1) * w1 == ff * w - a * w,
{
    assert((ff - a) * w == ff * w - a * w) by (nonlinear_arith);
}

/// The id of a move without promotion from `(ff, fr)` to `(tf, tr)`.
fn move_id(ff: u16, fr: u16, tf: u16, tr: u16) -> (r: Option<u16>)
    requires
        ff < 8,
        fr < 8,
        tf < 8,
        tr < 8,
    ensures
        r matches Some(id) ==> move_code(ff as int, fr as int, tf as int, tr as int) == Some(
            id as int,
        ),
        r is None ==> move_code(ff as int, fr as int, tf as int, tr as int) is None,
{
    let fd: i8 = tf as i8 - ff as i8;
    let rd: i8 = tr as i8 - fr as i8;
    assert(fd == tf - ff && rd == tr - fr);
    if fd == 0 && rd == 0 {
        None
    } else if rd == 0 {
        Some(ff * 56 + fr * 7 + tf - if fd >= 0 {
            1
        } else {
            0
        })
    } else if fd == 0 {
        Some(ff * 56 + fr * 7 + tr - if rd >= 0 {
            1
        } else {
            0
        } + 448)
    } else if fd == rd {
        Some(diagonal_id(ff, fr, tf, tr))
    } else if fd == -rd {
        Some(anti_diagonal_id(ff, fr, tf, tr))
    } else {
        knight_id(fd, rd, ff, fr)
    }
}

/// The diagonal move with index `id` among those of the diagonal of `len + 1`
/// squares that starts at file `f`, rank `r` and runs towards the h-file and
/// the eighth rank.
fn diag(id: u16, len: u16, f: u16, r: u16) -> (u: UciMove)
    requires
        1 <= len <= 7,
        id < len * (len + 1),
        f + len <= 7,
        r + len <= 7,
    ensures
        u == plain_move(
            id / len + f,
            id / len + r,
            unskip((id / len) as int, (id % len) as int) + f,
            unskip((id / len) as int, (id % len) as int) + r,
        ),
{
    proof {
        lemma_div_mod_small(id as int, len as int);
    }
    let x = id / len;
    let y = id % len;
    let y = y + if y >= x {
        1
    } else {
        0
    };
    let file = File::new((x + f) as u8);
    let rank = Rank::new((x + r) as u8);
    let from = Square::from_coords(file, rank);
    let to_file = File::new((y + f) as u8);
    let to_rank = Rank::new((y + r) as u8);
    let to = Square::from_coords(to_file, to_rank);
    UciMove::Normal { from, to, promotion: None }
}

/// The anti-diagonal move with index `id` among those of the anti-diagonal of
/// `len + 1` squares that starts at file `f`, rank `r` and runs towards the
/// a-file and the eighth rank.
fn diag2(id: u16, len: u16, f: u16, r: u16) -> (u: UciMove)
    requires
        1 <= len <= 7,
        id < len * (len + 1),
        len <= f <= 7,
        r + len <= 7,
    ensures
        u == plain_move(
            f - id / len,
            id / len + r,
            f - unskip((id / len) as int, (id % len) as int),
            unskip((id / len) as int, (id % len) as int) + r,
        ),
{
    proof {
        lemma_div_mod_small(id as int, len as int);
    }
    let x = id / len;
    let y = id % len;
    let y = y + if y >= x {
        1
    } else {
        0
    };
    let file = File::new((f - x) as u8);
    let rank = Rank::new((x + r) as u8);
    let from = Square::from_coords(file, rank);
    let to_file = File::new((f - y) as u8);
    let to_rank = Rank::new((y + r) as u8);
    let to = Square::from_coords(to_file, to_rank);
    UciMove::Normal { from, to, promotion: None }
}

/// The knight jump by `(f, r)` with index `id` among those of its direction,
/// `l` being the number of start ranks from which the jump stays on the board.
fn knight(id: u16, l: i16, f: i16, r: i16) -> (u: UciMove)
    requires
        (l == 6 && (f == 1 || f == -1) && (r == 2 || r == -2)) || (l == 7 && (f == 2 || f == -2)
            && (r == 1 || r == -1)),
        id < 42,
    ensures
        u == plain_move(
            id as int / l as int + max_int(-f, 0),
            id as int % l as int + max_int(-r, 0),
            id as int / l as int + max_int(-f, 0) + f,
            id as int % l as int + max_int(-r, 0) + r,
        ),
{
    proof {
        if l == 6 {
            lemma_div_mod_knight(id as int, 6, 7);
        } else {
            lemma_div_mod_knight(id as int, 7, 6);
        }
    }
    let id = id as i16;
    let x = id / l - if f < 0 {
        f
    } else {
        0
    };
    let y = id % l - if r < 0 {
        r
    } else {
        0
    };
    let file = File::new(x as u8);
    let rank = Rank::new(y as u8);
    let from = Square::from_coords(file, rank);
    let to_file = File::new((x + f) as u8);
    let to_rank = Rank::new((y + r) as u8);
    let to = Square::from_coords(to_file, to_rank);
    UciMove::Normal { from, to, promotion: None }
}

/// The diagonal move with the given id, for `896 <= id < 1176`.
fn diagonal_to_uci(id: u16) -> (u: UciMove)
    requires
        896 <= id < 1176,
    ensures
        u == decode_diagonal_move(id as int),
{
    if id < 898 {
        diag(id - 896, 1, 0, 6)
    } else if id < 904 {
        diag(id - 898, 2, 0, 5)
    } else if id < 916 {
        diag(id - 904, 3, 0, 4)
    } else if id < 936 {
        diag(id - 916, 4, 0, 3)
    } else if id < 966 {
        diag(id - 936, 5, 0, 2)
    } else if id < 1008 {
        diag(id - 966, 6, 0, 1)
    } else if id < 1064 {
        diag(id - 1008, 7, 0, 0)
    } else if id < 1106 {
        diag(id - 1064, 6, 1, 0)
    } else if id < 1136 {
        diag(id - 1106, 5, 2, 0)
    } else if id < 1156 {
        diag(id - 1136, 4, 3, 0)
    } else if id < 1168 {
        diag(id - 1156, 3, 4, 0)
    } else if id < 1174 {
        diag(id - 1168, 2, 5, 0)
    } else {
        diag(id - 1174, 1, 6, 0)
    }
}

/// The anti-diagonal move with the given id, for `1176 <= id < 1456`.
fn anti_diagonal_to_uci(id: u16) -> (u: UciMove)
    requires
        1176 <= id < 1456,
    ensures
        u == decode_anti_diagonal_move(id as int),
{
    if id < 1178 {
        diag2(id - 1176, 1, 7, 6)
    } else if id < 1184 {
        diag2(id - 1178, 2, 7, 5)
    } else if id < 1196 {
        diag2(id - 1184, 3, 7, 4)
    } else if id < 1216 {
        diag2(id - 1196, 4, 7, 3)
    } else if id < 1246 {
        diag2(id - 1216, 5, 7, 2)
    } else if id < 1288 {
        diag2(id - 1246, 6, 7, 1)
    } else if id < 1344 {
        diag2(id - 1288, 7, 7, 0)
    } else if id < 1386 {
        diag2(id - 1344, 6, 6, 0)
    } else if id < 1416 {
        diag2(id - 1386, 5, 5, 0)
    } else if id < 1436 {
        diag2(id - 1416, 4, 4, 0)
    } else if id < 1448 {
        diag2(id - 1436, 3, 3, 0)
    } else if id < 1454 {
        diag2(id - 1448, 2, 2, 0)
    } else {
        diag2(id - 1454, 1, 1, 0)
    }
}

/// The knight jump with the given id, for `1456 <= id < 1792`.
fn knight_to_uci(id: u16) -> (u: UciMove)
    requires
        1456 <= id < 1792,
    ensures
        u == decode_knight_move(id - 1456),
{
    if id < 1498 {
        knight(id - 1456, 6, 1, 2)
    } else if id < 1540 {
        knight(id - 1498, 7, 2, 1)
    } else if id < 1582 {
        knight(id - 1540, 7, 2, -1)
    } else if id < 1624 {
        knight(id - 1582, 6, 1, -2)
    } else if id < 1666 {
        knight(id - 1624, 6, -1, -2)
    } else if id < 1708 {
        knight(id - 1666, 7, -2, -1)
    } else if id < 1750 {
        knight(id - 1708, 7, -2, 1)
    } else {
        knight(id - 1750, 6, -1, 2)
    }
}

/// The promotion with the given id, for `1792 <= id < 1880`.
fn promotion_to_uci(id: u16) -> (u: UciMove)
    requires
        1792 <= id < 1880,
    ensures
        u == decode_promotion(id - 1792),
{
    let id = id - 1792;
    let promotion_id = id % 4;
    let promotion = match promotion_id {
        0 => Role::Knight,
        1 => Role::Bishop,
        2 => Role::Rook,
        _ => Role::Queen,
    };
    let file_id = id / 4;
    let (from_file, to_file) = if file_id < 8 {
        (file_id, file_id)
    } else if file_id < 15 {
        (file_id - 8, file_id - 7)
    } else {
        (file_id - 14, file_id - 15)
    };
    let from_file = File::new(from_file as u8);
    let to_file = File::new(to_file as u8);
    UciMove::Normal {
        from: Square::from_coords(from_file, Rank::Seventh),
        to: Square::from_coords(to_file, Rank::Eighth),
        promotion: Some(promotion),
    }
}

/// The index of a move in the policy of the agent: one of `UciMoveId::TOTAL`
/// queen-like moves, knight jumps and promotions.
#[derive(Debug, Clone, Copy, PartialEq, Eq, Structural, PartialOrd, Ord, Hash)]
pub struct UciMoveId(u16);

impl View for UciMoveId {
    type V = int;

    closed spec fn view(&self) -> int {
        self.0 as int
    }
}

/// Two move ids with the same number are the same id.
pub proof fn lemma_view_injective(a: UciMoveId, b: UciMoveId)
    requires
        a@ == b@,
    ensures
        a == b,
{
}

impl UciMoveId {
    /// The total amount of possible UciMoveId
    pub const TOTAL: u16 = 1880;

    #[verifier::type_invariant]
    spec fn below_total(self) -> bool {
        self.0 < 1880
    }

    /// The id as a number in `0..TOTAL`.
    pub fn u16(&self) -> (n: u16)
        ensures
            n == self@,
            n < Self::TOTAL,
    {
        proof {
            use_type_invariant(self);
        }
        self.0
    }

    /// The move id with number `id`, if `id < TOTAL`.
    pub fn new(id: u16) -> (r: Option<UciMoveId>)
        ensures
            id < Self::TOTAL <==> r is Some,
            r matches Some(m) ==> m@ == id,
    {
        if id < Self::TOTAL {
            Some(Self(id))
        } else {
            None
        }
    }

    /// The UCI move with this id (see `spec_to_uci`).
    pub fn to_uci(&self) -> (u: UciMove)
        ensures
            u == spec_to_uci(self@),
    {
        proof {
            use_type_invariant(self);
        }
        let id = self.0;
        if id < 448 {
            let sq = id / 7;
            let sub = id % 7;
            let rank = Rank::new((sq % 8) as u8);
            let file = File::new((sq / 8) as u8);
            let from = Square::from_coords(file, rank);
            let to_file = sub + if sub >= file.index() as u16 {
                1
            } else {
                0
            };
            let to = Square::from_coords(File::new(to_file as u8), rank);
            UciMove::Normal { from, to, promotion: None }
        } else if id < 896 {
            let id = id - 448;
            let sq = id / 7;
            let sub = id % 7;
            let rank = Rank::new((sq % 8) as u8);
            let file = File::new((sq / 8) as u8);
            let from = Square::from_coords(file, rank);
            let to_rank = sub + if sub >= rank.index() as u16 {
                1
            } else {
                0
            };
            let to = Square::from_coords(file, Rank::new(to_rank as u8));
            UciMove::Normal { from, to, promotion: None }
        } else if id < 1176 {
            diagonal_to_uci(id)
        } else if id < 1456 {
            anti_diagonal_to_uci(id)
        } else if id < 1792 {
            knight_to_uci(id)
        } else {
            promotion_to_uci(id)
        }
    }

    /// The id of a UCI move: `None` for drops, the null move, and moves that
    /// are neither queen-like nor knight-like. A promotion must be to a
    /// knight, bishop, rook or queen.
    pub fn from_uci(uci: UciMove) -> (r: Option<UciMoveId>)
        requires
            uci_encodable(uci),
        ensures
            r is Some <==> spec_from_uci(uci) is Some,
            r matches Some(id) ==> spec_from_uci(uci) == Some(id@),
    {
        let (from, to, promotion) = match uci {
            UciMove::Normal { from, to, promotion } => (from, to, promotion),
            _ => return None,
        };
        let id = if let Some(promotion) = promotion {
            let promotion_id: u16 = match promotion {
                Role::Knight => 0,
                Role::Bishop => 1,
                Role::Rook => 2,
                Role::Queen => 3,
                Role::Pawn | Role::King => {
                    proof {
                        assert(false);
                    }
                    0
                },
            };
            let from_file = from.file().index();
            let to_file = to.file().index();
            let file_id = if from_file == to_file {
                0
            } else if from_file < to_file {
                8
            } else {
                14
            } + from_file as u16;
            1792 + 4 * file_id + promotion_id
        } else {
            let ff = from.file().index() as u16;
            let fr = from.rank().index() as u16;
            let tf = to.file().index() as u16;
            let tr = to.rank().index() as u16;
            match move_id(ff, fr, tf, tr) {
                Some(id) => id,
                None => return None,
            }
        };
        proof {
            lemma_uci_code_range(uci);
        }
        Some(UciMoveId(id))
    }

    /// The id of a move, written in UCI the standard way (castling as the
    /// king's two-square move). The move must have an id (see `move_encodable`).
    pub fn from_move(m: &ChessMove) -> (id: UciMoveId)
        requires
            move_encodable(*m),
        ensures
            spec_from_uci(m.spec_to_uci(CastlingMode::Standard)) == Some(id@),
    {
        match UciMoveId::from_uci(m.to_uci(CastlingMode::Standard)) {
            Some(id) => id,
            None => {
                proof {
                    assert(false);
                }
                UciMoveId(0)
            },
        }
    }

    /// The legal move of `pos` that this id's UCI move describes, or
    /// `IllegalUciMoveError` when the position has none.
    pub fn to_move(&self, pos: &Chess) -> (r: Result<shakmaty::Move, IllegalUciMoveError>)
        ensures
            r is Ok <==> spec_legal_move(spec_to_uci(self@), *pos) is Some,
            r matches Ok(m) ==> spec_legal_move(spec_to_uci(self@), *pos) == Some(m),
    {
        match legal_move(self.to_uci(), pos) {
            Some(m) => Ok(m),
            None => Err(IllegalUciMoveError),
        }
    }
}

/// A move that has an id: its standard UCI form is encodable and is a
/// queen-like move, a knight jump or a promotion.
pub open spec fn move_encodable(m: ChessMove) -> bool {
    &&& uci_encodable(m.spec_to_uci(CastlingMode::Standard))
    &&& spec_from_uci(m.spec_to_uci(CastlingMode::Standard)) is Some
}

/// Whether a UCI move can be given to `UciMoveId::from_uci`.
pub fn uci_is_encodable(u: &UciMove) -> (b: bool)
    ensures
        b == uci_encodable(*u),
{
    match u {
        UciMove::Normal { promotion: Some(role), .. } => match role {
            Role::Pawn | Role::King => false,
            _ => true,
        },
        _ => true,
    }
}

/// Whether a move has an id (see `move_encodable`).
pub fn move_is_encodable(m: &ChessMove) -> (b: bool)
    ensures
        b == move_encodable(*m),
{
    let u = m.to_uci(CastlingMode::Standard);
    uci_is_encodable(&u) && UciMoveId::from_uci(u).is_some()
}

/// The move an id names is not legal in the position it was asked of.
#[derive(Debug, Clone, Copy, PartialEq, Eq, Structural)]
pub struct IllegalUciMoveError;

/// `shakmaty::Chess`, a position of standard chess, carried through opaque.
#[verifier::external_type_specification]
#[verifier::external_body]
pub struct ExChess(shakmaty::Chess);

/// `shakmaty::Move`, a move legal in some position, handed back opaque.
#[verifier::external_type_specification]
#[verifier::external_body]
pub struct ExShakmatyMove(shakmaty::Move);

/// What `shakmaty::uci::UciMove::to_move` gives for a UCI move (the same move
/// with squares by index and roles by name) in a position: the legal move it
/// describes, or `None` for `IllegalUciMoveError`.
pub uninterp spec fn spec_legal_move(uci: UciMove, pos: Chess) -> Option<shakmaty::Move>;

/// `shakmaty::uci::UciMove::to_move` on the same UCI move (squares by index
/// `file + 8 * rank`, roles by name): the legal move of `pos` it describes
/// (castling when the king moves two squares or onto its own rook, en passant
/// when a pawn moves diagonally to an empty square), or `None` where shakmaty
/// returns `IllegalUciMoveError`. The result is claimed to depend on the UCI
/// move and the position alone (`spec_legal_move`).
#[verifier::external_body]
fn legal_move(uci: UciMove, pos: &Chess) -> (r: Option<shakmaty::Move>)
    ensures
        r == spec_legal_move(uci, *pos),
{
    let square = |sq: Square| shakmaty::Square::new(u32::from(sq.index()));
    let role = |r: Role| shakmaty::Role::ALL[usize::from(r.index())];
    let outside = match uci {
        UciMove::Normal { from, to, promotion } => shakmaty::uci::UciMove::Normal {
            from: square(from),
            to: square(to),
            promotion: promotion.map(role),
        },
        UciMove::Put { role: r, to } => shakmaty::uci::UciMove::Put { role: role(r), to: square(to) },
        UciMove::Null => shakmaty::uci::UciMove::Null,
    };
    outside.to_move(pos).ok()
}

} // verus!
