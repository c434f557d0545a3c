//! Plain-value model of the chess vocabulary the agent works with: files,
//! ranks, squares, piece roles, moves and their UCI form.

use vstd::prelude::*;

verus! {

/// A file (column) of the board, from `A` to `H`.
#[derive(Debug, Clone, Copy, PartialEq, Eq, Structural, PartialOrd, Ord, Hash)]
pub enum File {
    A,
    B,
    C,
    D,
    E,
    F,
    G,
    H,
}

impl View for File {
    type V = int;

    /// The index of the file, `A` being 0.
    open spec fn view(&self) -> int {
        match *self {
            File::A => 0,
            File::B => 1,
            File::C => 2,
            File::D => 3,
            File::E => 4,
            File::F => 5,
            File::G => 6,
            File::H => 7,
        }
    }
}

impl File {
    /// The file with the given index; the index must be below 8.
    pub fn new(index: u8) -> (f: File)
        requires
            index < 8,
        ensures
            f@ == index,
    {
        match index {
            0 => File::A,
            1 => File::B,
            2 => File::C,
            3 => File::D,
            4 => File::E,
            5 => File::F,
            6 => File::G,
            _ => File::H,
        }
    }

    /// The index of the file, `A` being 0.
    pub fn index(self) -> (i: u8)
        ensures
            i == self@,
            i < 8,
    {
        match self {
            File::A => 0,
            File::B => 1,
            File::C => 2,
            File::D => 3,
            File::E => 4,
            File::F => 5,
            File::G => 6,
            File::H => 7,
        }
    }
}

/// A rank (row) of the board, from `First` to `Eighth`.
#[derive(Debug, Clone, Copy, PartialEq, Eq, Structural, PartialOrd, Ord, Hash)]
pub enum Rank {
    First,
    Second,
    Third,
    Fourth,
    Fifth,
    Sixth,
    Seventh,
    Eighth,
}

impl View for Rank {
    type V = int;

    /// The index of the rank, `First` being 0.
    open spec fn view(&self) -> int {
        match *self {
            Rank::First => 0,
            Rank::Second => 1,
            Rank::Third => 2,
            Rank::Fourth => 3,
            Rank::Fifth => 4,
            Rank::Sixth => 5,
            Rank::Seventh => 6,
            Rank::Eighth => 7,
        }
    }
}

impl Rank {
    /// The rank with the given index; the index must be below 8.
    pub fn new(index: u8) -> (r: Rank)
        requires
            index < 8,
        ensures
            r@ == index,
    {
        match index {
            0 => Rank::First,
            1 => Rank::Second,
            2 => Rank::Third,
            3 => Rank::Fourth,
            4 => Rank::Fifth,
            5 => Rank::Sixth,
            6 => Rank::Seventh,
            _ => Rank::Eighth,
        }
    }

    /// The index of the rank, `First` being 0.
    pub fn index(self) -> (i: u8)
        ensures
            i == self@,
            i < 8,
    {
        match self {
            Rank::First => 0,
            Rank::Second => 1,
            Rank::Third => 2,
            Rank::Fourth => 3,
            Rank::Fifth => 4,
            Rank::Sixth => 5,
            Rank::Seventh => 6,
            Rank::Eighth => 7,
        }
    }
}

/// A square of the board, given by its file and rank.
#[derive(Debug, Clone, Copy, PartialEq, Eq, Structural, Hash)]
pub struct Square {
    pub file: File,
    pub rank: Rank,
}

impl Square {
    /// The index of the square: `file + 8 * rank`, so `a1` is 0 and `h8` is 63.
    pub open spec fn spec_index(self) -> int {
        self.file@ + 8 * self.rank@
    }

    /// The square on the given file and rank.
    pub fn from_coords(file: File, rank: Rank) -> (sq: Square)
        ensures
            sq.file == file,
            sq.rank == rank,
    {
        Square { file, rank }
    }

    /// The square with the given index (`file + 8 * rank`); the index must be below 64.
    pub fn new(index: u8) -> (sq: Square)
        requires
            index < 64,
        ensures
            sq.spec_index() == index,
    {
        Square { file: File::new(index % 8), rank: Rank::new(index / 8) }
    }

    /// The file of the square.
    pub fn file(self) -> (f: File)
        ensures
            f == self.file,
    {
        self.file
    }

    /// The rank of the square.
    pub fn rank(self) -> (r: Rank)
        ensures
            r == self.rank,
    {
        self.rank
    }

    /// The index of the square, `file + 8 * rank`.
    pub fn index(self) -> (i: u8)
        ensures
            i == self.spec_index(),
            i < 64,
    {
        self.file.index() + 8 * self.rank.index()
    }

    /// The square mirrored across the horizontal middle of the board:
    /// same file, rank `7 - rank`.
    pub open spec fn spec_flip_vertical(self) -> Square {
        Square { file: self.file, rank: rank_from_index(7 - self.rank@) }
    }

    /// The square mirrored across the horizontal middle of the board.
    pub fn flip_vertical(self) -> (sq: Square)
        ensures
            sq == self.spec_flip_vertical(),
            sq.file == self.file,
            sq.rank@ == 7 - self.rank@,
    {
        Square { file: self.file, rank: Rank::new(7 - self.rank.index()) }
    }
}

/// The rank with the given index (`Eighth` for anything above 6).
pub open spec fn rank_from_index(i: int) -> Rank {
    if i <= 0 {
        Rank::First
    } else if i == 1 {
        Rank::Second
    } else if i == 2 {
        Rank::Third
    } else if i == 3 {
        Rank::Fourth
    } else if i == 4 {
        Rank::Fifth
    } else if i == 5 {
        Rank::Sixth
    } else if i == 6 {
        Rank::Seventh
    } else {
        Rank::Eighth
    }
}

/// The file with the given index (`H` for anything above 6).
pub open spec fn file_from_index(i: int) -> File {
    if i <= 0 {
        File::A
    } else if i == 1 {
        File::B
    } else if i == 2 {
        File::C
    } else if i == 3 {
        File::D
    } else if i == 4 {
        File::E
    } else if i == 5 {
        File::F
    } else if i == 6 {
        File::G
    } else {
        File::H
    }
}

/// The square on file `f` and rank `r`, both taken as indices.
pub open spec fn square_at(f: int, r: int) -> Square {
    Square { file: file_from_index(f), rank: rank_from_index(r) }
}

/// A kind of chess piece.
#[derive(Debug, Clone, Copy, PartialEq, Eq, Structural, PartialOrd, Ord, Hash)]
pub enum Role {
    Pawn,
    Knight,
    Bishop,
    Rook,
    Queen,
    King,
}

impl Role {
    /// The position of the role in the order pawn, knight, bishop, rook,
    /// queen, king, from 0.
    pub open spec fn spec_index(self) -> int {
        match self {
            Role::Pawn => 0,
            Role::Knight => 1,
            Role::Bishop => 2,
            Role::Rook => 3,
            Role::Queen => 4,
            Role::King => 5,
        }
    }

    /// The position of the role in the order pawn, knight, bishop, rook,
    /// queen, king, from 0.
    pub fn index(self) -> (i: u8)
        ensures
            i == self.spec_index(),
    {
        match self {
            Role::Pawn => 0,
            Role::Knight => 1,
            Role::Bishop => 2,
            Role::Rook => 3,
            Role::Queen => 4,
            Role::King => 5,
        }
    }
}

/// How castling moves are written in UCI.
#[derive(Debug, Clone, Copy, PartialEq, Eq, Structural, Hash)]
pub enum CastlingMode {
    /// The king moves two squares towards the rook (`e1g1`).
    Standard,
    /// The king moves onto the rook's square (`e1h1`).
    Chess960,
}

/// A move as written in the UCI protocol.
#[derive(Debug, Clone, Copy, PartialEq, Eq, Structural, Hash)]
pub enum UciMove {
    /// A move from one square to another, possibly promoting a pawn (`e2e4`, `h2h1q`).
    Normal { from: Square, to: Square, promotion: Option<Role> },
    /// A piece drop (`Q@f7`).
    Put { role: Role, to: Square },
    /// The null move (`0000`).
    Null,
}

/// A move on a chess board.
#[derive(Debug, Clone, Copy, PartialEq, Eq, Structural, Hash)]
pub enum ChessMove {
    /// An ordinary move of a piece, possibly capturing and possibly promoting.
    Normal { role: Role, from: Square, capture: Option<Role>, to: Square, promotion: Option<Role> },
    /// An en passant capture.
    EnPassant { from: Square, to: Square },
    /// Castling, given by the king's and the rook's squares.
    Castle { king: Square, rook: Square },
    /// A piece drop.
    Put { role: Role, to: Square },
}

impl ChessMove {
    /// The UCI form of a move. A castling move is written as the king's move
    /// to the g-file (king side, the rook to the king's right) or to the
    /// c-file (queen side) in `Standard` mode, and as the king's move onto the
    /// rook's square in `Chess960` mode.
    pub open spec fn spec_to_uci(self, mode: CastlingMode) -> UciMove {
        match self {
            ChessMove::Normal { from, to, promotion, .. } => UciMove::Normal { from, to, promotion },
            ChessMove::EnPassant { from, to } => UciMove::Normal { from, to, promotion: None },
            ChessMove::Castle { king, rook } => match mode {
                CastlingMode::Standard => UciMove::Normal {
                    from: king,
                    to: Square {
                        file: if king.spec_index() < rook.spec_index() {
                            File::G
                        } else {
                            File::C
                        },
                        rank: king.rank,
                    },
                    promotion: None,
                },
                CastlingMode::Chess960 => UciMove::Normal { from: king, to: rook, promotion: None },
            },
            ChessMove::Put { role, to } => UciMove::Put { role, to },
        }
    }

    /// The UCI form of the move (see `spec_to_uci`).
    pub fn to_uci(self, mode: CastlingMode) -> (u: UciMove)
        ensures
            u == self.spec_to_uci(mode),
    {
        match self {
            ChessMove::Normal { from, to, promotion, .. } => UciMove::Normal { from, to, promotion },
            ChessMove::EnPassant { from, to } => UciMove::Normal { from, to, promotion: None },
            ChessMove::Castle { king, rook } => match mode {
                CastlingMode::Standard => {
                    let file = if king.index() < rook.index() {
                        File::G
                    } else {
                        File::C
                    };
                    UciMove::Normal {
                        from: king,
                        to: Square::from_coords(file, king.rank()),
                        promotion: None,
                    }
                },
                CastlingMode::Chess960 => UciMove::Normal { from: king, to: rook, promotion: None },
            },
            ChessMove::Put { role, to } => UciMove::Put { role, to },
        }
    }

    /// The same move seen from the other side of the board: every square
    /// mirrored vertically, pieces unchanged.
    pub open spec fn spec_to_mirrored(self) -> ChessMove {
        match self {
            ChessMove::Normal { role, from, capture, to, promotion } => ChessMove::Normal {
                role,
                from: from.spec_flip_vertical(),
                capture,
                to: to.spec_flip_vertical(),
                promotion,
            },
            ChessMove::EnPassant { from, to } => ChessMove::EnPassant {
                from: from.spec_flip_vertical(),
                to: to.spec_flip_vertical(),
            },
            ChessMove::Castle { king, rook } => ChessMove::Castle {
                king: king.spec_flip_vertical(),
                rook: rook.spec_flip_vertical(),
            },
            ChessMove::Put { role, to } => ChessMove::Put { role, to: to.spec_flip_vertical() },
        }
    }

    /// The move mirrored vertically (see `spec_to_mirrored`).
    pub fn to_mirrored(self) -> (m: ChessMove)
        ensures
            m == self.spec_to_mirrored(),
    {
        match self {
            ChessMove::Normal { role, from, capture, to, promotion } => ChessMove::Normal {
                role,
                from: from.flip_vertical(),
                capture,
                to: to.flip_vertical(),
                promotion,
            },
            ChessMove::EnPassant { from, to } => ChessMove::EnPassant {
                from: from.flip_vertical(),
                to: to.flip_vertical(),
            },
            ChessMove::Castle { king, rook } => ChessMove::Castle {
                king: king.flip_vertical(),
                rook: rook.flip_vertical(),
            },
            ChessMove::Put { role, to } => ChessMove::Put { role, to: to.flip_vertical() },
        }
    }
}

impl ChessMove {
    /// The square the move starts from (the king's, for castling), or `None`
    /// for a drop.
    pub open spec fn origin(self) -> Option<Square> {
        match self {
            ChessMove::Normal { from, .. } => Some(from),
            ChessMove::EnPassant { from, .. } => Some(from),
            ChessMove::Castle { king, .. } => Some(king),
            ChessMove::Put { .. } => None,
        }
    }

    /// The square the move goes to (the rook's, for castling).
    pub open spec fn target(self) -> Square {
        match self {
            ChessMove::Normal { to, .. } => to,
            ChessMove::EnPassant { to, .. } => to,
            ChessMove::Castle { rook, .. } => rook,
            ChessMove::Put { to, .. } => to,
        }
    }

    /// The piece a pawn promotes to, if the move is a promotion.
    pub open spec fn promotion(self) -> Option<Role> {
        match self {
            ChessMove::Normal { promotion, .. } => promotion,
            _ => None,
        }
    }

    /// Whether two moves are of the same kind (normal, en passant, castling,
    /// drop) and move the same role, capture the same role and promote to the
    /// same role.
    pub open spec fn same_kind(self, other: ChessMove) -> bool {
        match (self, other) {
            (
                ChessMove::Normal { role: a, capture: c, promotion: p, .. },
                ChessMove::Normal { role: b, capture: d, promotion: q, .. },
            ) => a == b && c == d && p == q,
            (ChessMove::EnPassant { .. }, ChessMove::EnPassant { .. }) => true,
            (ChessMove::Castle { .. }, ChessMove::Castle { .. }) => true,
            (ChessMove::Put { role: a, .. }, ChessMove::Put { role: b, .. }) => a == b,
            _ => false,
        }
    }
}

impl UciMove {
    /// The UCI move mirrored vertically: both squares flipped, the rest kept.
    pub open spec fn spec_mirrored(self) -> UciMove {
        match self {
            UciMove::Normal { from, to, promotion } => UciMove::Normal {
                from: from.spec_flip_vertical(),
                to: to.spec_flip_vertical(),
                promotion,
            },
            UciMove::Put { role, to } => UciMove::Put { role, to: to.spec_flip_vertical() },
            UciMove::Null => UciMove::Null,
        }
    }
}

/// Mirroring a move flips each of its squares in place: it starts from the
/// flipped origin, goes to the flipped target, and is of the same kind.
pub proof fn lemma_mirror_flips_squares(m: ChessMove)
    ensures
        m.spec_to_mirrored().same_kind(m),
        m.spec_to_mirrored().target() == m.target().spec_flip_vertical(),
        m.spec_to_mirrored().origin() == (match m.origin() {
            Some(sq) => Some(sq.spec_flip_vertical()),
            None => None,
        }),
{
}

/// The UCI form of a move starts at its origin, carries its promotion, and
/// ends at its target, except for standard castling, where the king goes two
/// files towards the rook on its own rank; a drop stays a drop.
pub proof fn lemma_uci_of_move(m: ChessMove, mode: CastlingMode)
    ensures
        m.origin() matches Some(from) ==> (m.spec_to_uci(mode) matches UciMove::Normal {
            from: f,
            to: t,
            promotion: p,
        } && f == from && p == m.promotion() && (!(m is Castle && mode == CastlingMode::Standard)
            ==> t == m.target())),
        m is Castle && mode == CastlingMode::Standard ==> (m.spec_to_uci(mode) matches UciMove::Normal {
            to: t,
            ..
        } && t.rank == m.origin().unwrap().rank && (t.file@ == 6 || t.file@ == 2)),
        m is Put ==> m.spec_to_uci(mode) == (UciMove::Put { role: m->Put_role, to: m.target() }),
{
}

/// Mirroring commutes with writing a move in UCI, for castling with king and
/// rook on one rank: the UCI form of the mirrored move is the mirrored UCI
/// form. So a black move, mirrored, is written as white's matching move.
pub proof fn lemma_mirror_commutes_with_uci(m: ChessMove, mode: CastlingMode)
    requires
        m matches ChessMove::Castle { king, rook } ==> king.rank == rook.rank,
    ensures
        m.spec_to_mirrored().spec_to_uci(mode) == m.spec_to_uci(mode).spec_mirrored(),
{
}

/// Mirroring a square twice gives it back.
pub proof fn lemma_square_flip_involution(sq: Square)
    ensures
        sq.spec_flip_vertical().spec_flip_vertical() == sq,
{
}

/// Mirroring a move twice gives it back.
pub proof fn lemma_mirror_involution(m: ChessMove)
    ensures
        m.spec_to_mirrored().spec_to_mirrored() == m,
{
    match m {
        ChessMove::Normal { from, to, .. } => {
            lemma_square_flip_involution(from);
            lemma_square_flip_involution(to);
        },
        ChessMove::EnPassant { from, to } => {
            lemma_square_flip_involution(from);
            lemma_square_flip_involution(to);
        },
        ChessMove::Castle { king, rook } => {
            lemma_square_flip_involution(king);
            lemma_square_flip_involution(rook);
        },
        ChessMove::Put { to, .. } => {
            lemma_square_flip_involution(to);
        },
    }
}

} // verus!
