use vstd::prelude::*;

verus! {

#[derive(Clone, Copy, PartialEq, Eq, Debug, Structural)]
pub enum Colour {
    White,
    Black,
}

impl Colour {
    pub open spec fn spec_index(self) -> usize {
        match self {
            Colour::White => 0,
            Colour::Black => 1,
        }
    }

    /// 0 for White and 1 for Black.
    #[verifier::when_used_as_spec(spec_index)]
    pub fn index(self) -> (i: usize)
        ensures
            i == self.spec_index(),
    {
        match self {
            Colour::White => 0,
            Colour::Black => 1,
        }
    }

    pub open spec fn spec_flip(self) -> Colour {
        match self {
            Colour::White => Colour::Black,
            Colour::Black => Colour::White,
        }
    }

    /// The other side.
    #[verifier::when_used_as_spec(spec_flip)]
    pub fn flip(self) -> (c: Colour)
        ensures
            c == self.spec_flip(),
    {
        match self {
            Colour::White => Colour::Black,
            Colour::Black => Colour::White,
        }
    }
}

#[derive(Clone, Copy, PartialEq, Eq, Debug, Structural)]
pub enum PieceType {
    Pawn,
    Knight,
    Bishop,
    Rook,
    Queen,
    King,
}

impl PieceType {
    pub open spec fn spec_index(self) -> usize {
        match self {
            PieceType::Pawn => 0,
            PieceType::Knight => 1,
            PieceType::Bishop => 2,
            PieceType::Rook => 3,
            PieceType::Queen => 4,
            PieceType::King => 5,
        }
    }

    /// 0 for a pawn up to 5 for a king.
    #[verifier::when_used_as_spec(spec_index)]
    pub fn index(self) -> (i: usize)
        ensures
            i == self.spec_index(),
    {
        match self {
            PieceType::Pawn => 0,
            PieceType::Knight => 1,
            PieceType::Bishop => 2,
            PieceType::Rook => 3,
            PieceType::Queen => 4,
            PieceType::King => 5,
        }
    }
}

/// What stands on a square: nothing, or a piece of one of the two sides.
#[derive(Clone, Copy, PartialEq, Eq, Debug, Structural)]
pub enum Piece {
    Empty,
    WP,
    WN,
    WB,
    WR,
    WQ,
    WK,
    BP,
    BN,
    BB,
    BR,
    BQ,
    BK,
}

/// The number of values that a `Piece` can take, `Empty` included.
pub const PIECE_SLOTS: usize = 13;

impl Piece {
    pub open spec fn spec_index(self) -> usize {
        match self {
            Piece::Empty => 0,
            Piece::WP => 1,
            Piece::WN => 2,
            Piece::WB => 3,
            Piece::WR => 4,
            Piece::WQ => 5,
            Piece::WK => 6,
            Piece::BP => 7,
            Piece::BN => 8,
            Piece::BB => 9,
            Piece::BR => 10,
            Piece::BQ => 11,
            Piece::BK => 12,
        }
    }

    /// 0 for `Empty`, 1 to 6 for White's pawn to king, 7 to 12 for Black's.
    #[verifier::when_used_as_spec(spec_index)]
    pub fn index(self) -> (i: usize)
        ensures
            i == self.spec_index(),
            i < PIECE_SLOTS,
    {
        match self {
            Piece::Empty => 0,
            Piece::WP => 1,
            Piece::WN => 2,
            Piece::WB => 3,
            Piece::WR => 4,
            Piece::WQ => 5,
            Piece::WK => 6,
            Piece::BP => 7,
            Piece::BN => 8,
            Piece::BB => 9,
            Piece::BR => 10,
            Piece::BQ => 11,
            Piece::BK => 12,
        }
    }

    pub open spec fn spec_colour(self) -> Option<Colour> {
        match self {
            Piece::Empty => None,
            Piece::WP | Piece::WN | Piece::WB | Piece::WR | Piece::WQ | Piece::WK => Some(
                Colour::White,
            ),
            _ => Some(Colour::Black),
        }
    }

    /// The side that the piece belongs to; none for `Empty`.
    #[verifier::when_used_as_spec(spec_colour)]
    pub fn colour(self) -> (c: Option<Colour>)
        ensures
            c == self.spec_colour(),
    {
        match self {
            Piece::Empty => None,
            Piece::WP | Piece::WN | Piece::WB | Piece::WR | Piece::WQ | Piece::WK => Some(
                Colour::White,
            ),
            _ => Some(Colour::Black),
        }
    }

    pub open spec fn spec_kind(self) -> Option<PieceType> {
        match self {
            Piece::Empty => None,
            Piece::WP | Piece::BP => Some(PieceType::Pawn),
            Piece::WN | Piece::BN => Some(PieceType::Knight),
            Piece::WB | Piece::BB => Some(PieceType::Bishop),
            Piece::WR | Piece::BR => Some(PieceType::Rook),
            Piece::WQ | Piece::BQ => Some(PieceType::Queen),
            Piece::WK | Piece::BK => Some(PieceType::King),
        }
    }

    /// The kind of the piece; none for `Empty`.
    #[verifier::when_used_as_spec(spec_kind)]
    pub fn kind(self) -> (k: Option<PieceType>)
        ensures
            k == self.spec_kind(),
    {
        match self {
            Piece::Empty => None,
            Piece::WP | Piece::BP => Some(PieceType::Pawn),
            Piece::WN | Piece::BN => Some(PieceType::Knight),
            Piece::WB | Piece::BB => Some(PieceType::Bishop),
            Piece::WR | Piece::BR => Some(PieceType::Rook),
            Piece::WQ | Piece::BQ => Some(PieceType::Queen),
            Piece::WK | Piece::BK => Some(PieceType::King),
        }
    }

    pub open spec fn spec_new(colour: Colour, kind: PieceType) -> Piece {
        match (colour, kind) {
            (Colour::White, PieceType::Pawn) => Piece::WP,
            (Colour::White, PieceType::Knight) => Piece::WN,
            (Colour::White, PieceType::Bishop) => Piece::WB,
            (Colour::White, PieceType::Rook) => Piece::WR,
            (Colour::White, PieceType::Queen) => Piece::WQ,
            (Colour::White, PieceType::King) => Piece::WK,
            (Colour::Black, PieceType::Pawn) => Piece::BP,
            (Colour::Black, PieceType::Knight) => Piece::BN,
            (Colour::Black, PieceType::Bishop) => Piece::BB,
            (Colour::Black, PieceType::Rook) => Piece::BR,
            (Colour::Black, PieceType::Queen) => Piece::BQ,
            (Colour::Black, PieceType::King) => Piece::BK,
        }
    }

    /// The piece of the given side and kind.
    #[verifier::when_used_as_spec(spec_new)]
    pub fn new(colour: Colour, kind: PieceType) -> (p: Piece)
        ensures
            p == Piece::spec_new(colour, kind),
            p.spec_colour() == Some(colour),
            p.spec_kind() == Some(kind),
    {
        match (colour, kind) {
            (Colour::White, PieceType::Pawn) => Piece::WP,
            (Colour::White, PieceType::Knight) => Piece::WN,
            (Colour::White, PieceType::Bishop) => Piece::WB,
            (Colour::White, PieceType::Rook) => Piece::WR,
            (Colour::White, PieceType::Queen) => Piece::WQ,
            (Colour::White, PieceType::King) => Piece::WK,
            (Colour::Black, PieceType::Pawn) => Piece::BP,
            (Colour::Black, PieceType::Knight) => Piece::BN,
            (Colour::Black, PieceType::Bishop) => Piece::BB,
            (Colour::Black, PieceType::Rook) => Piece::BR,
            (Colour::Black, PieceType::Queen) => Piece::BQ,
            (Colour::Black, PieceType::King) => Piece::BK,
        }
    }

    pub open spec fn spec_from_index(i: usize) -> Piece {
        if i == 1 {
            Piece::WP
        } else if i == 2 {
            Piece::WN
        } else if i == 3 {
            Piece::WB
        } else if i == 4 {
            Piece::WR
        } else if i == 5 {
            Piece::WQ
        } else if i == 6 {
            Piece::WK
        } else if i == 7 {
            Piece::BP
        } else if i == 8 {
            Piece::BN
        } else if i == 9 {
            Piece::BB
        } else if i == 10 {
            Piece::BR
        } else if i == 11 {
            Piece::BQ
        } else if i == 12 {
            Piece::BK
        } else {
            Piece::Empty
        }
    }

    /// The piece with the given index; `Empty` for an index that no piece has.
    #[verifier::when_used_as_spec(spec_from_index)]
    pub fn from_index(i: usize) -> (p: Piece)
        ensures
            p == Piece::spec_from_index(i),
            i < PIECE_SLOTS ==> p.spec_index() == i,
    {
        if i == 1 {
            Piece::WP
        } else if i == 2 {
            Piece::WN
        } else if i == 3 {
            Piece::WB
        } else if i == 4 {
            Piece::WR
        } else if i == 5 {
            Piece::WQ
        } else if i == 6 {
            Piece::WK
        } else if i == 7 {
            Piece::BP
        } else if i == 8 {
            Piece::BN
        } else if i == 9 {
            Piece::BB
        } else if i == 10 {
            Piece::BR
        } else if i == 11 {
            Piece::BQ
        } else if i == 12 {
            Piece::BK
        } else {
            Piece::Empty
        }
    }
}

} // verus!
