use crate::piece::PieceType;
use vstd::prelude::*;

verus! {

/// How a move differs from moving one piece from a square to another.
#[derive(Clone, Copy, PartialEq, Eq, Debug, Structural)]
pub enum MoveFlag {
    Normal,
    Promotion,
    EnPassant,
    Castle,
}

/// A move, packed into sixteen bits: the square it leaves (6 bits), the square
/// it goes to (6 bits), the piece a pawn is promoted to (2 bits) and its flag
/// (2 bits). Every value is a move; the value zero is the null move.
#[derive(Clone, Copy, PartialEq, Eq, Debug, Structural)]
pub struct Move {
    data: u16,
}

impl Move {
    pub closed spec fn spec_null() -> Move {
        Move { data: 0 }
    }

    /// The null move: the move whose sixteen bits are all zero.
    #[verifier::when_used_as_spec(spec_null)]
    pub fn null() -> (m: Move)
        ensures
            m == Move::spec_null(),
            m.spec_from() == 0,
            m.spec_to() == 0,
            m.spec_flag() == MoveFlag::Normal,
            m.spec_promotion_type() == PieceType::Knight,
    {
        Move { data: 0 }
    }

    pub closed spec fn spec_from(self) -> u8 {
        (self.data % 64) as u8
    }

    pub closed spec fn spec_to(self) -> u8 {
        ((self.data / 64) % 64) as u8
    }

    pub closed spec fn spec_promotion_type(self) -> PieceType {
        let p = (self.data as int / 4096) % 4;
        if p == 0 {
            PieceType::Knight
        } else if p == 1 {
            PieceType::Bishop
        } else if p == 2 {
            PieceType::Rook
        } else {
            PieceType::Queen
        }
    }

    pub closed spec fn spec_flag(self) -> MoveFlag {
        let f = self.data as int / 16384;
        if f == 0 {
            MoveFlag::Normal
        } else if f == 1 {
            MoveFlag::Promotion
        } else if f == 2 {
            MoveFlag::EnPassant
        } else {
            MoveFlag::Castle
        }
    }

    /// The four parts of a move determine it.
    pub proof fn lemma_parts_determine(a: Move, b: Move)
        requires
            a.spec_from() == b.spec_from(),
            a.spec_to() == b.spec_to(),
            a.spec_promotion_type() == b.spec_promotion_type(),
            a.spec_flag() == b.spec_flag(),
        ensures
            a == b,
    {
    }

    /// The squares of a move are squares of the board.
    pub broadcast proof fn lemma_squares_in_range(self)
        ensures
            0 <= #[trigger] self.spec_from() < 64,
            0 <= #[trigger] self.spec_to() < 64,
    {
    }

    /// The move from `from` to `to` that promotes a pawn to `kind`.
    pub closed spec fn spec_promo(from: u8, to: u8, kind: PieceType) -> Move {
        Move { data: (from + 64 * to + 4096 * Self::promo_code(kind) + 16384) as u16 }
    }

    /// The move from `from` to `to` with the flag `flag`.
    pub closed spec fn spec_flagged(from: u8, to: u8, flag: MoveFlag) -> Move {
        Move { data: (from + 64 * to + 16384 * Self::flag_code(flag)) as u16 }
    }

    /// The ordinary move from `from` to `to`.
    pub open spec fn spec_new(from: u8, to: u8) -> Move {
        Self::spec_flagged(from, to, MoveFlag::Normal)
    }

    pub open spec fn flag_code(flag: MoveFlag) -> int {
        match flag {
            MoveFlag::Normal => 0,
            MoveFlag::Promotion => 1,
            MoveFlag::EnPassant => 2,
            MoveFlag::Castle => 3,
        }
    }

    /// What the parts of a move made from its parts are.
    pub broadcast proof fn lemma_flagged_parts(from: u8, to: u8, flag: MoveFlag)
        requires
            from < 64,
            to < 64,
        ensures
            (#[trigger] Self::spec_flagged(from, to, flag)).spec_from() == from,
            Self::spec_flagged(from, to, flag).spec_to() == to,
            Self::spec_flagged(from, to, flag).spec_flag() == flag,
    {
    }

    /// What the parts of a promotion made from its parts are.
    pub broadcast proof fn lemma_promo_parts(from: u8, to: u8, kind: PieceType)
        requires
            from < 64,
            to < 64,
            kind != PieceType::Pawn,
            kind != PieceType::King,
        ensures
            (#[trigger] Self::spec_promo(from, to, kind)).spec_from() == from,
            Self::spec_promo(from, to, kind).spec_to() == to,
            Self::spec_promo(from, to, kind).spec_flag() == MoveFlag::Promotion,
            Self::spec_promo(from, to, kind).spec_promotion_type() == kind,
    {
    }

    pub open spec fn promo_code(kind: PieceType) -> int {
        match kind {
            PieceType::Bishop => 1,
            PieceType::Rook => 2,
            PieceType::Queen => 3,
            _ => 0,
        }
    }

    /// An ordinary move from `from` to `to`.
    pub fn new(from: u8, to: u8) -> (m: Move)
        requires
            from < 64,
            to < 64,
        ensures
            m == Move::spec_new(from, to),
            m.spec_from() == from,
            m.spec_to() == to,
            m.spec_flag() == MoveFlag::Normal,
            m.spec_promotion_type() == PieceType::Knight,
    {
        Move { data: from as u16 + 64 * (to as u16) }
    }

    /// The move of a pawn from `from` to `to` that promotes it to `kind`, which
    /// is a knight, a bishop, a rook or a queen.
    pub fn new_with_promo(from: u8, to: u8, kind: PieceType) -> (m: Move)
        requires
            from < 64,
            to < 64,
            kind != PieceType::Pawn,
            kind != PieceType::King,
        ensures
            m == Move::spec_promo(from, to, kind),
            m.spec_from() == from,
            m.spec_to() == to,
            m.spec_flag() == MoveFlag::Promotion,
            m.spec_promotion_type() == kind,
    {
        let code: u16 = match kind {
            PieceType::Bishop => 1,
            PieceType::Rook => 2,
            PieceType::Queen => 3,
            _ => 0,
        };
        Move { data: from as u16 + 64 * (to as u16) + 4096 * code + 16384 }
    }

    /// The move of a pawn from `from` to `to` or of a king from `from` to `to`
    /// with one of the two flags `EnPassant` and `Castle`, or any other flag
    /// with no promotion.
    pub fn new_with_flag(from: u8, to: u8, flag: MoveFlag) -> (m: Move)
        requires
            from < 64,
            to < 64,
        ensures
            m == Move::spec_flagged(from, to, flag),
            m.spec_from() == from,
            m.spec_to() == to,
            m.spec_flag() == flag,
            m.spec_promotion_type() == PieceType::Knight,
    {
        let code: u16 = match flag {
            MoveFlag::Normal => 0,
            MoveFlag::Promotion => 1,
            MoveFlag::EnPassant => 2,
            MoveFlag::Castle => 3,
        };
        Move { data: from as u16 + 64 * (to as u16) + 16384 * code }
    }

    /// The square that the move leaves.
    #[verifier::when_used_as_spec(spec_from)]
    pub fn from(self) -> (sq: u8)
        ensures
            sq == self.spec_from(),
            sq < 64,
    {
        (self.data % 64) as u8
    }

    /// The square that the move goes to.
    #[verifier::when_used_as_spec(spec_to)]
    pub fn to(self) -> (sq: u8)
        ensures
            sq == self.spec_to(),
            sq < 64,
    {
        ((self.data / 64) % 64) as u8
    }

    /// The flag of the move.
    #[verifier::when_used_as_spec(spec_flag)]
    pub fn flag(self) -> (f: MoveFlag)
        ensures
            f == self.spec_flag(),
    {
        let f = self.data / 16384;
        if f == 0 {
            MoveFlag::Normal
        } else if f == 1 {
            MoveFlag::Promotion
        } else if f == 2 {
            MoveFlag::EnPassant
        } else {
            MoveFlag::Castle
        }
    }

    /// The kind of piece that a promotion makes; meaningful for a move with the
    /// flag `Promotion` only.
    #[verifier::when_used_as_spec(spec_promotion_type)]
    pub fn promotion_type(self) -> (k: PieceType)
        ensures
            k == self.spec_promotion_type(),
    {
        let p = (self.data / 4096) % 4;
        if p == 0 {
            PieceType::Knight
        } else if p == 1 {
            PieceType::Bishop
        } else if p == 2 {
            PieceType::Rook
        } else {
            PieceType::Queen
        }
    }

    pub open spec fn spec_is_null(self) -> bool {
        self == Move::spec_null()
    }

    /// Whether this is the null move.
    #[verifier::when_used_as_spec(spec_is_null)]
    pub fn is_null(self) -> (r: bool)
        ensures
            r == (self == Move::spec_null()),
    {
        self.data == 0
    }

    pub open spec fn spec_is_ep(self) -> bool {
        self.spec_flag() == MoveFlag::EnPassant
    }

    /// Whether this is a capture en passant.
    #[verifier::when_used_as_spec(spec_is_ep)]
    pub fn is_ep(self) -> (r: bool)
        ensures
            r == self.spec_is_ep(),
    {
        self.data / 16384 == 2
    }

    pub open spec fn spec_is_castle(self) -> bool {
        self.spec_flag() == MoveFlag::Castle
    }

    /// Whether this move castles.
    #[verifier::when_used_as_spec(spec_is_castle)]
    pub fn is_castle(self) -> (r: bool)
        ensures
            r == self.spec_is_castle(),
    {
        self.data / 16384 == 3
    }

    pub open spec fn spec_is_promo(self) -> bool {
        self.spec_flag() == MoveFlag::Promotion
    }

    /// Whether this move promotes a pawn.
    #[verifier::when_used_as_spec(spec_is_promo)]
    pub fn is_promo(self) -> (r: bool)
        ensures
            r == self.spec_is_promo(),
    {
        self.data / 16384 == 1
    }
}

} // verus!
