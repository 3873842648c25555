pub mod bitboards;
pub mod movepicker;

use crate::bits::{is_set, test_bit};
use crate::board::movegen::bitboards::{attacks, pawn_attacked, pawn_attacks, piece_reach};
use crate::board::{Board, BKCA, BQCA, WKCA, WQCA};
use crate::chessmove::{Move, MoveFlag};
use crate::definitions::{file_of, rank_of};
use crate::piece::{Colour, Piece, PieceType};
use vstd::prelude::*;

verus! {

/// The score that marks the move from the transposition table in a move list.
pub const TT_MOVE_SCORE: i32 = 20_000_000;

/// A move with the score by which it is ordered.
#[derive(Clone, Copy, PartialEq, Eq, Debug, Structural)]
pub struct MoveListEntry {
    pub entry: Move,
    pub score: i32,
}

/// A list of moves, each with a score.
#[derive(Clone, Debug)]
pub struct MoveList {
    pub moves: Vec<MoveListEntry>,
}

/// The entry that a move has when it has just been generated: the move with
/// the score zero.
pub open spec fn fresh(m: Move) -> MoveListEntry {
    MoveListEntry { entry: m, score: 0 }
}

/// The entries that moves have when they have just been generated.
pub open spec fn fresh_all(moves: Seq<Move>) -> Seq<MoveListEntry> {
    moves.map_values(|m: Move| fresh(m))
}

impl MoveList {
    /// The list without a move.
    pub fn new() -> (list: MoveList)
        ensures
            list.moves@.len() == 0,
    {
        MoveList { moves: Vec::new() }
    }

    /// Adds `m` at the end of the list, with the score zero.
    pub fn push(&mut self, m: Move)
        ensures
            final(self).moves@ == old(self).moves@.push(fresh(m)),
    {
        self.moves.push(MoveListEntry { entry: m, score: 0 });
    }
}

/// Whether `p` holds of a square below `n`.
pub open spec fn any_square(p: spec_fn(int) -> bool, n: int) -> bool
    decreases n,
{
    if n <= 0 {
        false
    } else {
        any_square(p, n - 1) || p(n - 1)
    }
}

/// The step of a pawn of `c`, as a difference of squares.
pub open spec fn pawn_step(c: Colour) -> int {
    match c {
        Colour::White => 8,
        Colour::Black => -8,
    }
}

/// The rank from which a pawn of `c` may advance two squares.
pub open spec fn pawn_start_rank(c: Colour) -> int {
    match c {
        Colour::White => 1,
        Colour::Black => 6,
    }
}

/// The rank on which a pawn of `c` is promoted.
pub open spec fn promotion_rank(c: Colour) -> int {
    match c {
        Colour::White => 7,
        Colour::Black => 0,
    }
}

/// Whether a pawn of `c` on `from` attacks `to`.
pub open spec fn pawn_reach(c: Colour, from: int, to: int) -> bool {
    &&& 0 <= from < 64
    &&& 0 <= to < 64
    &&& rank_of(to) - rank_of(from) == pawn_step(c) / 8
    &&& (file_of(to) - file_of(from) == 1 || file_of(to) - file_of(from) == -1)
}

/// The four moves by which a pawn that goes from `from` to `to` is promoted:
/// to a queen, a knight, a rook and a bishop.
pub open spec fn promotions(from: u8, to: u8) -> Seq<Move> {
    seq![
        Move::spec_promo(from, to, PieceType::Queen),
        Move::spec_promo(from, to, PieceType::Knight),
        Move::spec_promo(from, to, PieceType::Rook),
        Move::spec_promo(from, to, PieceType::Bishop),
    ]
}

/// Whether the piece that stands on `s` among `pieces` is of `by` and attacks
/// `sq`, where the squares of `occ` are taken.
pub open spec fn attacks_in(pieces: Seq<Piece>, occ: u64, by: Colour, s: int, sq: int) -> bool {
    match (pieces[s].spec_colour(), pieces[s].spec_kind()) {
        (Some(c), Some(kind)) => c == by && if kind == PieceType::Pawn {
            pawn_reach(by, s, sq)
        } else {
            piece_reach(kind, occ, s, sq)
        },
        _ => false,
    }
}

/// Whether a piece of `by` among `pieces` attacks `sq`.
pub open spec fn attacked_in(pieces: Seq<Piece>, by: Colour, sq: int) -> bool {
    any_square(|s: int| attacks_in(pieces, crate::board::occupancy(pieces), by, s, sq), 64)
}

impl Board {
    /// Whether the piece on `s` is of `by` and attacks `sq`.
    pub open spec fn attacks_from(&self, by: Colour, s: int, sq: int) -> bool {
        attacks_in(self.piece_array@, self.occupied, by, s, sq)
    }

    /// Whether a piece of `by` attacks `sq` is a matter of what stands on the
    /// squares alone.
    pub proof fn lemma_attacked_by(&self, by: Colour, sq: int)
        requires
            self.wf(),
        ensures
            self.attacked_by(by, sq) == attacked_in(self.piece_array@, by, sq),
    {
        self.lemma_occupied();
        assert((|s: int| self.attacks_from(by, s, sq)) =~= (|s: int|
            attacks_in(self.piece_array@, crate::board::occupancy(self.piece_array@), by, s, sq)));
    }

    /// Whether a piece of `by` attacks `sq`.
    pub open spec fn attacked_by(&self, by: Colour, sq: int) -> bool {
        any_square(|s: int| self.attacks_from(by, s, sq), 64)
    }

    /// Whether a piece of `by` attacks `sq`.
    pub fn sq_attacked(&self, sq: u8, by: Colour) -> (r: bool)
        requires
            self.wf(),
            sq < 64,
        ensures
            r == self.attacked_by(by, sq as int),
    {
        let ghost p = |s: int| self.attacks_from(by, s, sq as int);
        let mut s: u8 = 0;
        while s < 64
            invariant
                s <= 64,
                self.wf(),
                sq < 64,
                p == |s: int| self.attacks_from(by, s, sq as int),
                !any_square(p, s as int),
            decreases 64 - s,
        {
            let piece = self.piece_at(s);
            match (piece.colour(), piece.kind()) {
                (Some(c), Some(kind)) => {
                    if c == by {
                        let hit = if kind == PieceType::Pawn {
                            let one = crate::bits::square_bb(s);
                            let att = pawn_attacks(one, by);
                            proof {
                                assert(is_set(att, sq as int) <==> pawn_attacked(
                                    one,
                                    by,
                                    sq as int,
                                ));
                            }
                            test_bit(att, sq)
                        } else {
                            let att = attacks(kind, s, self.occupied);
                            test_bit(att, sq)
                        };
                        if hit {
                            proof {
                                lemma_any_square_from(p, s as int, 64);
                            }
                            return true;
                        }
                    }
                },
                _ => {},
            }
            s += 1;
        }
        false
    }
}

/// A predicate that holds of a square below `n` holds of a square below any
/// greater number.
pub proof fn lemma_any_square_from(p: spec_fn(int) -> bool, s: int, n: int)
    requires
        0 <= s < n,
        p(s),
    ensures
        any_square(p, n),
    decreases n,
{
    if s < n - 1 {
        lemma_any_square_from(p, s, n - 1);
    }
}

impl Board {
    /// Whether the side to move may castle with its king going from `from` to
    /// `to`: it has the right, king and rook stand in their places with
    /// nothing between them, and neither the king's square nor the one that
    /// it passes is attacked.
    pub open spec fn can_castle(&self, from: int, to: int) -> bool {
        match self.side {
            Colour::White => from == 4 && self.piece_on(4) == Piece::WK && ((to == 6
                && self.castle_perm & WKCA != 0 && self.piece_on(7) == Piece::WR && self.piece_on(5)
                == Piece::Empty && self.piece_on(6) == Piece::Empty && !self.attacked_by(
                Colour::Black,
                4,
            ) && !self.attacked_by(Colour::Black, 5)) || (to == 2 && self.castle_perm & WQCA != 0
                && self.piece_on(0) == Piece::WR && self.piece_on(1) == Piece::Empty
                && self.piece_on(2) == Piece::Empty && self.piece_on(3) == Piece::Empty
                && !self.attacked_by(Colour::Black, 4) && !self.attacked_by(Colour::Black, 3))),
            Colour::Black => from == 60 && self.piece_on(60) == Piece::BK && ((to == 62
                && self.castle_perm & BKCA != 0 && self.piece_on(63) == Piece::BR && self.piece_on(
                61,
            ) == Piece::Empty && self.piece_on(62) == Piece::Empty && !self.attacked_by(
                Colour::White,
                60,
            ) && !self.attacked_by(Colour::White, 61)) || (to == 58 && self.castle_perm & BQCA != 0
                && self.piece_on(56) == Piece::BR && self.piece_on(57) == Piece::Empty
                && self.piece_on(58) == Piece::Empty && self.piece_on(59) == Piece::Empty
                && !self.attacked_by(Colour::White, 60) && !self.attacked_by(Colour::White, 59))),
        }
    }

    /// The moves by which a pawn of the side to move goes from `from` to `to`:
    /// one step ahead to an empty square, or one step aside and ahead to
    /// capture, each as one move or, onto the last rank, as the four
    /// promotions; two steps ahead from its first rank over empty squares; or
    /// a capture en passant onto the en-passant square.
    pub open spec fn pawn_moves_between(&self, from: u8, to: u8) -> Seq<Move> {
        let us = self.side;
        let step = pawn_step(us);
        let target = self.piece_on(to as int);
        let push = to == from + step && target == Piece::Empty;
        let double = to == from + 2 * step && rank_of(from as int) == pawn_start_rank(us)
            && self.piece_on(from + step) == Piece::Empty && target == Piece::Empty;
        let capture = pawn_reach(us, from as int, to as int) && target.spec_colour() == Some(
            us.spec_flip(),
        );
        let ep = pawn_reach(us, from as int, to as int) && self.ep_sq == Some(to) && target
            == Piece::Empty;
        if push || capture {
            if rank_of(to as int) == promotion_rank(us) {
                promotions(from, to)
            } else {
                seq![Move::spec_new(from, to)]
            }
        } else if double {
            seq![Move::spec_new(from, to)]
        } else if ep {
            seq![Move::spec_flagged(from, to, MoveFlag::EnPassant)]
        } else {
            Seq::empty()
        }
    }

    /// The moves by which a piece of the side to move goes from `from` to
    /// `to`, whether or not they leave its king attacked: for a pawn, see
    /// `pawn_moves_between`; for another piece the move to a square that it
    /// attacks and on which no piece of its own side stands; and for the king
    /// also the move that castles.
    pub open spec fn moves_between(&self, from: u8, to: u8) -> Seq<Move> {
        let p = self.piece_on(from as int);
        if from >= 64 || to >= 64 || p.spec_colour() != Some(self.side) {
            Seq::empty()
        } else {
            match p.spec_kind() {
                Some(PieceType::Pawn) => self.pawn_moves_between(from, to),
                Some(kind) => {
                    let plain = if piece_reach(kind, self.occupied, from as int, to as int)
                        && self.piece_on(to as int).spec_colour() != Some(self.side) {
                        seq![Move::spec_new(from, to)]
                    } else {
                        Seq::empty()
                    };
                    if kind == PieceType::King && self.can_castle(from as int, to as int) {
                        plain + seq![Move::spec_flagged(from, to, MoveFlag::Castle)]
                    } else {
                        plain
                    }
                },
                None => Seq::empty(),
            }
        }
    }

    /// Whether a move from `from` to `to` captures: whether a piece stands on
    /// `to`, or a pawn goes to the en-passant square as a pawn captures.
    pub open spec fn pair_captures(&self, from: u8, to: u8) -> bool {
        self.piece_on(to as int) != Piece::Empty || (self.piece_on(from as int).spec_kind() == Some(
            PieceType::Pawn,
        ) && pawn_reach(self.side, from as int, to as int) && self.ep_sq == Some(to))
    }

    /// The moves from `from` to `to` that are listed: all of them, or where
    /// `captures_only` those that capture.
    pub open spec fn listed_between(&self, captures_only: bool, from: u8, to: u8) -> Seq<Move> {
        if captures_only && !self.pair_captures(from, to) {
            Seq::empty()
        } else {
            self.moves_between(from, to)
        }
    }

    /// The listed moves from `from` to the squares below `n`, by target
    /// square.
    pub open spec fn listed_from(&self, captures_only: bool, from: u8, n: int) -> Seq<Move>
        decreases n,
    {
        if n <= 0 {
            Seq::empty()
        } else {
            self.listed_from(captures_only, from, n - 1) + self.listed_between(
                captures_only,
                from,
                (n - 1) as u8,
            )
        }
    }

    /// The listed moves from the squares below `n`, by the square that they
    /// leave and then by target square.
    pub open spec fn listed_upto(&self, captures_only: bool, n: int) -> Seq<Move>
        decreases n,
    {
        if n <= 0 {
            Seq::empty()
        } else {
            self.listed_upto(captures_only, n - 1) + self.listed_from(
                captures_only,
                (n - 1) as u8,
                64,
            )
        }
    }

    /// The moves of the side to move, whether or not they leave its king
    /// attacked.
    pub open spec fn pseudo_legal_moves(&self) -> Seq<Move> {
        self.listed_upto(false, 64)
    }

    /// The capturing moves of the side to move, whether or not they leave its
    /// king attacked.
    pub open spec fn pseudo_legal_captures(&self) -> Seq<Move> {
        self.listed_upto(true, 64)
    }

    /// Whether `m` is a move of the side to move, whether or not it leaves its
    /// king attacked.
    pub open spec fn pseudo_legal(&self, m: Move) -> bool {
        self.moves_between(m.spec_from(), m.spec_to()).contains(m)
    }

    /// No move leaves a square on which no piece of the side to move stands.
    pub proof fn lemma_no_moves_from(&self, captures_only: bool, from: u8, n: int)
        requires
            from >= 64 || self.piece_on(from as int).spec_colour() != Some(self.side),
        ensures
            self.listed_from(captures_only, from, n) =~= Seq::empty(),
        decreases n,
    {
        if n > 0 {
            self.lemma_no_moves_from(captures_only, from, n - 1);
        }
    }
}

/// The entries of two lists of moves, one after the other, are the entries of
/// the first and then those of the second.
pub proof fn lemma_fresh_all_add(a: Seq<Move>, b: Seq<Move>)
    ensures
        fresh_all(a + b) =~= fresh_all(a) + fresh_all(b),
{
}

impl Board {
    /// Whether the side to move may castle with its king going from `from` to
    /// `to`.
    fn castle_allowed(&self, from: u8, to: u8) -> (r: bool)
        requires
            self.wf(),
            from < 64,
            to < 64,
        ensures
            r == self.can_castle(from as int, to as int),
    {
        match self.side {
            Colour::White => {
                if from != 4 || self.piece_at(4) != Piece::WK {
                    return false;
                }
                if to == 6 {
                    self.castle_perm & WKCA != 0 && self.piece_at(7) == Piece::WR && self.piece_at(5)
                        == Piece::Empty && self.piece_at(6) == Piece::Empty && !self.sq_attacked(
                        4,
                        Colour::Black,
                    ) && !self.sq_attacked(5, Colour::Black)
                } else if to == 2 {
                    self.castle_perm & WQCA != 0 && self.piece_at(0) == Piece::WR && self.piece_at(1)
                        == Piece::Empty && self.piece_at(2) == Piece::Empty && self.piece_at(3)
                        == Piece::Empty && !self.sq_attacked(4, Colour::Black) && !self.sq_attacked(
                        3,
                        Colour::Black,
                    )
                } else {
                    false
                }
            },
            Colour::Black => {
                if from != 60 || self.piece_at(60) != Piece::BK {
                    return false;
                }
                if to == 62 {
                    self.castle_perm & BKCA != 0 && self.piece_at(63) == Piece::BR && self.piece_at(
                        61,
                    ) == Piece::Empty && self.piece_at(62) == Piece::Empty && !self.sq_attacked(
                        60,
                        Colour::White,
                    ) && !self.sq_attacked(61, Colour::White)
                } else if to == 58 {
                    self.castle_perm & BQCA != 0 && self.piece_at(56) == Piece::BR && self.piece_at(
                        57,
                    ) == Piece::Empty && self.piece_at(58) == Piece::Empty && self.piece_at(59)
                        == Piece::Empty && !self.sq_attacked(60, Colour::White)
                        && !self.sq_attacked(59, Colour::White)
                } else {
                    false
                }
            },
        }
    }

    /// Adds to `list` the moves by which the pawn of the side to move on
    /// `from` goes to `to`.
    fn push_pawn_moves(&self, from: u8, to: u8, list: &mut MoveList)
        requires
            self.wf(),
            from < 64,
            to < 64,
            self.piece_on(from as int) == Piece::spec_new(self.side, PieceType::Pawn),
        ensures
            final(list).moves@ == old(list).moves@ + fresh_all(self.pawn_moves_between(from, to)),
    {
        let us = self.side;
        let step: i16 = match us {
            Colour::White => 8,
            Colour::Black => -8,
        };
        let start_rank: u8 = match us {
            Colour::White => 1,
            Colour::Black => 6,
        };
        let last_rank: u8 = match us {
            Colour::White => 7,
            Colour::Black => 0,
        };
        let f = from as i16;
        let t = to as i16;
        let target = self.piece_at(to);
        let dr = (to / 8) as i16 - (from / 8) as i16;
        let df = (to % 8) as i16 - (from % 8) as i16;
        let reach = dr == step / 8 && (df == 1 || df == -1);
        let push = t == f + step && target == Piece::Empty;
        let capture = reach && target.colour() == Some(us.flip());
        if push || capture {
            if to / 8 == last_rank {
                list.push(Move::new_with_promo(from, to, PieceType::Queen));
                list.push(Move::new_with_promo(from, to, PieceType::Knight));
                list.push(Move::new_with_promo(from, to, PieceType::Rook));
                list.push(Move::new_with_promo(from, to, PieceType::Bishop));
                assert(final(list).moves@ =~= old(list).moves@ + fresh_all(promotions(from, to)));
            } else {
                list.push(Move::new(from, to));
                assert(final(list).moves@ =~= old(list).moves@ + fresh_all(
                    seq![Move::spec_new(from, to)],
                ));
            }
            return ;
        }
        let double = t == f + 2 * step && from / 8 == start_rank && self.piece_at((f + step) as u8)
            == Piece::Empty && target == Piece::Empty;
        if double {
            list.push(Move::new(from, to));
            assert(final(list).moves@ =~= old(list).moves@ + fresh_all(
                seq![Move::spec_new(from, to)],
            ));
            return ;
        }
        let ep = reach && target == Piece::Empty && match self.ep_sq {
            Some(e) => e == to,
            None => false,
        };
        if ep {
            list.push(Move::new_with_flag(from, to, MoveFlag::EnPassant));
            assert(final(list).moves@ =~= old(list).moves@ + fresh_all(
                seq![Move::spec_flagged(from, to, MoveFlag::EnPassant)],
            ));
            return ;
        }
        assert(final(list).moves@ =~= old(list).moves@ + fresh_all(Seq::<Move>::empty()));
    }

    /// Adds to `list` the moves by which the piece of kind `kind` of the side
    /// to move on `from`, which attacks the squares of `att`, goes to `to`.
    fn push_between(&self, from: u8, to: u8, kind: PieceType, att: u64, list: &mut MoveList)
        requires
            self.wf(),
            from < 64,
            to < 64,
            self.piece_on(from as int) == Piece::spec_new(self.side, kind),
            forall|b: int| #[trigger]
                is_set(att, b) <==> piece_reach(kind, self.occupied, from as int, b),
        ensures
            final(list).moves@ == old(list).moves@ + fresh_all(self.moves_between(from, to)),
    {
        if kind == PieceType::Pawn {
            self.push_pawn_moves(from, to, list);
            return ;
        }
        let target = self.piece_at(to);
        let ghost mut plain = Seq::<Move>::empty();
        if test_bit(att, to) && target.colour() != Some(self.side) {
            list.push(Move::new(from, to));
            proof {
                plain = seq![Move::spec_new(from, to)];
            }
        }
        assert(list.moves@ =~= old(list).moves@ + fresh_all(plain));
        if kind == PieceType::King && self.castle_allowed(from, to) {
            list.push(Move::new_with_flag(from, to, MoveFlag::Castle));
            assert(list.moves@ =~= old(list).moves@ + fresh_all(
                plain + seq![Move::spec_flagged(from, to, MoveFlag::Castle)],
            ));
        }
    }

    /// The moves by which a piece of the side to move goes from `from` to
    /// `to`, whether or not they leave its king attacked.
    pub fn moves_from_to(&self, from: u8, to: u8) -> (moves: Vec<Move>)
        requires
            self.wf(),
        ensures
            moves@ == self.moves_between(from, to),
    {
        let mut moves: Vec<Move> = Vec::new();
        if from >= 64 || to >= 64 {
            return moves;
        }
        let piece = self.piece_at(from);
        match (piece.colour(), piece.kind()) {
            (Some(c), Some(kind)) => {
                if c == self.side {
                    let att = attacks(kind, from, self.occupied);
                    let mut list = MoveList::new();
                    self.push_between(from, to, kind, att, &mut list);
                    let ghost found = self.moves_between(from, to);
                    assert(list.moves@ =~= fresh_all(found));
                    let mut i: usize = 0;
                    while i < list.moves.len()
                        invariant
                            i <= list.moves@.len(),
                            list.moves@ == fresh_all(found),
                            moves@ == found.subrange(0, i as int),
                        decreases list.moves@.len() - i,
                    {
                        moves.push(list.moves[i].entry);
                        assert(found.subrange(0, i + 1) =~= found.subrange(0, i as int).push(
                            found[i as int],
                        ));
                        i += 1;
                    }
                    assert(found.subrange(0, i as int) =~= found);
                }
            },
            _ => {},
        }
        moves
    }

    /// Whether a move from `from` to `to` captures.
    fn captures_on(&self, from: u8, to: u8) -> (r: bool)
        requires
            self.wf(),
            from < 64,
            to < 64,
        ensures
            r == self.pair_captures(from, to),
    {
        if self.piece_at(to) != Piece::Empty {
            return true;
        }
        let dr = (to / 8) as i16 - (from / 8) as i16;
        let df = (to % 8) as i16 - (from % 8) as i16;
        let step: i16 = match self.side {
            Colour::White => 1,
            Colour::Black => -1,
        };
        self.piece_at(from).kind() == Some(PieceType::Pawn) && dr == step && (df == 1 || df == -1)
            && match self.ep_sq {
            Some(e) => e == to,
            None => false,
        }
    }

    /// Adds to `list` the moves of the side to move, or where `captures_only`
    /// those that capture, each with the score zero.
    fn generate(&self, captures_only: bool, list: &mut MoveList)
        requires
            self.wf(),
        ensures
            final(list).moves@ == old(list).moves@ + fresh_all(self.listed_upto(captures_only, 64)),
    {
        let mut from: u8 = 0;
        assert(list.moves@ =~= old(list).moves@ + fresh_all(self.listed_upto(captures_only, 0)));
        while from < 64
            invariant
                from <= 64,
                self.wf(),
                list.moves@ == old(list).moves@ + fresh_all(
                    self.listed_upto(captures_only, from as int),
                ),
            decreases 64 - from,
        {
            let piece = self.piece_at(from);
            let ghost before = list.moves@;
            match (piece.colour(), piece.kind()) {
                (Some(c), Some(kind)) => {
                    if c == self.side {
                        let att = attacks(kind, from, self.occupied);
                        let mut to: u8 = 0;
                        assert(list.moves@ =~= before + fresh_all(
                            self.listed_from(captures_only, from, 0),
                        ));
                        while to < 64
                            invariant
                                to <= 64,
                                from < 64,
                                self.wf(),
                                self.piece_on(from as int) == Piece::spec_new(self.side, kind),
                                forall|b: int| #[trigger]
                                    is_set(att, b) <==> piece_reach(
                                        kind,
                                        self.occupied,
                                        from as int,
                                        b,
                                    ),
                                list.moves@ == before + fresh_all(
                                    self.listed_from(captures_only, from, to as int),
                                ),
                            decreases 64 - to,
                        {
                            let ghost inner = list.moves@;
                            if !captures_only || self.captures_on(from, to) {
                                self.push_between(from, to, kind, att, list);
                            }
                            proof {
                                lemma_fresh_all_add(
                                    self.listed_from(captures_only, from, to as int),
                                    self.listed_between(captures_only, from, to),
                                );
                                assert(list.moves@ =~= before + fresh_all(
                                    self.listed_from(captures_only, from, to + 1),
                                ));
                            }
                            to += 1;
                        }
                    } else {
                        proof {
                            self.lemma_no_moves_from(captures_only, from, 64);
                        }
                    }
                },
                _ => {
                    proof {
                        self.lemma_no_moves_from(captures_only, from, 64);
                    }
                },
            }
            proof {
                lemma_fresh_all_add(
                    self.listed_upto(captures_only, from as int),
                    self.listed_from(captures_only, from, 64),
                );
                assert(list.moves@ =~= old(list).moves@ + fresh_all(
                    self.listed_upto(captures_only, from + 1),
                ));
            }
            from += 1;
        }
    }

    /// Adds to `list` the moves of the side to move, whether or not they leave
    /// its king attacked, each with the score zero.
    pub fn generate_moves(&self, list: &mut MoveList)
        requires
            self.wf(),
        ensures
            final(list).moves@ == old(list).moves@ + fresh_all(self.pseudo_legal_moves()),
    {
        self.generate(false, list);
    }

    /// Adds to `list` the capturing moves of the side to move, whether or not
    /// they leave its king attacked, each with the score zero.
    pub fn generate_captures(&self, list: &mut MoveList)
        requires
            self.wf(),
        ensures
            final(list).moves@ == old(list).moves@ + fresh_all(self.pseudo_legal_captures()),
    {
        self.generate(true, list);
    }

    /// Whether `m` is a move of the side to move, whether or not it leaves its
    /// king attacked.
    pub fn is_pseudo_legal(&self, m: Move) -> (r: bool)
        requires
            self.wf(),
        ensures
            r == self.pseudo_legal(m),
    {
        let from = m.from();
        let to = m.to();
        let piece = self.piece_at(from);
        match (piece.colour(), piece.kind()) {
            (Some(c), Some(kind)) => {
                if c != self.side {
                    return false;
                }
                let att = attacks(kind, from, self.occupied);
                let mut list = MoveList::new();
                self.push_between(from, to, kind, att, &mut list);
                let ghost found = self.moves_between(from, to);
                assert(list.moves@ =~= fresh_all(found));
                let mut i: usize = 0;
                while i < list.moves.len()
                    invariant
                        i <= list.moves@.len(),
                        list.moves@ == fresh_all(found),
                        found == self.moves_between(m.spec_from(), m.spec_to()),
                        forall|k: int| 0 <= k < i ==> found[k] != m,
                    decreases list.moves@.len() - i,
                {
                    if list.moves[i].entry == m {
                        assert(0 <= i < found.len() && found[i as int] == m);
                        assert(found.contains(m));
                        return true;
                    }
                    i += 1;
                }
                false
            },
            _ => false,
        }
    }
}

/// What is in one sequence and then another is in the first or in the second.
pub proof fn lemma_contains_add<A>(a: Seq<A>, b: Seq<A>, x: A)
    ensures
        (a + b).contains(x) <==> a.contains(x) || b.contains(x),
{
    if a.contains(x) {
        let i = choose|i: int| 0 <= i < a.len() && a[i] == x;
        assert((a + b)[i] == x);
    }
    if b.contains(x) {
        let i = choose|i: int| 0 <= i < b.len() && b[i] == x;
        assert((a + b)[a.len() + i] == x);
    }
    if (a + b).contains(x) {
        let i = choose|i: int| 0 <= i < (a + b).len() && (a + b)[i] == x;
        if i < a.len() {
            assert(a[i] == x);
        } else {
            assert(b[i - a.len()] == x);
        }
    }
}

impl Board {
    /// Whether `m` is among the moves that are listed: whether it is a move of
    /// the side to move and, where `captures_only`, captures.
    pub open spec fn lists(&self, captures_only: bool, m: Move) -> bool {
        self.pseudo_legal(m) && (!captures_only || self.pair_captures(m.spec_from(), m.spec_to()))
    }

    /// The moves from `from` to `to` leave `from` and go to `to`, and none of
    /// them is there twice.
    pub proof fn lemma_moves_between(&self, from: u8, to: u8)
        ensures
            forall|i: int|
                0 <= i < self.moves_between(from, to).len() ==> (#[trigger] self.moves_between(
                    from,
                    to,
                )[i]).spec_from() == from && self.moves_between(from, to)[i].spec_to() == to,
            self.moves_between(from, to).no_duplicates(),
    {
        broadcast use Move::lemma_flagged_parts, Move::lemma_promo_parts;

    }

    /// The listed moves from `from` to the squares below `n` are the listed
    /// moves that leave `from` and go to a square below `n`, each of them
    /// once.
    pub proof fn lemma_listed_from(&self, captures_only: bool, from: u8, n: int)
        requires
            0 <= n <= 64,
        ensures
            forall|m: Move|
                #[trigger] self.listed_from(captures_only, from, n).contains(m) <==> m.spec_from()
                    == from && m.spec_to() < n && self.lists(captures_only, m),
            self.listed_from(captures_only, from, n).no_duplicates(),
        decreases n,
    {
        broadcast use Move::lemma_squares_in_range;

        if n > 0 {
            let to = (n - 1) as u8;
            let before = self.listed_from(captures_only, from, n - 1);
            let here = self.listed_between(captures_only, from, to);
            self.lemma_listed_from(captures_only, from, n - 1);
            self.lemma_moves_between(from, to);
            assert forall|m: Move| #[trigger]
                (before + here).contains(m) <==> m.spec_from() == from && m.spec_to() < n
                    && self.lists(captures_only, m) by {
                lemma_contains_add(before, here, m);
                if here.contains(m) {
                    let i = choose|i: int| 0 <= i < here.len() && here[i] == m;
                    assert(self.moves_between(from, to)[i] == m);
                }
            }
            assert forall|i: int, j: int| 0 <= i < before.len() && 0 <= j < here.len() implies before[i]
                != here[j] by {
                assert(before.contains(before[i]));
                assert(self.moves_between(from, to)[j] == here[j]);
            }
            vstd::seq_lib::lemma_no_dup_in_concat(before, here);
        }
    }

    /// The listed moves from the squares below `n` are the listed moves that
    /// leave a square below `n`, each of them once.
    pub proof fn lemma_listed_upto(&self, captures_only: bool, n: int)
        requires
            0 <= n <= 64,
        ensures
            forall|m: Move|
                #[trigger] self.listed_upto(captures_only, n).contains(m) <==> m.spec_from() < n
                    && self.lists(captures_only, m),
            self.listed_upto(captures_only, n).no_duplicates(),
        decreases n,
    {
        if n > 0 {
            let from = (n - 1) as u8;
            let before = self.listed_upto(captures_only, n - 1);
            let here = self.listed_from(captures_only, from, 64);
            self.lemma_listed_upto(captures_only, n - 1);
            self.lemma_listed_from(captures_only, from, 64);
            assert forall|m: Move| #[trigger]
                (before + here).contains(m) <==> m.spec_from() < n && self.lists(
                    captures_only,
                    m,
                ) by {
                broadcast use Move::lemma_squares_in_range;

                lemma_contains_add(before, here, m);
            }
            assert forall|i: int, j: int| 0 <= i < before.len() && 0 <= j < here.len() implies before[i]
                != here[j] by {
                assert(before.contains(before[i]));
                assert(here.contains(here[j]));
            }
            vstd::seq_lib::lemma_no_dup_in_concat(before, here);
        }
    }

    /// The generated moves are the moves of the side to move, whether or not
    /// they leave its king attacked, each of them once; the generated captures
    /// are those of them that capture, each of them once.
    pub proof fn lemma_generated_moves(&self, captures_only: bool)
        ensures
            forall|m: Move|
                #[trigger] self.listed_upto(captures_only, 64).contains(m) <==> self.lists(
                    captures_only,
                    m,
                ),
            self.listed_upto(captures_only, 64).no_duplicates(),
    {
        broadcast use Move::lemma_squares_in_range;

        self.lemma_listed_upto(captures_only, 64);
    }
}

} // verus!
