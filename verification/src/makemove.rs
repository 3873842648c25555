use crate::board::movegen::{attacked_in, pawn_step};
use crate::board::{Board, Undo, BKCA, BQCA, WKCA, WQCA};
use crate::chessmove::Move;
use crate::piece::{Colour, Piece, PieceType};
use vstd::prelude::*;

verus! {

/// The castling rights that are left when a piece leaves `sq` or is captured
/// there: all but those for which the king or the rook on `sq` is needed.
pub open spec fn rights_kept(sq: u8) -> u8 {
    if sq == 4 {
        BKCA | BQCA
    } else if sq == 0 {
        WKCA | BKCA | BQCA
    } else if sq == 7 {
        WQCA | BKCA | BQCA
    } else if sq == 60 {
        WKCA | WQCA
    } else if sq == 56 {
        WKCA | WQCA | BKCA
    } else if sq == 63 {
        WKCA | WQCA | BQCA
    } else {
        WKCA | WQCA | BKCA | BQCA
    }
}

fn rights_kept_at(sq: u8) -> (mask: u8)
    ensures
        mask == rights_kept(sq),
{
    if sq == 4 {
        BKCA | BQCA
    } else if sq == 0 {
        WKCA | BKCA | BQCA
    } else if sq == 7 {
        WQCA | BKCA | BQCA
    } else if sq == 60 {
        WKCA | WQCA
    } else if sq == 56 {
        WKCA | WQCA | BKCA
    } else if sq == 63 {
        WKCA | WQCA | BQCA
    } else {
        WKCA | WQCA | BKCA | BQCA
    }
}

/// The squares that the rook leaves and goes to when the king castles to
/// `king_to`.
pub open spec fn castle_rook_squares(king_to: u8) -> (u8, u8) {
    if king_to == 6 {
        (7, 5)
    } else if king_to == 2 {
        (0, 3)
    } else if king_to == 62 {
        (63, 61)
    } else {
        (56, 59)
    }
}

impl Board {
    /// The square of the pawn that a capture en passant onto `to` takes.
    pub open spec fn ep_victim_sq(&self, to: u8) -> int {
        to - pawn_step(self.side)
    }

    /// What stands on the squares after the move `m`: the piece that moves, or
    /// the piece that a pawn is promoted to, stands on the target square and
    /// no longer on the square that it left; a capture en passant also takes
    /// the pawn behind the target square, and castling also moves the rook.
    pub open spec fn pieces_after(&self, m: Move) -> Seq<Piece> {
        let from = m.spec_from();
        let to = m.spec_to();
        let placed = if m.spec_is_promo() {
            Piece::spec_new(self.side, m.spec_promotion_type())
        } else {
            self.piece_on(from as int)
        };
        let base = self.piece_array@.update(from as int, Piece::Empty).update(to as int, placed);
        if m.spec_is_ep() {
            base.update(self.ep_victim_sq(to), Piece::Empty)
        } else if m.spec_is_castle() {
            let (rook_from, rook_to) = castle_rook_squares(to);
            base.update(rook_from as int, Piece::Empty).update(
                rook_to as int,
                Piece::spec_new(self.side, PieceType::Rook),
            )
        } else {
            base
        }
    }

    /// The piece that the move `m` captures: the pawn behind the target
    /// square for a capture en passant, and what stands on the target square
    /// for any other move.
    pub open spec fn captured_by(&self, m: Move) -> Piece {
        if m.spec_is_ep() {
            Piece::spec_new(self.side.spec_flip(), PieceType::Pawn)
        } else if m.spec_is_castle() {
            Piece::Empty
        } else {
            self.piece_on(m.spec_to() as int)
        }
    }

    /// The en-passant square after the move `m`: the square that a pawn passed
    /// over in a step of two squares, and none after any other move.
    pub open spec fn ep_after(&self, m: Move) -> Option<u8> {
        let from = m.spec_from();
        let to = m.spec_to();
        if self.piece_on(from as int).spec_kind() == Some(PieceType::Pawn) && (to - from == 16
            || from - to == 16) {
            Some(((from + to) / 2) as u8)
        } else {
            None
        }
    }

    /// The castling rights after the move `m`.
    pub open spec fn rights_after(&self, m: Move) -> u8 {
        self.castle_perm & rights_kept(m.spec_from()) & rights_kept(m.spec_to())
    }

    /// The piece that the move `m` captures.
    pub fn captured_piece(&self, m: Move) -> (p: Piece)
        requires
            self.wf(),
        ensures
            p == self.captured_by(m),
    {
        if m.is_ep() {
            Piece::new(self.side.flip(), PieceType::Pawn)
        } else if m.is_castle() {
            Piece::Empty
        } else {
            self.piece_at(m.to())
        }
    }

    /// What stands on the squares after the move `m`.
    fn pieces_after_move(&self, m: Move) -> (pieces: Vec<Piece>)
        requires
            self.wf(),
            self.pseudo_legal(m),
        ensures
            pieces@ == self.pieces_after(m),
            pieces@.len() == 64,
    {
        let from = m.from();
        let to = m.to();
        let mut pieces: Vec<Piece> = Vec::new();
        let mut i: usize = 0;
        while i < 64
            invariant
                i <= 64,
                self.wf(),
                pieces@.len() == i,
                forall|k: int| 0 <= k < i ==> pieces@[k] == self.piece_array@[k],
            decreases 64 - i,
        {
            pieces.push(self.piece_array[i]);
            i += 1;
        }
        assert(pieces@ =~= self.piece_array@);
        let placed = if m.is_promo() {
            Piece::new(self.side, m.promotion_type())
        } else {
            self.piece_at(from)
        };
        pieces.set(from as usize, Piece::Empty);
        pieces.set(to as usize, placed);
        if m.is_ep() {
            proof {
                self.lemma_pseudo_legal_shape(m);
            }
            let victim = match self.side {
                Colour::White => to - 8,
                Colour::Black => to + 8,
            };
            pieces.set(victim as usize, Piece::Empty);
        } else if m.is_castle() {
            let (rook_from, rook_to): (u8, u8) = if to == 6 {
                (7, 5)
            } else if to == 2 {
                (0, 3)
            } else if to == 62 {
                (63, 61)
            } else {
                (56, 59)
            };
            pieces.set(rook_from as usize, Piece::Empty);
            pieces.set(rook_to as usize, Piece::new(self.side, PieceType::Rook));
        }
        pieces
    }

    /// A move of the side to move leaves a square on which a piece of that
    /// side stands; one that captures en passant is a pawn's move to an empty
    /// square one rank ahead, and one that castles is a king's move.
    pub proof fn lemma_pseudo_legal_shape(&self, m: Move)
        requires
            self.wf(),
            self.pseudo_legal(m),
        ensures
            self.piece_on(m.spec_from() as int).spec_colour() == Some(self.side),
            m.spec_is_ep() ==> 0 <= self.ep_victim_sq(m.spec_to()) < 64 && self.piece_on(
                m.spec_from() as int,
            ) == Piece::spec_new(self.side, PieceType::Pawn),
            m.spec_is_castle() ==> self.piece_on(m.spec_from() as int) == Piece::spec_new(
                self.side,
                PieceType::King,
            ),
            m.spec_is_promo() ==> self.piece_on(m.spec_from() as int) == Piece::spec_new(
                self.side,
                PieceType::Pawn,
            ) && m.spec_promotion_type() != PieceType::King && m.spec_promotion_type()
                != PieceType::Pawn,
    {
        broadcast use Move::lemma_flagged_parts, Move::lemma_promo_parts, Move::lemma_squares_in_range;

        let from = m.spec_from();
        let to = m.spec_to();
        let found = self.moves_between(from, to);
        let i = choose|i: int| 0 <= i < found.len() && found[i] == m;
        assert(found[i] == m);
    }

    /// After a move that leaves both kings standing, the king of the side that
    /// moved stands where `king_sq_after` says.
    pub proof fn lemma_king_after(&self, m: Move, s: int)
        requires
            self.wf(),
            self.pseudo_legal(m),
            crate::board::is_only(
                self.pieces_after(m),
                Piece::spec_new(self.side, PieceType::King),
                s,
            ),
        ensures
            s == self.king_sq_after(m),
    {
        broadcast use Move::lemma_squares_in_range;

        self.lemma_pseudo_legal_shape(m);
        let king = Piece::spec_new(self.side, PieceType::King);
        let old_sq = self.king_sq[self.side.spec_index() as int] as int;
        assert(self.piece_array@[old_sq] == king);
        if self.piece_on(m.spec_from() as int) == king {
            assert(self.pieces_after(m)[m.spec_to() as int] == king);
        } else {
            assert(self.piece_array@[s] == king);
        }
    }

    /// Makes the move `m` where it is a move of the side to move that does not
    /// leave its own king attacked, and says whether it did. The pieces then
    /// stand as `pieces_after` says, the other side is to move, the castling
    /// rights and the en-passant square follow the move, the move and what it
    /// captured are added to the moves that led here, and the height is one
    /// more. Elsewhere the position stays as it is.
    pub fn make_move(&mut self, m: Move) -> (made: bool)
        requires
            old(self).wf(),
            old(self).height < usize::MAX,
        ensures
            final(self).wf(),
            made == old(self).allows(m),
            made ==> {
                &&& final(self).piece_array@ == old(self).pieces_after(m)
                &&& final(self).side == old(self).side.spec_flip()
                &&& final(self).castle_perm == old(self).rights_after(m)
                &&& final(self).ep_sq == old(self).ep_after(m)
                &&& final(self).eval_params == old(self).eval_params
                &&& final(self).height == old(self).height + 1
                &&& final(self).history@ == old(self).history@.push(
                    Undo { m, capture: old(self).captured_by(m) },
                )
            },
            !made ==> *final(self) == *old(self),
    {
        if !self.is_pseudo_legal(m) {
            return false;
        }
        let us = self.side;
        let pieces = self.pieces_after_move(m);
        let capture = self.captured_piece(m);
        let from = m.from();
        let to = m.to();
        let castle_perm = self.castle_perm & rights_kept_at(from) & rights_kept_at(to);
        let ep_sq = if self.piece_at(from).kind() == Some(PieceType::Pawn) && ((to >= from && to
            - from == 16) || (from >= to && from - to == 16)) {
            Some((from + to) / 2)
        } else {
            None
        };
        let next = Board::from_pieces(pieces, us.flip(), castle_perm, ep_sq, self.eval_params);
        match next {
            Some(mut board) => {
                proof {
                    let king_sq = board.king_sq[us.spec_index() as int] as int;
                    self.lemma_king_after(m, king_sq);
                    board.lemma_attacked_by(us.spec_flip(), king_sq);
                }
                if board.sq_attacked(board.king_sq(us), us.flip()) {
                    return false;
                }
                let mut history: Vec<Undo> = Vec::new();
                let mut i: usize = 0;
                while i < self.history.len()
                    invariant
                        i <= self.history@.len(),
                        history@ == self.history@.subrange(0, i as int),
                    decreases self.history@.len() - i,
                {
                    history.push(self.history[i]);
                    assert(self.history@.subrange(0, i + 1) =~= self.history@.subrange(
                        0,
                        i as int,
                    ).push(self.history@[i as int]));
                    i += 1;
                }
                assert(self.history@.subrange(0, i as int) =~= self.history@);
                history.push(Undo { m, capture });
                board.history = history;
                board.height = self.height + 1;
                *self = board;
                true
            },
            None => false,
        }
    }

    /// The square of the king of the side to move after the move `m`.
    pub open spec fn king_sq_after(&self, m: Move) -> u8 {
        if self.piece_on(m.spec_from() as int) == Piece::spec_new(self.side, PieceType::King) {
            m.spec_to()
        } else {
            self.king_sq[self.side.spec_index() as int]
        }
    }

    /// Whether the move `m` may be made: whether it is a move of the side to
    /// move after which both kings stand, no pawn stands on the first or the
    /// last rank, and the king of the side that moved is not attacked.
    pub open spec fn allows(&self, m: Move) -> bool {
        &&& self.pseudo_legal(m)
        &&& crate::board::valid_placement(self.pieces_after(m))
        &&& !attacked_in(
            self.pieces_after(m),
            self.side.spec_flip(),
            self.king_sq_after(m) as int,
        )
    }
}

} // verus!
