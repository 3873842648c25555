pub mod evaluation;
pub mod history;
pub mod movegen;
pub mod validation;

use crate::bits::{is_set, lemma_has_empty, lemma_has_or, square_bb};
use crate::board::evaluation::parameters::{Parameters, PARAM_LIMIT};
use crate::board::evaluation::score::{pair_within, sum_pairs, S};
use crate::chessmove::Move;
use crate::piece::{Colour, Piece, PieceType};
use crate::piecesquaretable::{lemma_pst_within, pst_spec, pst_value, PST_LIMIT};
use vstd::prelude::*;

verus! {

/// The right of White to castle on the king's side, as a bit of the castling
/// rights.
pub const WKCA: u8 = 1;

/// The right of White to castle on the queen's side.
pub const WQCA: u8 = 2;

/// The right of Black to castle on the king's side.
pub const BKCA: u8 = 4;

/// The right of Black to castle on the queen's side.
pub const BQCA: u8 = 8;

/// A move that was made, with what it captured.
#[derive(Clone, Copy, Debug)]
pub struct Undo {
    /// The move.
    pub m: Move,
    /// The piece that the move captured, `Empty` where it captured none.
    pub capture: Piece,
}

/// A position: what stands on each square, whose turn it is, and what follows
/// from the two.
#[derive(Clone, Debug)]
pub struct Board {
    /// What stands on each of the 64 squares.
    pub piece_array: Vec<Piece>,
    /// The squares of each piece, by the piece's index.
    pub bbs: Vec<u64>,
    /// The squares on which a piece stands.
    pub occupied: u64,
    /// The side to move.
    pub side: Colour,
    /// The square on which a pawn can be captured en passant.
    pub ep_sq: Option<u8>,
    /// The castling rights.
    pub castle_perm: u8,
    /// The squares of the two kings, White's first.
    pub king_sq: [u8; 2],
    /// The material of each side, White's first.
    pub material: [S; 2],
    /// The piece-square total, counted from White's side.
    pub pst_vals: S,
    /// The number of plies from the root of the search.
    pub height: usize,
    /// The moves that led to this position.
    pub history: Vec<Undo>,
    /// The constants of the evaluation.
    pub eval_params: Parameters,
}

/// The bitboard of the squares of `pieces` on which a piece stands.
pub open spec fn occupancy(pieces: Seq<Piece>) -> u64 {
    crate::bits::bitboard_where(|s: int| pieces[s] != Piece::Empty, 64)
}

/// Whether `p` stands on `s` and on no other square.
pub open spec fn is_only(pieces: Seq<Piece>, p: Piece, s: int) -> bool {
    &&& 0 <= s < 64
    &&& pieces[s] == p
    &&& forall|t: int| 0 <= t < 64 && #[trigger] pieces[t] == p ==> t == s
}

/// Whether no pawn stands on the first or the last rank.
pub open spec fn pawns_in_place(pieces: Seq<Piece>) -> bool {
    forall|s: int|
        (0 <= s < 8 || 56 <= s < 64) ==> #[trigger] pieces[s] != Piece::WP && pieces[s] != Piece::BP
}

/// Whether 64 squares hold a position that can be played: one king of each
/// side, and no pawn on the first or the last rank.
pub open spec fn valid_placement(pieces: Seq<Piece>) -> bool {
    &&& pieces.len() == 64
    &&& exists|s: int| is_only(pieces, Piece::WK, s)
    &&& exists|s: int| is_only(pieces, Piece::BK, s)
    &&& pawns_in_place(pieces)
}

/// What `piece` adds to the material of `colour`.
pub open spec fn material_of(params: Parameters, colour: Colour, piece: Piece) -> (int, int) {
    match (piece.spec_colour(), piece.spec_kind()) {
        (Some(c), Some(kind)) => if c == colour {
            params.piece_values[kind.spec_index() as int]@
        } else {
            (0, 0)
        },
        _ => (0, 0),
    }
}

/// The material of `colour`: the sum of the values of its pieces.
pub open spec fn material_sum(pieces: Seq<Piece>, params: Parameters, colour: Colour) -> (
    int,
    int,
) {
    sum_pairs(|s: int| material_of(params, colour, pieces[s]), 64)
}

/// The piece-square total: the sum over all pieces of what each adds.
pub open spec fn pst_sum(pieces: Seq<Piece>) -> (int, int) {
    sum_pairs(|s: int| pst_spec(pieces[s], s), 64)
}

/// The material of a side is within 64 times the limit of a value.
pub proof fn lemma_material_within(pieces: Seq<Piece>, params: Parameters, colour: Colour)
    requires
        params.wf(),
    ensures
        pair_within(material_sum(pieces, params, colour), 64 * PARAM_LIMIT),
{
    let f = |s: int| material_of(params, colour, pieces[s]);
    assert forall|s: int| 0 <= s < 64 implies pair_within(#[trigger] f(s), PARAM_LIMIT as int) by {}
    crate::board::evaluation::score::lemma_sum_pairs_within(f, 64, PARAM_LIMIT as int);
}

/// The piece-square total is within 64 times the limit of a piece-square
/// value.
pub proof fn lemma_pst_sum_within(pieces: Seq<Piece>)
    ensures
        pair_within(pst_sum(pieces), 64 * PST_LIMIT),
{
    let f = |s: int| pst_spec(pieces[s], s);
    assert forall|s: int| 0 <= s < 64 implies pair_within(#[trigger] f(s), PST_LIMIT as int) by {
        lemma_pst_within(pieces[s], s);
    }
    crate::board::evaluation::score::lemma_sum_pairs_within(f, 64, PST_LIMIT as int);
}

impl Board {
    /// What stands on the square `s`.
    pub open spec fn piece_on(&self, s: int) -> Piece {
        self.piece_array@[s]
    }

    /// The bitboard of the squares on which `p` stands.
    pub open spec fn bb_of(&self, p: Piece) -> u64 {
        self.bbs@[p.spec_index() as int]
    }

    /// Whether the parts of the position agree with what stands on the squares.
    pub open spec fn wf(&self) -> bool {
        &&& valid_placement(self.piece_array@)
        &&& self.bbs@.len() == 13
        &&& forall|k: int, s: int|
            0 <= k < 13 ==> (#[trigger] is_set(self.bbs@[k], s) <==> 0 <= s < 64 && self.piece_on(
                s,
            ).spec_index() == k)
        &&& forall|s: int|
            #[trigger] is_set(self.occupied, s) <==> 0 <= s < 64 && self.piece_on(s)
                != Piece::Empty
        &&& is_only(self.piece_array@, Piece::WK, self.king_sq[0] as int)
        &&& is_only(self.piece_array@, Piece::BK, self.king_sq[1] as int)
        &&& self.ep_sq matches Some(e) ==> e < 64
        &&& self.eval_params.wf()
        &&& self.material[0]@ == material_sum(self.piece_array@, self.eval_params, Colour::White)
        &&& self.material[1]@ == material_sum(self.piece_array@, self.eval_params, Colour::Black)
        &&& self.pst_vals@ == pst_sum(self.piece_array@)
    }
}

/// The bitboard of the squares of `pieces` on which `p` stands.
fn bitboard_of(pieces: &Vec<Piece>, p: Piece) -> (bb: u64)
    requires
        pieces@.len() == 64,
    ensures
        forall|s: int| #[trigger] is_set(bb, s) <==> 0 <= s < 64 && pieces@[s] == p,
{
    let mut bb: u64 = 0;
    let mut sq: u8 = 0;
    proof {
        lemma_has_empty();
    }
    while sq < 64
        invariant
            sq <= 64,
            pieces@.len() == 64,
            forall|s: int| #[trigger] is_set(bb, s) <==> 0 <= s < sq && pieces@[s] == p,
        decreases 64 - sq,
    {
        if pieces[sq as usize] == p {
            let one = square_bb(sq);
            proof {
                lemma_has_or(bb, one);
            }
            bb = bb | one;
        }
        sq += 1;
    }
    bb
}

/// The bitboard of the squares of `pieces` on which a piece stands.
fn occupancy_of(pieces: &Vec<Piece>) -> (bb: u64)
    requires
        pieces@.len() == 64,
    ensures
        forall|s: int| #[trigger] is_set(bb, s) <==> 0 <= s < 64 && pieces@[s] != Piece::Empty,
{
    let mut bb: u64 = 0;
    let mut sq: u8 = 0;
    proof {
        lemma_has_empty();
    }
    while sq < 64
        invariant
            sq <= 64,
            pieces@.len() == 64,
            forall|s: int| #[trigger] is_set(bb, s) <==> 0 <= s < sq && pieces@[s] != Piece::Empty,
        decreases 64 - sq,
    {
        if pieces[sq as usize] != Piece::Empty {
            let one = square_bb(sq);
            proof {
                lemma_has_or(bb, one);
            }
            bb = bb | one;
        }
        sq += 1;
    }
    bb
}

/// The square of `pieces` on which `p` stands, where it stands on one square
/// only.
fn find_only(pieces: &Vec<Piece>, p: Piece) -> (r: Option<u8>)
    requires
        pieces@.len() == 64,
    ensures
        r matches Some(s) ==> is_only(pieces@, p, s as int),
        r is None ==> !exists|s: int| is_only(pieces@, p, s),
{
    let mut found: Option<u8> = None;
    let mut sq: u8 = 0;
    while sq < 64
        invariant
            sq <= 64,
            pieces@.len() == 64,
            found matches Some(s) ==> s < sq && pieces@[s as int] == p && forall|t: int|
                0 <= t < sq && #[trigger] pieces@[t] == p ==> t == s,
            found is None ==> forall|t: int| 0 <= t < sq ==> #[trigger] pieces@[t] != p,
        decreases 64 - sq,
    {
        if pieces[sq as usize] == p {
            match found {
                Some(first) => {
                    assert forall|s: int| !is_only(pieces@, p, s) by {
                        if is_only(pieces@, p, s) {
                            assert(pieces@[first as int] == p);
                            assert(pieces@[sq as int] == p);
                        }
                    }
                    return None;
                },
                None => {
                    found = Some(sq);
                },
            }
        }
        sq += 1;
    }
    proof {
        if found is None {
            assert forall|s: int| !is_only(pieces@, p, s) by {
                if is_only(pieces@, p, s) {
                    assert(pieces@[s] != p);
                }
            }
        }
    }
    found
}

/// Whether no pawn of `pieces` stands on the first or the last rank.
fn check_pawns(pieces: &Vec<Piece>) -> (r: bool)
    requires
        pieces@.len() == 64,
    ensures
        r == pawns_in_place(pieces@),
{
    let mut f: usize = 0;
    while f < 8
        invariant
            f <= 8,
            pieces@.len() == 64,
            forall|s: int|
                (0 <= s < f || 56 <= s < 56 + f) ==> #[trigger] pieces@[s] != Piece::WP && pieces@[s]
                    != Piece::BP,
        decreases 8 - f,
    {
        let low = pieces[f];
        let high = pieces[56 + f];
        if low == Piece::WP || low == Piece::BP || high == Piece::WP || high == Piece::BP {
            return false;
        }
        f += 1;
    }
    true
}

/// The value of a piece of kind `kind`.
fn piece_value(params: &Parameters, kind: PieceType) -> (v: S)
    ensures
        v == params.piece_values[kind.spec_index() as int],
{
    params.piece_values[kind.index()]
}

/// The material of `colour` on `pieces`.
fn material_on(pieces: &Vec<Piece>, params: &Parameters, colour: Colour) -> (m: S)
    requires
        pieces@.len() == 64,
        params.wf(),
    ensures
        m@ == material_sum(pieces@, *params, colour),
        m.within(64 * PARAM_LIMIT),
{
    let ghost f = |s: int| material_of(*params, colour, pieces@[s]);
    let mut m = S(0, 0);
    let mut sq: usize = 0;
    while sq < 64
        invariant
            sq <= 64,
            pieces@.len() == 64,
            params.wf(),
            f == |s: int| material_of(*params, colour, pieces@[s]),
            m@ == sum_pairs(f, sq as int),
            m.within(sq * PARAM_LIMIT),
        decreases 64 - sq,
    {
        let p = pieces[sq];
        proof {
            assert(pair_within(f(sq as int), PARAM_LIMIT as int));
        }
        match (p.colour(), p.kind()) {
            (Some(c), Some(kind)) => {
                if c == colour {
                    let v = piece_value(params, kind);
                    m = S(m.0 + v.0, m.1 + v.1);
                }
            },
            _ => {},
        }
        sq += 1;
    }
    m
}

/// The piece-square total of `pieces`.
fn pst_on(pieces: &Vec<Piece>) -> (v: S)
    requires
        pieces@.len() == 64,
    ensures
        v@ == pst_sum(pieces@),
        v.within(64 * PST_LIMIT),
{
    let ghost f = |s: int| pst_spec(pieces@[s], s);
    let mut v = S(0, 0);
    let mut sq: u8 = 0;
    while sq < 64
        invariant
            sq <= 64,
            pieces@.len() == 64,
            f == |s: int| pst_spec(pieces@[s], s),
            v@ == sum_pairs(f, sq as int),
            v.within(sq * PST_LIMIT),
        decreases 64 - sq,
    {
        let t = pst_value(pieces[sq as usize], sq);
        v = S(v.0 + t.0, v.1 + t.1);
        sq += 1;
    }
    v
}

impl Board {
    /// The position in which `pieces` stand on the 64 squares and `side` is to
    /// move, with the given castling rights and en-passant square, evaluated
    /// by `params`; none where the squares hold no position that can be played,
    /// the en-passant square is no square, or a constant of `params` is beyond
    /// its limit.
    pub fn from_pieces(
        pieces: Vec<Piece>,
        side: Colour,
        castle_perm: u8,
        ep_sq: Option<u8>,
        params: Parameters,
    ) -> (r: Option<Board>)
        ensures
            r is Some <==> valid_placement(pieces@) && params.wf() && (ep_sq matches Some(e) ==> e
                < 64),
            r matches Some(b) ==> b.wf() && b.piece_array@ == pieces@ && b.side == side
                && b.castle_perm == castle_perm && b.ep_sq == ep_sq && b.eval_params == params
                && b.history@.len() == 0 && b.height == 0,
    {
        if pieces.len() != 64 || !params.is_valid() {
            return None;
        }
        match ep_sq {
            Some(e) => {
                if e >= 64 {
                    return None;
                }
            },
            None => {},
        }
        if !check_pawns(&pieces) {
            return None;
        }
        let white_king = match find_only(&pieces, Piece::WK) {
            Some(s) => s,
            None => {
                return None;
            },
        };
        let black_king = match find_only(&pieces, Piece::BK) {
            Some(s) => s,
            None => {
                return None;
            },
        };
        let mut bbs: Vec<u64> = Vec::new();
        let mut i: usize = 0;
        while i < 13
            invariant
                i <= 13,
                pieces@.len() == 64,
                bbs@.len() == i,
                forall|k: int, s: int|
                    0 <= k < i ==> (#[trigger] is_set(bbs@[k], s) <==> 0 <= s < 64
                        && pieces@[s].spec_index() == k),
            decreases 13 - i,
        {
            let p = Piece::from_index(i);
            let bb = bitboard_of(&pieces, p);
            bbs.push(bb);
            i += 1;
        }
        let occupied = occupancy_of(&pieces);
        let white = material_on(&pieces, &params, Colour::White);
        let black = material_on(&pieces, &params, Colour::Black);
        let pst_vals = pst_on(&pieces);
        let b = Board {
            piece_array: pieces,
            bbs,
            occupied,
            side,
            ep_sq,
            castle_perm,
            king_sq: [white_king, black_king],
            material: [white, black],
            pst_vals,
            height: 0,
            history: Vec::new(),
            eval_params: params,
        };
        Some(b)
    }

    /// Replaces the constants of the evaluation, and counts the material anew
    /// with them.
    pub fn set_eval_params(&mut self, params: Parameters)
        requires
            old(self).wf(),
            params.wf(),
        ensures
            final(self).wf(),
            final(self).eval_params == params,
            final(self).piece_array == old(self).piece_array,
            final(self).side == old(self).side,
            final(self).castle_perm == old(self).castle_perm,
            final(self).ep_sq == old(self).ep_sq,
            final(self).history == old(self).history,
            final(self).height == old(self).height,
    {
        let white = material_on(&self.piece_array, &params, Colour::White);
        let black = material_on(&self.piece_array, &params, Colour::Black);
        self.material = [white, black];
        self.eval_params = params;
    }

    /// The side to move.
    pub fn turn(&self) -> (c: Colour)
        ensures
            c == self.side,
    {
        self.side
    }

    /// What stands on `sq`.
    pub fn piece_at(&self, sq: u8) -> (p: Piece)
        requires
            self.wf(),
            sq < 64,
        ensures
            p == self.piece_on(sq as int),
    {
        self.piece_array[sq as usize]
    }

    /// The piece that `m` moves: what stands on the square that it leaves.
    pub fn moved_piece(&self, m: Move) -> (p: Piece)
        requires
            self.wf(),
        ensures
            p == self.piece_on(m.spec_from() as int),
    {
        self.piece_array[m.from() as usize]
    }

    /// The bitboard of the squares on which `p` stands.
    pub fn piece_bb(&self, p: Piece) -> (bb: u64)
        requires
            self.wf(),
        ensures
            bb == self.bb_of(p),
            forall|s: int| #[trigger] is_set(bb, s) <==> 0 <= s < 64 && self.piece_on(s) == p,
    {
        self.bbs[p.index()]
    }

    /// The bitboard of the pawns of `colour`.
    pub fn pawns(&self, colour: Colour) -> (bb: u64)
        requires
            self.wf(),
        ensures
            bb == self.bb_of(Piece::spec_new(colour, PieceType::Pawn)),
            forall|s: int|
                #[trigger] is_set(bb, s) <==> 0 <= s < 64 && self.piece_on(s) == Piece::spec_new(
                    colour,
                    PieceType::Pawn,
                ),
    {
        self.piece_bb(Piece::new(colour, PieceType::Pawn))
    }

    /// The square of the king of `colour`.
    pub fn king_sq(&self, colour: Colour) -> (sq: u8)
        requires
            self.wf(),
        ensures
            sq == self.king_sq[colour.spec_index() as int],
            sq < 64,
            self.piece_on(sq as int) == Piece::spec_new(colour, PieceType::King),
    {
        self.king_sq[colour.index()]
    }

    /// The number of squares on which `p` stands.
    pub open spec fn count(&self, p: Piece) -> int {
        crate::bits::popcount(self.bb_of(p))
    }

    /// The bitboard of the squares on which a piece stands is that of the
    /// squares that are not empty.
    pub proof fn lemma_occupied(&self)
        requires
            self.wf(),
        ensures
            self.occupied == occupancy(self.piece_array@),
    {
        crate::bits::lemma_bitboard_is_where(
            self.occupied,
            |s: int| self.piece_array@[s] != Piece::Empty,
        );
    }

    /// A piece stands on no fewer than no square and on no more than all 64.
    pub proof fn lemma_count_bounds(&self, p: Piece)
        ensures
            0 <= self.count(p) <= 64,
    {
        crate::bits::lemma_popcount_is_count(self.bb_of(p));
    }

    /// The number of squares on which `p` stands.
    pub fn num(&self, p: Piece) -> (n: u8)
        requires
            self.wf(),
        ensures
            n == self.count(p),
            n <= 64,
    {
        proof {
            crate::bits::lemma_popcount_is_count(self.bb_of(p));
        }
        self.bbs[p.index()].count_ones() as u8
    }

    /// Whether a pawn stands on the board.
    pub fn any_pawns(&self) -> (r: bool)
        requires
            self.wf(),
        ensures
            r == (self.count(Piece::WP) + self.count(Piece::BP) > 0),
    {
        let white = self.num(Piece::WP);
        let black = self.num(Piece::BP);
        white > 0 || black > 0
    }
}

} // verus!
