pub mod parameters;
pub mod score;
pub mod symmetry;

use crate::bits::{count_squares, is_set, popcount};
use crate::board::evaluation::parameters::{Parameters, COEFF_LIMIT, PARAM_LIMIT};
use crate::board::evaluation::score::{
    lerp_spec, pair_add, pair_neg, pair_scale, pair_sub, sum_ints, sum_pairs, trunc_div, S,
};
use crate::board::movegen::bitboards::{
    attacks, file_bb, king_attacks, king_reach, north_one, pawn_attacked, pawn_attacks,
    piece_reach, south_one,
};
use crate::board::Board;
use crate::definitions::{file_of, rank_of, BLACK, WHITE};
use crate::lookups::{disjoint, in_front_span, isolated_bb, on_adjacent_file, passed_bb};
use crate::piece::{Colour, Piece, PieceType};
use vstd::prelude::*;

verus! {

/// The value of checkmate. A mate in `n` plies is worth `MATE_SCORE - n` to the
/// side that gives it.
pub const MATE_SCORE: i32 = 3_000_000;

/// The least magnitude of a score that tells of a mate.
pub const IS_MATE_SCORE: i32 = MATE_SCORE - 128;

/// The value of a draw.
pub const DRAW_SCORE: i32 = 0;

/// The phase of a game with the given numbers of pawns, knights, bishops,
/// rooks and queens on the board: 256 with none, and less by 1 for each
/// pawn, by 10 for each knight and bishop, by 20 for each rook and by 40 for
/// each queen, down to 0, which is the phase with the material of the initial
/// position and with any greater material.
pub open spec fn game_phase_spec(p: int, n: int, b: int, r: int, q: int) -> int {
    let left = 256 - p - 10 * n - 10 * b - 20 * r - 40 * q;
    if left < 0 {
        0
    } else {
        left
    }
}

/// `game_phase` computes the phase of the game: 0 is the opening, 256 is the
/// endgame.
pub fn game_phase(p: u8, n: u8, b: u8, r: u8, q: u8) -> (phase: i32)
    ensures
        phase == game_phase_spec(p as int, n as int, b as int, r as int, q as int),
        0 <= phase <= 256,
{
    let mut phase: i32 = 256;
    phase -= p as i32;
    phase -= 10 * n as i32;
    phase -= 10 * b as i32;
    phase -= 20 * r as i32;
    phase -= 40 * q as i32;
    if phase < 0 {
        0
    } else {
        phase
    }
}

/// Taking a piece off the board never lowers the phase: with no more pieces of
/// any kind, the phase is no less.
pub proof fn lemma_phase_monotone(
    p: int,
    n: int,
    b: int,
    r: int,
    q: int,
    fewer_p: int,
    fewer_n: int,
    fewer_b: int,
    fewer_r: int,
    fewer_q: int,
)
    requires
        fewer_p <= p,
        fewer_n <= n,
        fewer_b <= b,
        fewer_r <= r,
        fewer_q <= q,
    ensures
        game_phase_spec(fewer_p, fewer_n, fewer_b, fewer_r, fewer_q) >= game_phase_spec(p, n, b, r, q),
{
}

/// `lerp` linearly interpolates between `mg` and `eg` by `t`, which runs from 0
/// to 256; a greater `t` counts as 256.
pub fn lerp(mg: i32, eg: i32, t: i32) -> (r: i32)
    requires
        i32::MIN <= lerp_spec(mg as int, eg as int, t as int) <= i32::MAX,
    ensures
        r == lerp_spec(mg as int, eg as int, t as int),
{
    let t: i64 = if t > 256 {
        256
    } else {
        t as i64
    };
    let a: i64 = mg as i64;
    let b: i64 = eg as i64;
    assert(-0x8000_0000 * 0x1_0000_0000 <= a * (256 - t) <= 0x8000_0000 * 0x1_0000_0000)
        by (nonlinear_arith)
        requires
            -0x8000_0000 <= a <= 0x7fff_ffff,
            0 <= 256 - t <= 0x1_0000_0000,
    ;
    assert(-0x8000_0000 * 0x8000_0000 <= b * t <= 0x8000_0000 * 0x8000_0000) by (nonlinear_arith)
        requires
            -0x8000_0000 <= b <= 0x7fff_ffff,
            -0x8000_0000 <= t <= 256,
    ;
    let x: i64 = a * (256 - t) / 256;
    let y: i64 = b * t / 256;
    (x + y) as i32
}

/// Whether a score tells of a mate.
pub fn is_mate_score(score: i32) -> (r: bool)
    ensures
        r == (score >= IS_MATE_SCORE || -score >= IS_MATE_SCORE),
{
    score >= IS_MATE_SCORE || score <= -IS_MATE_SCORE
}

impl Board {
    /// The number of rooks and queens of `c`.
    pub open spec fn majors(&self, c: Colour) -> int {
        self.count(Piece::spec_new(c, PieceType::Rook)) + self.count(
            Piece::spec_new(c, PieceType::Queen),
        )
    }

    /// The number of knights and bishops of `c`.
    pub open spec fn minors(&self, c: Colour) -> int {
        self.count(Piece::spec_new(c, PieceType::Knight)) + self.count(
            Piece::spec_new(c, PieceType::Bishop),
        )
    }

    /// Whether `c` has too little to force mate: no rook or queen, at most one
    /// knight or bishop, and no pawn.
    pub open spec fn unwinnable(&self, c: Colour) -> bool {
        self.majors(c) == 0 && self.minors(c) <= 1 && self.count(
            Piece::spec_new(c, PieceType::Pawn),
        ) == 0
    }

    /// Whether the side with the index `SIDE` has too little to force mate.
    pub fn unwinnable_for<const SIDE: u8>(&self) -> (r: bool)
        requires
            self.wf(),
            SIDE == WHITE || SIDE == BLACK,
        ensures
            r == self.unwinnable(
                if SIDE == WHITE {
                    Colour::White
                } else {
                    Colour::Black
                },
            ),
    {
        let colour = if SIDE == WHITE {
            Colour::White
        } else {
            Colour::Black
        };
        let rooks = self.num(Piece::new(colour, PieceType::Rook));
        let queens = self.num(Piece::new(colour, PieceType::Queen));
        let knights = self.num(Piece::new(colour, PieceType::Knight));
        let bishops = self.num(Piece::new(colour, PieceType::Bishop));
        let pawns = self.num(Piece::new(colour, PieceType::Pawn));
        if rooks != 0 || queens != 0 {
            return false;
        }
        if knights + bishops > 1 {
            return false;
        }
        if pawns != 0 {
            return false;
        }
        true
    }

    /// Whether, with no pawn on the board, the pieces that are left cannot
    /// decide the game. With no rook and no queen: knights only, fewer than
    /// three a side; or bishops only, their numbers differing by at most one;
    /// or one knight or bishop each. With no queen: a rook each and at most one
    /// knight or bishop each; or one rook alone against one or two knights and
    /// bishops.
    pub open spec fn material_draw(&self) -> bool {
        let wn = self.count(Piece::WN);
        let wb = self.count(Piece::WB);
        let wr = self.count(Piece::WR);
        let wq = self.count(Piece::WQ);
        let bn = self.count(Piece::BN);
        let bb = self.count(Piece::BB);
        let br = self.count(Piece::BR);
        let bq = self.count(Piece::BQ);
        if wq != 0 || bq != 0 {
            false
        } else if wr == 0 && br == 0 {
            if wb == 0 && bb == 0 {
                wn < 3 && bn < 3
            } else {
                (wn == 0 && bn == 0 && -2 < wb - bb < 2) || (wb + wn == 1 && bb + bn == 1)
            }
        } else if wr == 1 && br == 1 {
            wn + wb < 2 && bn + bb < 2
        } else if wr == 1 && br == 0 {
            wn + wb == 0 && 1 <= bn + bb <= 2
        } else if wr == 0 && br == 1 {
            bn + bb == 0 && 1 <= wn + wb <= 2
        } else {
            false
        }
    }

    /// Whether the pieces that are left cannot decide the game, where no pawn
    /// is on the board.
    pub fn is_material_draw(&self) -> (r: bool)
        requires
            self.wf(),
        ensures
            r == self.material_draw(),
    {
        let wn = self.num(Piece::WN);
        let wb = self.num(Piece::WB);
        let wr = self.num(Piece::WR);
        let wq = self.num(Piece::WQ);
        let bn = self.num(Piece::BN);
        let bb = self.num(Piece::BB);
        let br = self.num(Piece::BR);
        let bq = self.num(Piece::BQ);
        if wr == 0 && br == 0 && wq == 0 && bq == 0 {
            if wb == 0 && bb == 0 {
                if wn < 3 && bn < 3 {
                    return true;
                }
            } else if (wn == 0 && bn == 0 && (if wb > bb {
                wb - bb
            } else {
                bb - wb
            }) < 2) || (wb + wn == 1 && bb + bn == 1) {
                return true;
            }
        } else if wq == 0 && bq == 0 {
            if wr == 1 && br == 1 {
                if (wn + wb) < 2 && (bn + bb) < 2 {
                    return true;
                }
            } else if wr == 1 && br == 0 {
                if (wn + wb) == 0 && ((bn + bb) == 1 || (bn + bb) == 2) {
                    return true;
                }
            } else if wr == 0 && br == 1 && (bn + bb) == 0 && ((wn + wb) == 1 || (wn + wb) == 2) {
                return true;
            }
        }
        false
    }

    /// A score with the advantage taken out that its side cannot turn into a
    /// win: zero where the score favours a side that has too little to force
    /// mate, and the score itself elsewhere.
    pub open spec fn drawish(&self, score: int) -> int {
        if score > 0 && self.unwinnable(Colour::White) || score < 0 && self.unwinnable(
            Colour::Black,
        ) {
            0
        } else {
            score
        }
    }

    /// Clamps to zero a score, counted from White's side, that favours a side
    /// which cannot win with its material.
    pub fn preprocess_drawish_scores(&self, score: i32) -> (r: i32)
        requires
            self.wf(),
        ensures
            r == self.drawish(score as int),
    {
        if score > 0 && self.unwinnable_for::<WHITE>() || score < 0 && self.unwinnable_for::<
            BLACK,
        >() {
            0
        } else {
            score
        }
    }

    /// The phase of the game: `game_phase_spec` of the numbers of pawns,
    /// knights, bishops, rooks and queens of both sides together.
    pub open spec fn phase_spec(&self) -> int {
        game_phase_spec(
            self.count(Piece::WP) + self.count(Piece::BP),
            self.count(Piece::WN) + self.count(Piece::BN),
            self.count(Piece::WB) + self.count(Piece::BB),
            self.count(Piece::WR) + self.count(Piece::BR),
            self.count(Piece::WQ) + self.count(Piece::BQ),
        )
    }

    /// `phase` computes the phase of the game: 0 is the opening, 256 is the
    /// endgame.
    pub fn phase(&self) -> (r: i32)
        requires
            self.wf(),
        ensures
            r == self.phase_spec(),
            0 <= r <= 256,
    {
        let pawns = self.num(Piece::WP) + self.num(Piece::BP);
        let knights = self.num(Piece::WN) + self.num(Piece::BN);
        let bishops = self.num(Piece::WB) + self.num(Piece::BB);
        let rooks = self.num(Piece::WR) + self.num(Piece::BR);
        let queens = self.num(Piece::WQ) + self.num(Piece::BQ);
        game_phase(pawns, knights, bishops, rooks, queens)
    }

    /// The number of knights, bishops, rooks and queens of `c`.
    pub open spec fn big_pieces(&self, c: Colour) -> int {
        self.majors(c) + self.minors(c)
    }

    /// Whether the side to move is unlikely to be in zugzwang: whether it has
    /// a piece besides pawns and king, and the phase is below that of a game
    /// with three pawns and two rooks.
    pub fn zugzwang_unlikely(&self) -> (r: bool)
        requires
            self.wf(),
        ensures
            r == (self.big_pieces(self.side) > 0 && self.phase_spec() < game_phase_spec(
                3,
                0,
                0,
                2,
                0,
            )),
    {
        let endgame_phase = game_phase(3, 0, 0, 2, 0);
        let big = match self.side {
            Colour::White => self.num(Piece::WN) as u16 + self.num(Piece::WB) as u16 + self.num(
                Piece::WR,
            ) as u16 + self.num(Piece::WQ) as u16,
            Colour::Black => self.num(Piece::BN) as u16 + self.num(Piece::BB) as u16 + self.num(
                Piece::BR,
            ) as u16 + self.num(Piece::BQ) as u16,
        };
        big > 0 && self.phase() < endgame_phase
    }

    /// The bonus for the pair of bishops, counted from White's side: the
    /// bonus for White where White has two or more bishops and Black has
    /// fewer than two, against White where Black has two or more and White
    /// has fewer than two, and nothing where both have a pair or neither has.
    pub open spec fn bishop_pair_spec(&self) -> (int, int) {
        let w = self.count(Piece::WB);
        let b = self.count(Piece::BB);
        if w >= 2 && b < 2 {
            self.eval_params.bishop_pair_bonus@
        } else if b >= 2 && w < 2 {
            pair_neg(self.eval_params.bishop_pair_bonus@)
        } else {
            (0, 0)
        }
    }

    /// The bonus for the pair of bishops, counted from White's side.
    pub fn bishop_pair_term(&self) -> (r: S)
        requires
            self.wf(),
        ensures
            r@ == self.bishop_pair_spec(),
    {
        let w_count = self.num(Piece::WB);
        let b_count = self.num(Piece::BB);
        if w_count >= 2 && b_count < 2 {
            return self.eval_params.bishop_pair_bonus;
        }
        if b_count >= 2 && w_count < 2 {
            let bonus = self.eval_params.bishop_pair_bonus;
            return S(-bonus.0, -bonus.1);
        }
        S(0, 0)
    }
}

proof fn lemma_scale_within(m: int, k: int)
    requires
        -PARAM_LIMIT <= m <= PARAM_LIMIT,
        0 <= k <= 5,
    ensures
        -5 * PARAM_LIMIT <= m * k <= 5 * PARAM_LIMIT,
{
    assert(-5 * 30_000 <= m * k <= 5 * 30_000) by (nonlinear_arith)
        requires
            -30_000 <= m <= 30_000,
            0 <= k <= 5,
    ;
}

/// How much a file with `n` pawns of one colour counts as doubled: nothing for
/// none or one, one less than their number for two to five, and five for six
/// or more.
pub open spec fn doubled_mapping(n: int) -> int {
    if n <= 1 {
        0
    } else if n >= 6 {
        5
    } else {
        n - 1
    }
}

impl Board {
    /// Whether a pawn of `c` on `s` is isolated: whether no pawn of `c` stands
    /// on a file next to its own.
    pub open spec fn isolated(&self, c: Colour, s: int) -> bool {
        forall|t: int|
            0 <= t < 64 && on_adjacent_file(s, t) ==> #[trigger] self.piece_on(t) != Piece::spec_new(
                c,
                PieceType::Pawn,
            )
    }

    /// Whether a pawn of `c` on `s` is passed: whether no pawn of the other
    /// side stands before it, on its file or on one next to it.
    pub open spec fn passed(&self, c: Colour, s: int) -> bool {
        forall|t: int|
            0 <= t < 64 && in_front_span(c, s, t) ==> #[trigger] self.piece_on(t) != Piece::spec_new(
                c.spec_flip(),
                PieceType::Pawn,
            )
    }

    /// The number of ranks that a pawn of `c` on `s` has advanced, less one.
    pub open spec fn advance(c: Colour, s: int) -> int {
        match c {
            Colour::White => rank_of(s) - 1,
            Colour::Black => 6 - rank_of(s),
        }
    }

    /// What a pawn of `c` on `s` is worth by its place among the pawns: the
    /// malus where it is isolated, and the bonus of its rank where it is
    /// passed. Nothing where no pawn of `c` stands on `s`.
    pub open spec fn pawn_score(&self, c: Colour, s: int) -> (int, int) {
        if self.piece_on(s) != Piece::spec_new(c, PieceType::Pawn) {
            (0, 0)
        } else {
            pair_add(
                if self.isolated(c, s) {
                    pair_neg(self.eval_params.isolated_pawn_malus@)
                } else {
                    (0, 0)
                },
                if self.passed(c, s) {
                    self.eval_params.passed_pawn_bonus[Self::advance(c, s)]@
                } else {
                    (0, 0)
                },
            )
        }
    }

    /// The number of pawns of `c` on the file `f`.
    pub open spec fn pawns_on_file(&self, c: Colour, f: int) -> int {
        count_squares(
            |t: int| self.piece_on(t) == Piece::spec_new(c, PieceType::Pawn) && file_of(t) == f,
            64,
        )
    }

    /// The malus for the pawns of `c` that share the file `f`.
    pub open spec fn doubled_score(&self, c: Colour, f: int) -> (int, int) {
        pair_scale(self.eval_params.doubled_pawn_malus@, doubled_mapping(self.pawns_on_file(c, f)))
    }

    /// What the pawns of `c` are worth by their places: the sum of what each
    /// is worth, less the malus for doubled pawns of each file.
    pub open spec fn pawn_structure(&self, c: Colour) -> (int, int) {
        pair_sub(
            sum_pairs(|s: int| self.pawn_score(c, s), 64),
            sum_pairs(|f: int| self.doubled_score(c, f), 8),
        )
    }

    /// What the pawns are worth by their places, counted from White's side.
    pub open spec fn pawn_structure_spec(&self) -> (int, int) {
        pair_sub(self.pawn_structure(Colour::White), self.pawn_structure(Colour::Black))
    }

    /// Whether the pawn of `colour` on `sq` is isolated.
    fn is_isolated(&self, colour: Colour, sq: u8) -> (r: bool)
        requires
            self.wf(),
            sq < 64,
        ensures
            r == self.isolated(colour, sq as int),
    {
        let mask = isolated_bb(sq);
        let own = self.pawns(colour);
        let r = disjoint(mask, own);
        proof {
            let pawn = Piece::spec_new(colour, PieceType::Pawn);
            if r {
                assert forall|t: int| 0 <= t < 64 && on_adjacent_file(sq as int, t) implies #[trigger]
                    self.piece_on(t) != pawn by {
                    assert(is_set(mask, t));
                    assert(!is_set(own, t));
                }
            } else {
                let t = choose|t: int| #[trigger] is_set(mask, t) && is_set(own, t);
                assert(self.piece_on(t) == pawn);
            }
        }
        r
    }

    /// Whether the pawn of `colour` on `sq` is passed.
    fn is_passed(&self, colour: Colour, sq: u8) -> (r: bool)
        requires
            self.wf(),
            sq < 64,
        ensures
            r == self.passed(colour, sq as int),
    {
        let mask = passed_bb(colour, sq);
        let theirs = self.pawns(colour.flip());
        let r = disjoint(mask, theirs);
        proof {
            let pawn = Piece::spec_new(colour.spec_flip(), PieceType::Pawn);
            if r {
                assert forall|t: int|
                    0 <= t < 64 && in_front_span(colour, sq as int, t) implies #[trigger] self.piece_on(
                    t,
                ) != pawn by {
                    assert(is_set(mask, t));
                    assert(!is_set(theirs, t));
                }
            } else {
                let t = choose|t: int| #[trigger] is_set(mask, t) && is_set(theirs, t);
                assert(self.piece_on(t) == pawn);
            }
        }
        r
    }

    /// What the pawn of `colour` on `sq` is worth by its place among the pawns.
    fn pawn_score_at(&self, colour: Colour, sq: u8) -> (r: S)
        requires
            self.wf(),
            sq < 64,
        ensures
            r@ == self.pawn_score(colour, sq as int),
            r.within(2 * PARAM_LIMIT),
    {
        if self.piece_at(sq) != Piece::new(colour, PieceType::Pawn) {
            return S(0, 0);
        }
        let mut score = S(0, 0);
        if self.is_isolated(colour, sq) {
            let malus = self.eval_params.isolated_pawn_malus;
            score = S(-malus.0, -malus.1);
        }
        if self.is_passed(colour, sq) {
            assert(self.piece_array@[sq as int] == Piece::spec_new(colour, PieceType::Pawn));
            let rank = sq / 8;
            let idx = match colour {
                Colour::White => rank - 1,
                Colour::Black => 6 - rank,
            };
            let bonus = self.eval_params.passed_pawn_bonus[idx as usize];
            score = S(score.0 + bonus.0, score.1 + bonus.1);
        }
        score
    }

    /// The malus for the pawns of `colour` that share the file `file`.
    fn doubled_score_at(&self, colour: Colour, file: u8) -> (r: S)
        requires
            self.wf(),
            file < 8,
        ensures
            r@ == self.doubled_score(colour, file as int),
            r.within(5 * PARAM_LIMIT),
    {
        let mask = file_bb(file);
        let own = self.pawns(colour);
        let pawns_in_file = (mask & own).count_ones();
        proof {
            crate::bits::lemma_has_and(mask, own);
            crate::bits::lemma_count_below_is_count_squares(
                mask & own,
                |t: int|
                    self.piece_on(t) == Piece::spec_new(colour, PieceType::Pawn) && file_of(t)
                        == file as int,
                64,
            );
            crate::bits::lemma_popcount_is_count(mask & own);
        }
        let multiplier: i32 = if pawns_in_file <= 1 {
            0
        } else if pawns_in_file >= 6 {
            5
        } else {
            (pawns_in_file - 1) as i32
        };
        let malus = self.eval_params.doubled_pawn_malus;
        proof {
            lemma_scale_within(malus.0 as int, multiplier as int);
            lemma_scale_within(malus.1 as int, multiplier as int);
        }
        S(malus.0 * multiplier, malus.1 * multiplier)
    }

    /// What the pawns of `colour` are worth by their places.
    fn pawn_structure_for(&self, colour: Colour) -> (r: S)
        requires
            self.wf(),
        ensures
            r@ == self.pawn_structure(colour),
            r.within(168 * PARAM_LIMIT),
    {
        let ghost f = |s: int| self.pawn_score(colour, s);
        let mut score = S(0, 0);
        let mut sq: u8 = 0;
        while sq < 64
            invariant
                sq <= 64,
                self.wf(),
                f == |s: int| self.pawn_score(colour, s),
                score@ == sum_pairs(f, sq as int),
                score.within(sq * 60_000),
            decreases 64 - sq,
        {
            let here = self.pawn_score_at(colour, sq);
            score = S(score.0 + here.0, score.1 + here.1);
            sq += 1;
        }
        let ghost g = |f: int| self.doubled_score(colour, f);
        let mut doubled = S(0, 0);
        let mut file: u8 = 0;
        while file < 8
            invariant
                file <= 8,
                self.wf(),
                g == |f: int| self.doubled_score(colour, f),
                doubled@ == sum_pairs(g, file as int),
                doubled.within(file * 150_000),
            decreases 8 - file,
        {
            let here = self.doubled_score_at(colour, file);
            doubled = S(doubled.0 + here.0, doubled.1 + here.1);
            file += 1;
        }
        S(score.0 - doubled.0, score.1 - doubled.1)
    }

    /// What the pawns are worth by their places, counted from White's side:
    /// for each pawn the malus where it is isolated and the bonus of its rank
    /// where it is passed, and for each file the malus for doubled pawns.
    pub fn pawn_structure_term(&self) -> (r: S)
        requires
            self.wf(),
        ensures
            r@ == self.pawn_structure_spec(),
            r.within(336 * PARAM_LIMIT),
    {
        let w_score = self.pawn_structure_for(Colour::White);
        let b_score = self.pawn_structure_for(Colour::Black);
        S(w_score.0 - b_score.0, w_score.1 - b_score.1)
    }
}

impl Board {
    /// Whether no pawn stands on the file `f`.
    pub open spec fn file_open(&self, f: int) -> bool {
        forall|t: int|
            0 <= t < 64 && file_of(t) == f ==> #[trigger] self.piece_on(t) != Piece::WP
                && self.piece_on(t) != Piece::BP
    }

    /// Whether no pawn of `c` stands on the file `f`.
    pub open spec fn file_free_of(&self, c: Colour, f: int) -> bool {
        forall|t: int|
            0 <= t < 64 && file_of(t) == f ==> #[trigger] self.piece_on(t) != Piece::spec_new(
                c,
                PieceType::Pawn,
            )
    }

    /// Whether the file `f` is half-open for `c`: whether it holds pawns of
    /// the other side only, no pawn of `c` and at least one of the other
    /// side.
    pub open spec fn file_halfopen(&self, c: Colour, f: int) -> bool {
        self.file_free_of(c, f) && !self.file_free_of(c.spec_flip(), f)
    }

    /// What a piece of kind `kind` on `s` is worth by the pawns of its file,
    /// counted from White's side: `open` on a file without pawns, `half` on a
    /// file that is half-open for its side. Nothing on any other file, and
    /// nothing where no such piece stands on `s`.
    pub open spec fn file_score(
        &self,
        kind: PieceType,
        open: (int, int),
        half: (int, int),
        s: int,
    ) -> (int, int) {
        let f = file_of(s);
        if self.piece_on(s) == Piece::spec_new(Colour::White, kind) {
            if self.file_open(f) {
                open
            } else if self.file_halfopen(Colour::White, f) {
                half
            } else {
                (0, 0)
            }
        } else if self.piece_on(s) == Piece::spec_new(Colour::Black, kind) {
            if self.file_open(f) {
                pair_neg(open)
            } else if self.file_halfopen(Colour::Black, f) {
                pair_neg(half)
            } else {
                (0, 0)
            }
        } else {
            (0, 0)
        }
    }

    /// What the rooks are worth by the pawns of their files, counted from
    /// White's side.
    pub open spec fn rook_open_file_spec(&self) -> (int, int) {
        sum_pairs(
            |s: int|
                self.file_score(
                    PieceType::Rook,
                    self.eval_params.rook_open_file_bonus@,
                    self.eval_params.rook_half_open_file_bonus@,
                    s,
                ),
            64,
        )
    }

    /// What the queens are worth by the pawns of their files, counted from
    /// White's side.
    pub open spec fn queen_open_file_spec(&self) -> (int, int) {
        sum_pairs(
            |s: int|
                self.file_score(
                    PieceType::Queen,
                    self.eval_params.queen_open_file_bonus@,
                    self.eval_params.queen_half_open_file_bonus@,
                    s,
                ),
            64,
        )
    }

    /// Whether no pawn stands on the file `file`.
    pub fn is_file_open(&self, file: u8) -> (r: bool)
        requires
            self.wf(),
            file < 8,
        ensures
            r == self.file_open(file as int),
    {
        let mask = file_bb(file);
        let white = self.pawns(Colour::White);
        let black = self.pawns(Colour::Black);
        let pawns = white | black;
        let r = disjoint(mask, pawns);
        proof {
            crate::bits::lemma_has_or(white, black);
            if r {
                assert forall|t: int| 0 <= t < 64 && file_of(t) == file as int implies #[trigger]
                    self.piece_on(t) != Piece::WP && self.piece_on(t) != Piece::BP by {
                    assert(is_set(mask, t));
                    assert(!is_set(pawns, t));
                    assert(!is_set(white, t) && !is_set(black, t));
                }
            } else {
                let t = choose|t: int| #[trigger] is_set(mask, t) && is_set(pawns, t);
                assert(is_set(white, t) || is_set(black, t));
                assert(self.piece_on(t) == Piece::WP || self.piece_on(t) == Piece::BP);
            }
        }
        r
    }

    /// Whether no pawn of `colour` stands on the file `file`.
    fn is_file_free_of(&self, colour: Colour, file: u8) -> (r: bool)
        requires
            self.wf(),
            file < 8,
        ensures
            r == self.file_free_of(colour, file as int),
    {
        let mask = file_bb(file);
        let pawns = self.pawns(colour);
        let r = disjoint(mask, pawns);
        proof {
            let pawn = Piece::spec_new(colour, PieceType::Pawn);
            if r {
                assert forall|t: int| 0 <= t < 64 && file_of(t) == file as int implies #[trigger]
                    self.piece_on(t) != pawn by {
                    assert(is_set(mask, t));
                    assert(!is_set(pawns, t));
                }
            } else {
                let t = choose|t: int| #[trigger] is_set(mask, t) && is_set(pawns, t);
                assert(self.piece_on(t) == pawn);
            }
        }
        r
    }

    /// Whether the file `file` is half-open for the side with the index
    /// `SIDE`: whether no pawn of that side stands on it and a pawn of the
    /// other side does.
    pub fn is_file_halfopen<const SIDE: u8>(&self, file: u8) -> (r: bool)
        requires
            self.wf(),
            file < 8,
        ensures
            r == self.file_halfopen(
                if SIDE == WHITE {
                    Colour::White
                } else {
                    Colour::Black
                },
                file as int,
            ),
    {
        let colour = if SIDE == WHITE {
            Colour::White
        } else {
            Colour::Black
        };
        let own = self.is_file_free_of(colour, file);
        let theirs = self.is_file_free_of(colour.flip(), file);
        own && !theirs
    }

    /// What the pieces of kind `kind` are worth by the pawns of their files,
    /// counted from White's side.
    fn open_file_term(&self, kind: PieceType, open: S, half: S) -> (r: S)
        requires
            self.wf(),
            open.within(PARAM_LIMIT as int),
            half.within(PARAM_LIMIT as int),
        ensures
            r@ == sum_pairs(|s: int| self.file_score(kind, open@, half@, s), 64),
            r.within(64 * PARAM_LIMIT),
    {
        let ghost f = |s: int| self.file_score(kind, open@, half@, s);
        let white = Piece::new(Colour::White, kind);
        let black = Piece::new(Colour::Black, kind);
        let mut score = S(0, 0);
        let mut sq: u8 = 0;
        while sq < 64
            invariant
                sq <= 64,
                self.wf(),
                open.within(PARAM_LIMIT as int),
                half.within(PARAM_LIMIT as int),
                white == Piece::spec_new(Colour::White, kind),
                black == Piece::spec_new(Colour::Black, kind),
                f == |s: int| self.file_score(kind, open@, half@, s),
                score@ == sum_pairs(f, sq as int),
                score.within(sq * 30_000),
            decreases 64 - sq,
        {
            let piece = self.piece_at(sq);
            let file = sq % 8;
            if piece == white {
                if self.is_file_open(file) {
                    score = S(score.0 + open.0, score.1 + open.1);
                } else if self.is_file_halfopen::<WHITE>(file) {
                    score = S(score.0 + half.0, score.1 + half.1);
                }
            } else if piece == black {
                if self.is_file_open(file) {
                    score = S(score.0 - open.0, score.1 - open.1);
                } else if self.is_file_halfopen::<BLACK>(file) {
                    score = S(score.0 - half.0, score.1 - half.1);
                }
            }
            sq += 1;
        }
        score
    }

    /// What the rooks are worth by the pawns of their files, counted from
    /// White's side: a bonus for each rook on a file without pawns, and a
    /// smaller one for each on a file without pawns of its own colour.
    pub fn rook_open_file_term(&self) -> (r: S)
        requires
            self.wf(),
        ensures
            r@ == self.rook_open_file_spec(),
            r.within(64 * PARAM_LIMIT),
    {
        self.open_file_term(
            PieceType::Rook,
            self.eval_params.rook_open_file_bonus,
            self.eval_params.rook_half_open_file_bonus,
        )
    }

    /// What the queens are worth by the pawns of their files, counted from
    /// White's side: a bonus for each queen on a file without pawns, and
    /// another for each on a file without pawns of its own colour.
    pub fn queen_open_file_term(&self) -> (r: S)
        requires
            self.wf(),
        ensures
            r@ == self.queen_open_file_spec(),
            r.within(64 * PARAM_LIMIT),
    {
        self.open_file_term(
            PieceType::Queen,
            self.eval_params.queen_open_file_bonus,
            self.eval_params.queen_half_open_file_bonus,
        )
    }
}

/// Whether `t` lies in the area of danger of a king on `king_sq`: whether the
/// king attacks `t`, or attacks the square one rank behind `t` as the king's
/// side sees it.
pub open spec fn in_king_area(white: bool, king_sq: int, t: int) -> bool {
    0 <= t < 64 && (king_reach(king_sq, t) || king_reach(
        king_sq,
        if white {
            t - 8
        } else {
            t + 8
        },
    ))
}

/// The area of danger of a king on `king_sq`: the squares that it attacks, and
/// those one rank further as its side sees it.
pub fn king_area<const IS_WHITE: bool>(king_sq: u8) -> (r: u64)
    requires
        king_sq < 64,
    ensures
        forall|t: int| #[trigger] is_set(r, t) <==> in_king_area(IS_WHITE, king_sq as int, t),
{
    let king_attacks = king_attacks(king_sq);
    let forward_area = if IS_WHITE {
        north_one(king_attacks)
    } else {
        south_one(king_attacks)
    };
    proof {
        crate::bits::lemma_has_or(king_attacks, forward_area);
    }
    king_attacks | forward_area
}

/// The number of squares that two bitboards share.
fn count_common(a: u64, b: u64) -> (n: u32)
    ensures
        n == count_squares(|t: int| is_set(a, t) && is_set(b, t), 64),
        n <= popcount(a),
{
    proof {
        crate::bits::lemma_has_and(a, b);
        crate::bits::lemma_count_below_is_count_squares(
            a & b,
            |t: int| is_set(a, t) && is_set(b, t),
            64,
        );
        crate::bits::lemma_popcount_is_count(a);
        crate::bits::lemma_count_squares_mono(
            |t: int| is_set(a, t) && is_set(b, t),
            crate::bits::squares_of(a),
            64,
        );
    }
    (a & b).count_ones()
}

/// What each side brings to bear on the other's king.
#[derive(Debug, Clone, Copy, PartialEq, Eq)]
pub struct KingDangerInfo {
    pub attack_units_on_white: i32,
    pub attack_units_on_black: i32,
}

/// Whether a piece of kind `kind` is counted for mobility and king danger.
pub open spec fn is_active_kind(kind: PieceType) -> bool {
    kind == PieceType::Knight || kind == PieceType::Bishop || kind == PieceType::Rook || kind
        == PieceType::Queen
}

/// What each square of the area of danger of the other king that a piece of
/// kind `kind` attacks counts.
pub open spec fn attack_weight(kind: PieceType) -> int {
    match kind {
        PieceType::Knight | PieceType::Bishop => 2,
        PieceType::Rook => 3,
        PieceType::Queen => 5,
        _ => 0,
    }
}

/// What each square of the area of danger of its own king that a piece of kind
/// `kind` attacks counts.
pub open spec fn defence_weight(kind: PieceType) -> int {
    match kind {
        PieceType::Knight | PieceType::Bishop | PieceType::Rook => 1,
        PieceType::Queen => 2,
        _ => 0,
    }
}

/// The bonus for a piece of kind `kind` that attacks `n` safe squares.
pub open spec fn mobility_bonus(params: Parameters, kind: PieceType, n: int) -> (int, int) {
    match kind {
        PieceType::Knight => params.knight_mobility_bonus[n]@,
        PieceType::Bishop => params.bishop_mobility_bonus[n]@,
        PieceType::Rook => params.rook_mobility_bonus[n]@,
        PieceType::Queen => params.queen_mobility_bonus[n]@,
        _ => (0, 0),
    }
}

impl Board {
    /// The predicate "a piece of `c` and of kind `kind` on `s` attacks the
    /// square, and no pawn of the other side does".
    pub open spec fn safe_reach(&self, c: Colour, kind: PieceType, s: int) -> spec_fn(int) -> bool {
        |t: int|
            piece_reach(kind, self.occupied, s, t) && !pawn_attacked(
                self.bb_of(Piece::spec_new(c.spec_flip(), PieceType::Pawn)),
                c.spec_flip(),
                t,
            )
    }

    /// The predicate "a piece of kind `kind` on `s` attacks the square, and the
    /// square lies in the area of danger of the king of `king`".
    pub open spec fn area_reach(&self, kind: PieceType, s: int, king: Colour) -> spec_fn(
        int,
    ) -> bool {
        |t: int|
            piece_reach(kind, self.occupied, s, t) && in_king_area(
                king == Colour::White,
                self.king_sq[king.spec_index() as int] as int,
                t,
            )
    }

    /// What the piece on `s` is worth by its mobility, counted from White's
    /// side: for a knight, a bishop, a rook or a queen, the bonus of its kind
    /// for the number of squares that it attacks and no pawn of the other side
    /// does.
    pub open spec fn mobility_at(&self, s: int) -> (int, int) {
        match (self.piece_on(s).spec_colour(), self.piece_on(s).spec_kind()) {
            (Some(c), Some(kind)) => if is_active_kind(kind) {
                let bonus = mobility_bonus(
                    self.eval_params,
                    kind,
                    count_squares(self.safe_reach(c, kind, s), 64),
                );
                if c == Colour::White {
                    bonus
                } else {
                    pair_neg(bonus)
                }
            } else {
                (0, 0)
            },
            _ => (0, 0),
        }
    }

    /// What the pieces are worth by their mobility, counted from White's side.
    pub open spec fn mobility_spec(&self) -> (int, int) {
        sum_pairs(|s: int| self.mobility_at(s), 64)
    }

    /// What the piece on `s` adds to the attack on the king of `victim`: for a
    /// knight, a bishop, a rook or a queen, the number of squares of the
    /// king's area of danger that it attacks, times its weight of attack where
    /// it is of the other side, and times its weight of defence, negated,
    /// where it is of the king's own side.
    pub open spec fn attack_units_at(&self, victim: Colour, s: int) -> int {
        match (self.piece_on(s).spec_colour(), self.piece_on(s).spec_kind()) {
            (Some(c), Some(kind)) => if is_active_kind(kind) {
                let hits = count_squares(self.area_reach(kind, s, victim), 64);
                if c == victim {
                    -defence_weight(kind) * hits
                } else {
                    attack_weight(kind) * hits
                }
            } else {
                0
            },
            _ => 0,
        }
    }

    /// The attack on the king of `victim`, in units.
    pub open spec fn attack_units_on(&self, victim: Colour) -> int {
        sum_ints(|s: int| self.attack_units_at(victim, s), 64)
    }

    /// The mobility bonus and the hits on the two kings' areas of a piece of
    /// `c` and of kind `kind` on `sq`.
    fn piece_activity(
        &self,
        c: Colour,
        kind: PieceType,
        sq: u8,
        white_area: u64,
        black_area: u64,
        safe: u64,
    ) -> (r: (S, i32, i32))
        requires
            self.wf(),
            sq < 64,
            is_active_kind(kind),
            forall|t: int|
                #[trigger] is_set(white_area, t) <==> in_king_area(true, self.king_sq[0] as int, t),
            forall|t: int|
                #[trigger] is_set(black_area, t) <==> in_king_area(
                    false,
                    self.king_sq[1] as int,
                    t,
                ),
            forall|t: int|
                0 <= t < 64 ==> (#[trigger] is_set(safe, t) <==> !pawn_attacked(
                    self.bb_of(Piece::spec_new(c.spec_flip(), PieceType::Pawn)),
                    c.spec_flip(),
                    t,
                )),
        ensures
            r.0@ == mobility_bonus(
                self.eval_params,
                kind,
                count_squares(self.safe_reach(c, kind, sq as int), 64),
            ),
            r.0.within(PARAM_LIMIT as int),
            r.1 == count_squares(self.area_reach(kind, sq as int, Colour::White), 64),
            r.2 == count_squares(self.area_reach(kind, sq as int, Colour::Black), 64),
            0 <= r.1 <= 27,
            0 <= r.2 <= 27,
    {
        let att = attacks(kind, sq, self.occupied);
        let on_white = count_common(att, white_area);
        let on_black = count_common(att, black_area);
        let n = count_common(att, safe);
        proof {
            crate::bits::lemma_count_squares_eq(
                |t: int| is_set(att, t) && is_set(white_area, t),
                self.area_reach(kind, sq as int, Colour::White),
                64,
            );
            crate::bits::lemma_count_squares_eq(
                |t: int| is_set(att, t) && is_set(black_area, t),
                self.area_reach(kind, sq as int, Colour::Black),
                64,
            );
            crate::bits::lemma_count_squares_eq(
                |t: int| is_set(att, t) && is_set(safe, t),
                self.safe_reach(c, kind, sq as int),
                64,
            );
        }
        let bonus = match kind {
            PieceType::Knight => self.eval_params.knight_mobility_bonus[n as usize],
            PieceType::Bishop => self.eval_params.bishop_mobility_bonus[n as usize],
            PieceType::Rook => self.eval_params.rook_mobility_bonus[n as usize],
            _ => self.eval_params.queen_mobility_bonus[n as usize],
        };
        (bonus, on_white as i32, on_black as i32)
    }
}

/// The weight of attack of a piece of kind `kind`.
fn attack_weight_of(kind: PieceType) -> (w: i32)
    ensures
        w == attack_weight(kind),
{
    match kind {
        PieceType::Knight | PieceType::Bishop => 2,
        PieceType::Rook => 3,
        PieceType::Queen => 5,
        _ => 0,
    }
}

/// The weight of defence of a piece of kind `kind`.
fn defence_weight_of(kind: PieceType) -> (w: i32)
    ensures
        w == defence_weight(kind),
{
    match kind {
        PieceType::Knight | PieceType::Bishop | PieceType::Rook => 1,
        PieceType::Queen => 2,
        _ => 0,
    }
}

impl Board {
    /// What the pieces are worth by their mobility, counted from White's side,
    /// and what each side brings to bear on the other's king. One pass over
    /// the knights, bishops, rooks and queens of both sides gives both.
    pub fn mobility(&self) -> (r: (S, KingDangerInfo))
        requires
            self.wf(),
        ensures
            r.0@ == self.mobility_spec(),
            r.0.within(64 * PARAM_LIMIT),
            r.1.attack_units_on_white == self.attack_units_on(Colour::White),
            r.1.attack_units_on_black == self.attack_units_on(Colour::Black),
    {
        let white_king_area = king_area::<true>(self.king_sq(Colour::White));
        let black_king_area = king_area::<false>(self.king_sq(Colour::Black));
        let black_pawn_attacks = pawn_attacks(self.pawns(Colour::Black), Colour::Black);
        let white_pawn_attacks = pawn_attacks(self.pawns(Colour::White), Colour::White);
        let safe_white_moves = !black_pawn_attacks;
        let safe_black_moves = !white_pawn_attacks;
        proof {
            crate::bits::lemma_has_not(black_pawn_attacks);
            crate::bits::lemma_has_not(white_pawn_attacks);
        }
        let ghost f = |s: int| self.mobility_at(s);
        let ghost on_w = |s: int| self.attack_units_at(Colour::White, s);
        let ghost on_b = |s: int| self.attack_units_at(Colour::Black, s);
        let mut mob_score = S(0, 0);
        let mut units_on_white: i32 = 0;
        let mut units_on_black: i32 = 0;
        let mut sq: u8 = 0;
        while sq < 64
            invariant
                sq <= 64,
                self.wf(),
                forall|t: int|
                    #[trigger] is_set(white_king_area, t) <==> in_king_area(
                        true,
                        self.king_sq[0] as int,
                        t,
                    ),
                forall|t: int|
                    #[trigger] is_set(black_king_area, t) <==> in_king_area(
                        false,
                        self.king_sq[1] as int,
                        t,
                    ),
                forall|t: int|
                    0 <= t < 64 ==> (#[trigger] is_set(safe_white_moves, t) <==> !pawn_attacked(
                        self.bb_of(Piece::BP),
                        Colour::Black,
                        t,
                    )),
                forall|t: int|
                    0 <= t < 64 ==> (#[trigger] is_set(safe_black_moves, t) <==> !pawn_attacked(
                        self.bb_of(Piece::WP),
                        Colour::White,
                        t,
                    )),
                f == |s: int| self.mobility_at(s),
                on_w == |s: int| self.attack_units_at(Colour::White, s),
                on_b == |s: int| self.attack_units_at(Colour::Black, s),
                mob_score@ == sum_pairs(f, sq as int),
                mob_score.within(sq * 30_000),
                units_on_white == sum_ints(on_w, sq as int),
                units_on_black == sum_ints(on_b, sq as int),
                -135 * sq <= units_on_white <= 135 * sq,
                -135 * sq <= units_on_black <= 135 * sq,
            decreases 64 - sq,
        {
            let piece = self.piece_at(sq);
            match (piece.colour(), piece.kind()) {
                (Some(c), Some(kind)) => {
                    if kind == PieceType::Knight || kind == PieceType::Bishop || kind
                        == PieceType::Rook || kind == PieceType::Queen {
                        let safe = match c {
                            Colour::White => safe_white_moves,
                            Colour::Black => safe_black_moves,
                        };
                        let (bonus, on_white, on_black) = self.piece_activity(
                            c,
                            kind,
                            sq,
                            white_king_area,
                            black_king_area,
                            safe,
                        );
                        let attack = attack_weight_of(kind);
                        let defence = defence_weight_of(kind);
                        proof {
                            let a = attack as int;
                            let d = defence as int;
                            let w = on_white as int;
                            let b = on_black as int;
                            assert((-d) * w == -(w * d) && (-d) * b == -(b * d) && a * w == w * a
                                && a * b == b * a) by (nonlinear_arith);
                            assert(0 <= w * a <= 135 && 0 <= b * a <= 135 && 0 <= w * d <= 135 && 0
                                <= b * d <= 135) by (nonlinear_arith)
                                requires
                                    0 <= w <= 27,
                                    0 <= b <= 27,
                                    0 <= a <= 5,
                                    0 <= d <= 5,
                            ;
                        }
                        match c {
                            Colour::White => {
                                units_on_black += on_black * attack;
                                units_on_white -= on_white * defence;
                                mob_score = S(mob_score.0 + bonus.0, mob_score.1 + bonus.1);
                            },
                            Colour::Black => {
                                units_on_white += on_white * attack;
                                units_on_black -= on_black * defence;
                                mob_score = S(mob_score.0 - bonus.0, mob_score.1 - bonus.1);
                            },
                        }
                    }
                },
                _ => {},
            }
            sq += 1;
        }
        (
            mob_score,
            KingDangerInfo {
                attack_units_on_white: units_on_white,
                attack_units_on_black: units_on_black,
            },
        )
    }
}

/// The danger that `au` units of attack mean to a king: a polynomial of the
/// second degree in `au`, divided by 100.
pub open spec fn kd_formula(coeffs: [i32; 3], au: int) -> int {
    trunc_div(coeffs[0] * au * au + coeffs[1] * au + coeffs[2], 100)
}

/// The strength of an attack of `units` units: the danger that they mean, the
/// units taken between 0 and 99 and the danger at most 500.
pub open spec fn attack_strength(coeffs: [i32; 3], units: int) -> int {
    let au = if units < 0 {
        0
    } else if units > 99 {
        99
    } else {
        units
    };
    if kd_formula(coeffs, au) > 500 {
        500
    } else {
        kd_formula(coeffs, au)
    }
}

/// The king-danger term, counted from White's side: the strength of White's
/// attack less that of Black's in the midgame, and half of it in the endgame.
pub open spec fn kingdanger_spec(coeffs: [i32; 3], on_white: int, on_black: int) -> (int, int) {
    let rel = attack_strength(coeffs, on_black) - attack_strength(coeffs, on_white);
    (rel, trunc_div(rel, 2))
}

/// The strength of an attack of `units` units.
fn attack_strength_of(coeffs: &[i32; 3], units: i32) -> (r: i32)
    requires
        forall|i: int| 0 <= i < 3 ==> -COEFF_LIMIT <= #[trigger] coeffs[i] <= COEFF_LIMIT,
    ensures
        r == attack_strength(*coeffs, units as int),
        -990_100 <= r <= 500,
{
    let au: i32 = if units < 0 {
        0
    } else if units > 99 {
        99
    } else {
        units
    };
    let a = coeffs[0];
    let b = coeffs[1];
    let c = coeffs[2];
    assert(-990_000 <= a * au <= 990_000 && -98_010_000 <= a * au * au <= 98_010_000 && -990_000
        <= b * au <= 990_000) by (nonlinear_arith)
        requires
            -10_000 <= a <= 10_000,
            -10_000 <= b <= 10_000,
            0 <= au <= 99,
    ;
    let danger = (a * au * au + b * au + c) / 100;
    if danger > 500 {
        500
    } else {
        danger
    }
}

impl Board {
    /// The king-danger term, counted from White's side.
    pub fn score_kingdanger(&self, kd: KingDangerInfo) -> (r: S)
        requires
            self.wf(),
        ensures
            r@ == kingdanger_spec(
                self.eval_params.king_danger_coeffs,
                kd.attack_units_on_white as int,
                kd.attack_units_on_black as int,
            ),
            r.within(1_000_000),
    {
        let white_attack_strength = attack_strength_of(
            &self.eval_params.king_danger_coeffs,
            kd.attack_units_on_black,
        );
        let black_attack_strength = attack_strength_of(
            &self.eval_params.king_danger_coeffs,
            kd.attack_units_on_white,
        );
        let relscore = white_attack_strength - black_attack_strength;
        S(relscore, relscore / 2)
    }

    /// The sum of all terms of the evaluation, counted from White's side:
    /// material, piece-square total, pawn structure, bishop pair, rooks and
    /// queens on open files, mobility and king danger.
    pub open spec fn total_score(&self) -> (int, int) {
        let material = pair_sub(self.material[0]@, self.material[1]@);
        let kd = kingdanger_spec(
            self.eval_params.king_danger_coeffs,
            self.attack_units_on(Colour::White),
            self.attack_units_on(Colour::Black),
        );
        pair_add(
            pair_add(
                pair_add(
                    pair_add(
                        pair_add(
                            pair_add(pair_add(material, self.pst_vals@), self.pawn_structure_spec()),
                            self.bishop_pair_spec(),
                        ),
                        self.rook_open_file_spec(),
                    ),
                    self.queen_open_file_spec(),
                ),
                self.mobility_spec(),
            ),
            kd,
        )
    }

    /// The score of the position, counted from White's side: the sum of all
    /// terms, blended by the phase of the game, and clamped to zero where it
    /// favours a side that cannot win.
    pub open spec fn white_score(&self) -> int {
        self.drawish(lerp_spec(self.total_score().0, self.total_score().1, self.phase_spec()))
    }

    /// The score of the position for the side to move: the value of a draw
    /// where no pawn is left and the pieces cannot decide the game; else the
    /// score counted from White's side, negated where Black is to move.
    pub open spec fn evaluate_spec(&self) -> int {
        if self.count(Piece::WP) + self.count(Piece::BP) == 0 && self.material_draw() {
            DRAW_SCORE as int
        } else if self.side == Colour::White {
            self.white_score()
        } else {
            -self.white_score()
        }
    }

    /// Computes a score for the position, from the point of view of the side
    /// to move.
    pub fn evaluate(&self) -> (r: i32)
        requires
            self.wf(),
        ensures
            r == self.evaluate_spec(),
    {
        proof {
            self.lemma_count_bounds(Piece::WP);
            self.lemma_count_bounds(Piece::BP);
        }
        if !self.any_pawns() && self.is_material_draw() {
            return match self.side {
                Colour::White => DRAW_SCORE,
                Colour::Black => -DRAW_SCORE,
            };
        }
        proof {
            crate::board::lemma_material_within(self.piece_array@, self.eval_params, Colour::White);
            crate::board::lemma_material_within(self.piece_array@, self.eval_params, Colour::Black);
            crate::board::lemma_pst_sum_within(self.piece_array@);
        }
        let white = self.material[0];
        let black = self.material[1];
        let material = S(white.0 - black.0, white.1 - black.1);
        let pst = self.pst_vals;

        let pawn_val = self.pawn_structure_term();
        let bishop_pair_val = self.bishop_pair_term();
        let rook_open_file_val = self.rook_open_file_term();
        let queen_open_file_val = self.queen_open_file_term();
        let (mobility_val, danger_info) = self.mobility();
        let king_danger = self.score_kingdanger(danger_info);

        let mut score = material;
        score = S(score.0 + pst.0, score.1 + pst.1);
        score = S(score.0 + pawn_val.0, score.1 + pawn_val.1);
        score = S(score.0 + bishop_pair_val.0, score.1 + bishop_pair_val.1);
        score = S(score.0 + rook_open_file_val.0, score.1 + rook_open_file_val.1);
        score = S(score.0 + queen_open_file_val.0, score.1 + queen_open_file_val.1);
        score = S(score.0 + mobility_val.0, score.1 + mobility_val.1);
        score = S(score.0 + king_danger.0, score.1 + king_danger.1);

        let phase = self.phase();
        proof {
            lemma_lerp_bounded(score.0 as int, score.1 as int, phase as int);
        }
        let score = score.value(phase);

        let score = self.preprocess_drawish_scores(score);

        match self.side {
            Colour::White => score,
            Colour::Black => -score,
        }
    }
}

/// The greatest magnitude of either part of the sum of all terms.
pub const TOTAL_LIMIT: i32 = 21_000_000;

/// The blend of two parts within `TOTAL_LIMIT` at a phase from 0 to 256 is
/// an `i32`, and not the least one.
proof fn lemma_lerp_bounded(mg: int, eg: int, t: int)
    requires
        -TOTAL_LIMIT <= mg <= TOTAL_LIMIT,
        -TOTAL_LIMIT <= eg <= TOTAL_LIMIT,
        0 <= t <= 256,
    ensures
        -0x7fff_ffff <= lerp_spec(mg, eg, t) <= 0x7fff_ffff,
{
    assert(-21_000_000 * 256 <= mg * (256 - t) <= 21_000_000 * 256) by (nonlinear_arith)
        requires
            -21_000_000 <= mg <= 21_000_000,
            0 <= 256 - t <= 256,
    ;
    assert(-21_000_000 * 256 <= eg * t <= 21_000_000 * 256) by (nonlinear_arith)
        requires
            -21_000_000 <= eg <= 21_000_000,
            0 <= t <= 256,
    ;
}

impl Board {
    /// Whether the kings stand alone but for one knight or bishop.
    pub open spec fn lone_minor(&self) -> bool {
        &&& self.count(Piece::WP) + self.count(Piece::BP) == 0
        &&& self.majors(Colour::White) + self.majors(Colour::Black) == 0
        &&& self.minors(Colour::White) + self.minors(Colour::Black) == 1
    }

    /// A king and one knight or bishop against a king is worth exactly a
    /// draw, whose the piece may be and whoever is to move.
    pub proof fn lemma_lone_minor_is_draw(&self)
        requires
            self.wf(),
            self.lone_minor(),
        ensures
            self.evaluate_spec() == DRAW_SCORE,
    {
        self.lemma_count_bounds(Piece::WP);
        self.lemma_count_bounds(Piece::BP);
        self.lemma_count_bounds(Piece::WN);
        self.lemma_count_bounds(Piece::BN);
        self.lemma_count_bounds(Piece::WB);
        self.lemma_count_bounds(Piece::BB);
        self.lemma_count_bounds(Piece::WR);
        self.lemma_count_bounds(Piece::BR);
        self.lemma_count_bounds(Piece::WQ);
        self.lemma_count_bounds(Piece::BQ);
    }

    /// The score never favours a side that has too little to force mate: for
    /// the side to move it is at most zero where that side cannot win, and at
    /// least zero where the other side cannot.
    pub proof fn lemma_unwinnable_clamp(&self)
        requires
            self.wf(),
        ensures
            self.unwinnable(self.side) ==> self.evaluate_spec() <= 0,
            self.unwinnable(self.side.spec_flip()) ==> self.evaluate_spec() >= 0,
    {
    }

    /// The same pieces with the other side to move are worth the negated
    /// score.
    pub proof fn lemma_turn_antisymmetry(&self, other: &Board)
        requires
            self.wf(),
            other.wf(),
            other.piece_array@ == self.piece_array@,
            other.eval_params == self.eval_params,
            other.side == self.side.spec_flip(),
        ensures
            other.evaluate_spec() == -self.evaluate_spec(),
    {
        lemma_same_pieces(self, other);
    }
}

/// Two positions with the same pieces on the same squares and the same
/// constants of the evaluation agree in everything that follows from these.
pub proof fn lemma_same_pieces(a: &Board, b: &Board)
    requires
        a.wf(),
        b.wf(),
        a.piece_array@ == b.piece_array@,
        a.eval_params == b.eval_params,
    ensures
        a.bbs@ =~= b.bbs@,
        a.occupied == b.occupied,
        a.king_sq[0] == b.king_sq[0],
        a.king_sq[1] == b.king_sq[1],
        a.material[0] == b.material[0],
        a.material[1] == b.material[1],
        a.pst_vals == b.pst_vals,
        a.white_score() == b.white_score(),
        a.material_draw() == b.material_draw(),
{
    a.lemma_occupied();
    b.lemma_occupied();
    assert forall|k: int| 0 <= k < 13 implies a.bbs@[k] == b.bbs@[k] by {
        crate::bits::lemma_bitboard_ext(a.bbs@[k], b.bbs@[k]);
    }
    assert(a.bbs@ =~= b.bbs@);
    assert(a.king_sq[0] == b.king_sq[0]);
    assert(a.king_sq[1] == b.king_sq[1]);
    assert(a.material[0] == b.material[0]);
    assert(a.material[1] == b.material[1]);
    lemma_same_terms(a, b);
}

/// Two positions that agree in their parts agree in every term of the
/// evaluation.
proof fn lemma_same_terms(a: &Board, b: &Board)
    requires
        a.piece_array@ == b.piece_array@,
        a.eval_params == b.eval_params,
        a.bbs@ == b.bbs@,
        a.occupied == b.occupied,
        a.king_sq[0] == b.king_sq[0],
        a.king_sq[1] == b.king_sq[1],
        a.material[0] == b.material[0],
        a.material[1] == b.material[1],
        a.pst_vals == b.pst_vals,
    ensures
        a.white_score() == b.white_score(),
        a.material_draw() == b.material_draw(),
{
    assert(forall|p: Piece| a.count(p) == b.count(p));
    assert(forall|t: int| a.piece_on(t) == b.piece_on(t));
    assert forall|c: Colour, s: int| a.isolated(c, s) == b.isolated(c, s) by {
        if a.isolated(c, s) {
            assert forall|t: int| 0 <= t < 64 && on_adjacent_file(s, t) implies #[trigger] b.piece_on(
                t,
            ) != Piece::spec_new(c, PieceType::Pawn) by {
                assert(a.piece_on(t) == b.piece_on(t));
            }
        }
        if b.isolated(c, s) {
            assert forall|t: int| 0 <= t < 64 && on_adjacent_file(s, t) implies #[trigger] a.piece_on(
                t,
            ) != Piece::spec_new(c, PieceType::Pawn) by {
                assert(a.piece_on(t) == b.piece_on(t));
            }
        }
    }
    assert forall|c: Colour, s: int| a.passed(c, s) == b.passed(c, s) by {
        if a.passed(c, s) {
            assert forall|t: int| 0 <= t < 64 && in_front_span(c, s, t) implies #[trigger] b.piece_on(
                t,
            ) != Piece::spec_new(c.spec_flip(), PieceType::Pawn) by {
                assert(a.piece_on(t) == b.piece_on(t));
            }
        }
        if b.passed(c, s) {
            assert forall|t: int| 0 <= t < 64 && in_front_span(c, s, t) implies #[trigger] a.piece_on(
                t,
            ) != Piece::spec_new(c.spec_flip(), PieceType::Pawn) by {
                assert(a.piece_on(t) == b.piece_on(t));
            }
        }
    }
    assert(forall|c: Colour, s: int| a.pawn_score(c, s) == b.pawn_score(c, s));
    assert forall|c: Colour, f: int| a.pawns_on_file(c, f) == b.pawns_on_file(c, f) by {
        assert((|t: int|
            a.piece_on(t) == Piece::spec_new(c, PieceType::Pawn) && file_of(t) == f) =~= (|t: int|
            b.piece_on(t) == Piece::spec_new(c, PieceType::Pawn) && file_of(t) == f));
    }
    assert forall|c: Colour| a.pawn_structure(c) == b.pawn_structure(c) by {
        assert((|s: int| a.pawn_score(c, s)) =~= (|s: int| b.pawn_score(c, s)));
        assert((|f: int| a.doubled_score(c, f)) =~= (|f: int| b.doubled_score(c, f)));
    }
    assert forall|f: int| a.file_open(f) == b.file_open(f) by {
        if a.file_open(f) {
            assert forall|t: int| 0 <= t < 64 && file_of(t) == f implies #[trigger] b.piece_on(t)
                != Piece::WP && b.piece_on(t) != Piece::BP by {
                assert(a.piece_on(t) == b.piece_on(t));
            }
        }
        if b.file_open(f) {
            assert forall|t: int| 0 <= t < 64 && file_of(t) == f implies #[trigger] a.piece_on(t)
                != Piece::WP && a.piece_on(t) != Piece::BP by {
                assert(a.piece_on(t) == b.piece_on(t));
            }
        }
    }
    assert forall|c: Colour, f: int| a.file_free_of(c, f) == b.file_free_of(c, f) by {
        if a.file_free_of(c, f) {
            assert forall|t: int| 0 <= t < 64 && file_of(t) == f implies #[trigger] b.piece_on(t)
                != Piece::spec_new(c, PieceType::Pawn) by {
                assert(a.piece_on(t) == b.piece_on(t));
            }
        }
        if b.file_free_of(c, f) {
            assert forall|t: int| 0 <= t < 64 && file_of(t) == f implies #[trigger] a.piece_on(t)
                != Piece::spec_new(c, PieceType::Pawn) by {
                assert(a.piece_on(t) == b.piece_on(t));
            }
        }
    }
    assert(a.rook_open_file_spec() == b.rook_open_file_spec()) by {
        assert((|s: int|
            a.file_score(
                PieceType::Rook,
                a.eval_params.rook_open_file_bonus@,
                a.eval_params.rook_half_open_file_bonus@,
                s,
            )) =~= (|s: int|
            b.file_score(
                PieceType::Rook,
                b.eval_params.rook_open_file_bonus@,
                b.eval_params.rook_half_open_file_bonus@,
                s,
            )));
    }
    assert(a.queen_open_file_spec() == b.queen_open_file_spec()) by {
        assert((|s: int|
            a.file_score(
                PieceType::Queen,
                a.eval_params.queen_open_file_bonus@,
                a.eval_params.queen_half_open_file_bonus@,
                s,
            )) =~= (|s: int|
            b.file_score(
                PieceType::Queen,
                b.eval_params.queen_open_file_bonus@,
                b.eval_params.queen_half_open_file_bonus@,
                s,
            )));
    }
    assert forall|c: Colour, kind: PieceType, s: int|
        a.safe_reach(c, kind, s) == b.safe_reach(c, kind, s) by {
        assert(a.safe_reach(c, kind, s) =~= b.safe_reach(c, kind, s));
    }
    assert forall|c: Colour, kind: PieceType, s: int|
        a.area_reach(kind, s, c) == b.area_reach(kind, s, c) by {
        assert(a.area_reach(kind, s, c) =~= b.area_reach(kind, s, c));
    }
    assert(a.mobility_spec() == b.mobility_spec()) by {
        assert((|s: int| a.mobility_at(s)) =~= (|s: int| b.mobility_at(s)));
    }
    assert forall|c: Colour| a.attack_units_on(c) == b.attack_units_on(c) by {
        assert((|s: int| a.attack_units_at(c, s)) =~= (|s: int| b.attack_units_at(c, s)));
    }
}

/// The square one rank ahead of `s` for a pawn of `c`.
pub open spec fn square_ahead(c: Colour, s: int) -> int {
    match c {
        Colour::White => s + 8,
        Colour::Black => s - 8,
    }
}

/// Whether `b` is `a` with the pawn of `c` on `s` moved one rank ahead onto an
/// empty square, and nothing else changed.
pub open spec fn pawn_advanced(a: &Board, b: &Board, c: Colour, s: int) -> bool {
    let to = square_ahead(c, s);
    let pawn = Piece::spec_new(c, PieceType::Pawn);
    &&& 0 <= s < 64
    &&& 0 <= to < 64
    &&& a.piece_on(s) == pawn
    &&& a.piece_on(to) == Piece::Empty
    &&& b.piece_array@ == a.piece_array@.update(s, Piece::Empty).update(to, pawn)
    &&& b.eval_params == a.eval_params
}

/// A passed pawn that is moved one rank ahead is still passed, and isolated
/// just when it was; by its place among the pawns it is then worth what it
/// was worth and the difference of the bonuses of the two ranks. So where
/// the bonus of the further rank is greater in both parts, the pawn is worth
/// more in both parts. Of the score of the whole position this says nothing:
/// the other terms change with the pawn's square too.
pub proof fn lemma_advanced_passer_term(a: &Board, b: &Board, c: Colour, s: int)
    requires
        a.wf(),
        b.wf(),
        pawn_advanced(a, b, c, s),
        a.passed(c, s),
    ensures
        b.passed(c, square_ahead(c, s)),
        b.isolated(c, square_ahead(c, s)) == a.isolated(c, s),
        0 <= Board::advance(c, s) < 5,
        Board::advance(c, square_ahead(c, s)) == Board::advance(c, s) + 1,
        b.pawn_score(c, square_ahead(c, s)) == pair_add(
            a.pawn_score(c, s),
            pair_sub(
                a.eval_params.passed_pawn_bonus[Board::advance(c, s) + 1]@,
                a.eval_params.passed_pawn_bonus[Board::advance(c, s)]@,
            ),
        ),
        ({
            let nearer = a.eval_params.passed_pawn_bonus[Board::advance(c, s)]@;
            let further = a.eval_params.passed_pawn_bonus[Board::advance(c, s) + 1]@;
            nearer.0 < further.0 && nearer.1 < further.1 ==> a.pawn_score(c, s).0 < b.pawn_score(
                c,
                square_ahead(c, s),
            ).0 && a.pawn_score(c, s).1 < b.pawn_score(c, square_ahead(c, s)).1
        }),
{
    let to = square_ahead(c, s);
    let own = Piece::spec_new(c, PieceType::Pawn);
    let other = Piece::spec_new(c.spec_flip(), PieceType::Pawn);
    assert(b.piece_on(to) == own);
    assert(a.piece_array@[s] == own);
    assert(b.piece_array@[to] == own);
    assert forall|t: int| 0 <= t < 64 && in_front_span(c, to, t) implies #[trigger] b.piece_on(t)
        != other by {
        assert(in_front_span(c, s, t));
        assert(a.piece_on(t) != other);
    }
    if a.isolated(c, s) {
        assert forall|t: int| 0 <= t < 64 && on_adjacent_file(to, t) implies #[trigger] b.piece_on(t)
            != own by {
            assert(on_adjacent_file(s, t));
            assert(a.piece_on(t) != own);
        }
    }
    if b.isolated(c, to) {
        assert forall|t: int| 0 <= t < 64 && on_adjacent_file(s, t) implies #[trigger] a.piece_on(t)
            != own by {
            assert(on_adjacent_file(to, t));
            assert(b.piece_on(t) != own);
        }
    }
}

} // verus!
