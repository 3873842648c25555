use crate::board::evaluation::parameters::Parameters;
use crate::board::{is_only, valid_placement, Board, BKCA, BQCA, WKCA, WQCA};
use crate::chessmove::Move;
use crate::errors::{FenParseError, MoveParseError};
use crate::piece::{Colour, Piece, PieceType};
use vstd::prelude::*;
use vstd::string::StringSliceAdditionalSpecFns;

verus! {

/// The piece that a letter of the first field of a position's text stands for.
pub open spec fn fen_piece(c: u8) -> Option<Piece> {
    if c == 'P' as u8 {
        Some(Piece::WP)
    } else if c == 'N' as u8 {
        Some(Piece::WN)
    } else if c == 'B' as u8 {
        Some(Piece::WB)
    } else if c == 'R' as u8 {
        Some(Piece::WR)
    } else if c == 'Q' as u8 {
        Some(Piece::WQ)
    } else if c == 'K' as u8 {
        Some(Piece::WK)
    } else if c == 'p' as u8 {
        Some(Piece::BP)
    } else if c == 'n' as u8 {
        Some(Piece::BN)
    } else if c == 'b' as u8 {
        Some(Piece::BB)
    } else if c == 'r' as u8 {
        Some(Piece::BR)
    } else if c == 'q' as u8 {
        Some(Piece::BQ)
    } else if c == 'k' as u8 {
        Some(Piece::BK)
    } else {
        None
    }
}

fn piece_of_letter(c: u8) -> (p: Option<Piece>)
    ensures
        p == fen_piece(c),
{
    if c == 'P' as u8 {
        Some(Piece::WP)
    } else if c == 'N' as u8 {
        Some(Piece::WN)
    } else if c == 'B' as u8 {
        Some(Piece::WB)
    } else if c == 'R' as u8 {
        Some(Piece::WR)
    } else if c == 'Q' as u8 {
        Some(Piece::WQ)
    } else if c == 'K' as u8 {
        Some(Piece::WK)
    } else if c == 'p' as u8 {
        Some(Piece::BP)
    } else if c == 'n' as u8 {
        Some(Piece::BN)
    } else if c == 'b' as u8 {
        Some(Piece::BB)
    } else if c == 'r' as u8 {
        Some(Piece::BR)
    } else if c == 'q' as u8 {
        Some(Piece::BQ)
    } else if c == 'k' as u8 {
        Some(Piece::BK)
    } else {
        None
    }
}

/// Whether the field that holds the byte at `i` ends there: whether the text
/// ends at `i` or holds a space there.
pub open spec fn field_ends(b: Seq<u8>, i: int) -> bool {
    i >= b.len() || b[i] == ' ' as u8
}

/// The squares that the first field of a position's text fills, read from the
/// byte at `i` on with the rank `r` and the file `f` next to fill and `acc`
/// filled so far, together with the index at which the field ends. The field
/// gives the ranks from the eighth to the first, parted by `/`; in a rank a
/// letter places a piece and a digit from 1 to 8 leaves as many squares empty.
pub open spec fn parse_placement(b: Seq<u8>, i: int, r: int, f: int, acc: Seq<Piece>) -> Option<
    (Seq<Piece>, int),
>
    decreases b.len() - i,
{
    if i < 0 {
        None
    } else if field_ends(b, i) {
        if r == 0 && f == 8 {
            Some((acc, i))
        } else {
            None
        }
    } else if b[i] == '/' as u8 {
        if f == 8 && r > 0 {
            parse_placement(b, i + 1, r - 1, 0, acc)
        } else {
            None
        }
    } else if '1' as u8 <= b[i] <= '8' as u8 {
        let d = b[i] - '0' as u8;
        if f + d <= 8 {
            parse_placement(b, i + 1, r, f + d, acc)
        } else {
            None
        }
    } else {
        match fen_piece(b[i]) {
            Some(p) => if f < 8 {
                parse_placement(b, i + 1, r, f + 1, acc.update(8 * r + f, p))
            } else {
                None
            },
            None => None,
        }
    }
}

/// The castling right that a letter of the third field stands for.
pub open spec fn castling_bit(c: u8) -> Option<u8> {
    if c == 'K' as u8 {
        Some(WKCA)
    } else if c == 'Q' as u8 {
        Some(WQCA)
    } else if c == 'k' as u8 {
        Some(BKCA)
    } else if c == 'q' as u8 {
        Some(BQCA)
    } else {
        None
    }
}

/// The castling rights that the letters from the byte at `i` to the end of
/// their field add to `acc`, together with the index at which the field ends.
pub open spec fn parse_castling_letters(b: Seq<u8>, i: int, acc: u8) -> Option<(u8, int)>
    decreases b.len() - i,
{
    if i < 0 {
        None
    } else if field_ends(b, i) {
        Some((acc, i))
    } else {
        match castling_bit(b[i]) {
            Some(bit) => parse_castling_letters(b, i + 1, acc | bit),
            None => None,
        }
    }
}

/// The castling rights that the field at `i` names, together with the index
/// at which it ends: none for `-`, else those of its letters, of which there
/// is at least one.
pub open spec fn parse_castling(b: Seq<u8>, i: int) -> Option<(u8, int)> {
    if field_ends(b, i) {
        None
    } else if b[i] == '-' as u8 {
        if field_ends(b, i + 1) {
            Some((0u8, i + 1))
        } else {
            None
        }
    } else {
        parse_castling_letters(b, i, 0)
    }
}

/// The en-passant square that the field at `i` names: none for `-`, else the
/// square of the third or the sixth rank that a letter from `a` to `h` and
/// the digit `3` or `6` name.
pub open spec fn parse_en_passant(b: Seq<u8>, i: int) -> Option<Option<u8>> {
    if field_ends(b, i) {
        None
    } else if b[i] == '-' as u8 {
        if field_ends(b, i + 1) {
            Some(None)
        } else {
            None
        }
    } else if 'a' as u8 <= b[i] <= 'h' as u8 && i + 1 < b.len() && (b[i + 1] == '3' as u8 || b[i
        + 1] == '6' as u8) && field_ends(b, i + 2) {
        Some(Some((8 * (b[i + 1] - '1' as u8) + (b[i] - 'a' as u8)) as u8))
    } else {
        None
    }
}

/// What the text of a position says.
pub struct FenFields {
    /// What stands on each of the 64 squares.
    pub pieces: Seq<Piece>,
    /// The side to move.
    pub side: Colour,
    /// The castling rights.
    pub castle_perm: u8,
    /// The en-passant square.
    pub ep_sq: Option<u8>,
}

/// What the text `b` says where it is a position in Forsyth-Edwards notation,
/// and why it is none elsewhere. Four fields are read, each parted from the
/// next by one space: the placement of the pieces, the side to move, the
/// castling rights and the en-passant square. What follows a space after the
/// fourth field is not read.
pub open spec fn parse_fen(b: Seq<u8>) -> Result<FenFields, FenParseError> {
    match parse_placement(b, 0, 7, 0, Seq::new(64, |s: int| Piece::Empty)) {
        None => Err(FenParseError::Placement),
        Some((pieces, e)) => {
            if !(e + 1 < b.len() && (b[e + 1] == 'w' as u8 || b[e + 1] == 'b' as u8) && e + 2
                < b.len() && b[e + 2] == ' ' as u8) {
                Err(FenParseError::SideToMove)
            } else {
                let side = if b[e + 1] == 'w' as u8 {
                    Colour::White
                } else {
                    Colour::Black
                };
                match parse_castling(b, e + 3) {
                    None => Err(FenParseError::Castling),
                    Some((castle_perm, c)) => match parse_en_passant(b, c + 1) {
                        None => Err(FenParseError::EnPassant),
                        Some(ep_sq) => Ok(FenFields { pieces, side, castle_perm, ep_sq }),
                    },
                }
            }
        },
    }
}

/// Reads the first field of a position's text.
fn read_placement(b: &[u8]) -> (r: Option<(Vec<Piece>, usize)>)
    ensures
        match parse_placement(b@, 0, 7, 0, Seq::new(64, |s: int| Piece::Empty)) {
            None => r is None,
            Some((pieces, e)) => r matches Some((v, end)) && v@ == pieces && end == e && e
                <= b@.len() && pieces.len() == 64,
        },
{
    let mut acc: Vec<Piece> = Vec::new();
    let mut k: usize = 0;
    while k < 64
        invariant
            k <= 64,
            acc@.len() == k,
            forall|s: int| 0 <= s < k ==> acc@[s] == Piece::Empty,
        decreases 64 - k,
    {
        acc.push(Piece::Empty);
        k += 1;
    }
    assert(acc@ =~= Seq::new(64, |s: int| Piece::Empty));
    let ghost start = acc@;
    let mut i: usize = 0;
    let mut rank: usize = 7;
    let mut file: usize = 0;
    loop
        invariant
            i <= b@.len(),
            rank <= 7,
            file <= 8,
            acc@.len() == 64,
            parse_placement(b@, 0, 7, 0, start) == parse_placement(
                b@,
                i as int,
                rank as int,
                file as int,
                acc@,
            ),
            start == Seq::new(64, |s: int| Piece::Empty),
        decreases b@.len() - i,
    {
        if i >= b.len() || b[i] == ' ' as u8 {
            if rank == 0 && file == 8 {
                return Some((acc, i));
            } else {
                return None;
            }
        }
        let c = b[i];
        if c == '/' as u8 {
            if file == 8 && rank > 0 {
                rank -= 1;
                file = 0;
            } else {
                return None;
            }
        } else if '1' as u8 <= c && c <= '8' as u8 {
            let d = (c - '0' as u8) as usize;
            if file + d <= 8 {
                file += d;
            } else {
                return None;
            }
        } else {
            match piece_of_letter(c) {
                Some(p) => {
                    if file < 8 {
                        acc.set(8 * rank + file, p);
                        file += 1;
                    } else {
                        return None;
                    }
                },
                None => {
                    return None;
                },
            }
        }
        i += 1;
    }
}

/// Reads the castling rights from the field at `i`.
fn read_castling(b: &[u8], i: usize) -> (r: Option<(u8, usize)>)
    ensures
        match parse_castling(b@, i as int) {
            None => r is None,
            Some((perm, e)) => r matches Some((p, end)) && p == perm && end == e && e <= b@.len(),
        },
{
    if i >= b.len() || b[i] == ' ' as u8 {
        return None;
    }
    if b[i] == '-' as u8 {
        if i + 1 >= b.len() || b[i + 1] == ' ' as u8 {
            return Some((0, i + 1));
        } else {
            return None;
        }
    }
    let mut acc: u8 = 0;
    let mut j: usize = i;
    loop
        invariant
            i <= j <= b@.len(),
            parse_castling(b@, i as int) == parse_castling_letters(b@, j as int, acc),
        decreases b@.len() - j,
    {
        if j >= b.len() || b[j] == ' ' as u8 {
            return Some((acc, j));
        }
        let c = b[j];
        let bit = if c == 'K' as u8 {
            WKCA
        } else if c == 'Q' as u8 {
            WQCA
        } else if c == 'k' as u8 {
            BKCA
        } else if c == 'q' as u8 {
            BQCA
        } else {
            return None;
        };
        acc = acc | bit;
        j += 1;
    }
}

/// Reads the en-passant square from the field at `i`.
fn read_en_passant(b: &[u8], i: usize) -> (r: Option<Option<u8>>)
    requires
        i <= b@.len(),
    ensures
        r == parse_en_passant(b@, i as int),
        r matches Some(Some(e)) ==> e < 64,
{
    if i >= b.len() || b[i] == ' ' as u8 {
        return None;
    }
    if b[i] == '-' as u8 {
        if i + 1 >= b.len() || b[i + 1] == ' ' as u8 {
            return Some(None);
        } else {
            return None;
        }
    }
    if 'a' as u8 <= b[i] && b[i] <= 'h' as u8 && i + 1 < b.len() && (b[i + 1] == '3' as u8 || b[i
        + 1] == '6' as u8) && (i + 2 >= b.len() || b[i + 2] == ' ' as u8) {
        Some(Some(8 * (b[i + 1] - '1' as u8) + (b[i] - 'a' as u8)))
    } else {
        None
    }
}

impl Board {
    /// The position that the text `b` gives in Forsyth-Edwards notation,
    /// evaluated by `params`.
    pub fn read_fen(b: &[u8], params: Parameters) -> (r: Result<Board, FenParseError>)
        requires
            params.wf(),
        ensures
            match parse_fen(b@) {
                Err(e) => r == Err::<Board, FenParseError>(e),
                Ok(fields) => if valid_placement(fields.pieces) {
                    r matches Ok(board) && board.wf() && board.piece_array@ == fields.pieces
                        && board.side == fields.side && board.castle_perm == fields.castle_perm
                        && board.ep_sq == fields.ep_sq && board.eval_params == params
                        && board.history@.len() == 0 && board.height == 0
                } else {
                    r == Err::<Board, FenParseError>(FenParseError::Position)
                },
            },
    {
        let (pieces, e) = match read_placement(b) {
            Some(found) => found,
            None => {
                return Err(FenParseError::Placement);
            },
        };
        if !(e < b.len() && e + 1 < b.len() && (b[e + 1] == 'w' as u8 || b[e + 1] == 'b' as u8) && e
            + 2 < b.len() && b[e + 2] == ' ' as u8) {
            return Err(FenParseError::SideToMove);
        }
        let side = if b[e + 1] == 'w' as u8 {
            Colour::White
        } else {
            Colour::Black
        };
        let (castle_perm, c) = match read_castling(b, e + 3) {
            Some(found) => found,
            None => {
                return Err(FenParseError::Castling);
            },
        };
        if c >= b.len() {
            return Err(FenParseError::EnPassant);
        }
        let ep_sq = match read_en_passant(b, c + 1) {
            Some(found) => found,
            None => {
                return Err(FenParseError::EnPassant);
            },
        };
        match Board::from_pieces(pieces, side, castle_perm, ep_sq, params) {
            Some(board) => Ok(board),
            None => Err(FenParseError::Position),
        }
    }

    /// The position that `fen` gives in Forsyth-Edwards notation, with the
    /// constants that the evaluation starts with.
    pub fn from_fen(fen: &str) -> (r: Result<Board, FenParseError>)
        ensures
            match parse_fen(fen.spec_bytes()) {
                Err(e) => r == Err::<Board, FenParseError>(e),
                Ok(fields) => if valid_placement(fields.pieces) {
                    r matches Ok(board) && board.wf() && board.piece_array@ == fields.pieces
                        && board.side == fields.side && board.castle_perm == fields.castle_perm
                        && board.ep_sq == fields.ep_sq && board.eval_params
                        == Parameters::spec_default() && board.history@.len() == 0 && board.height
                        == 0
                } else {
                    r == Err::<Board, FenParseError>(FenParseError::Position)
                },
            },
    {
        Board::read_fen(fen.as_bytes(), Parameters::default())
    }

    /// The position in which a game begins, evaluated by `params`.
    pub fn startpos(params: Parameters) -> (board: Board)
        requires
            params.wf(),
        ensures
            board.wf(),
            board.piece_array@ == Seq::new(64, |s: int| startpos_piece(s)),
            board.side == Colour::White,
            board.castle_perm == 15,
            board.ep_sq == None::<u8>,
            board.eval_params == params,
            board.history@.len() == 0,
            board.height == 0,
    {
        let mut pieces: Vec<Piece> = Vec::new();
        let mut sq: u8 = 0;
        while sq < 64
            invariant
                sq <= 64,
                pieces@.len() == sq,
                forall|s: int| 0 <= s < sq ==> pieces@[s] == startpos_piece(s),
            decreases 64 - sq,
        {
            let r = sq / 8;
            let f = sq % 8;
            let piece = if r == 1 {
                Piece::WP
            } else if r == 6 {
                Piece::BP
            } else if r == 0 || r == 7 {
                let colour = if r == 0 {
                    Colour::White
                } else {
                    Colour::Black
                };
                let kind = if f == 0 || f == 7 {
                    PieceType::Rook
                } else if f == 1 || f == 6 {
                    PieceType::Knight
                } else if f == 2 || f == 5 {
                    PieceType::Bishop
                } else if f == 3 {
                    PieceType::Queen
                } else {
                    PieceType::King
                };
                Piece::new(colour, kind)
            } else {
                Piece::Empty
            };
            pieces.push(piece);
            sq += 1;
        }
        proof {
            assert(pieces@ =~= Seq::new(64, |s: int| startpos_piece(s)));
            assert(is_only(pieces@, Piece::WK, 4));
            assert(is_only(pieces@, Piece::BK, 60));
        }
        match Board::from_pieces(pieces, Colour::White, 15, None, params) {
            Some(board) => board,
            None => vstd::pervasive::unreached(),
        }
    }

    /// The square that two letters name: a file from `a` to `h` and a rank
    /// from `1` to `8`.
    pub open spec fn square_named(file: u8, rank: u8) -> Option<u8> {
        if 'a' as u8 <= file <= 'h' as u8 && '1' as u8 <= rank <= '8' as u8 {
            Some((8 * (rank - '1' as u8) + (file - 'a' as u8)) as u8)
        } else {
            None
        }
    }

    /// The kind of piece that a letter names for a promotion.
    pub open spec fn promotion_named(c: u8) -> Option<PieceType> {
        if c == 'n' as u8 {
            Some(PieceType::Knight)
        } else if c == 'b' as u8 {
            Some(PieceType::Bishop)
        } else if c == 'r' as u8 {
            Some(PieceType::Rook)
        } else if c == 'q' as u8 {
            Some(PieceType::Queen)
        } else {
            None
        }
    }

    /// The move of the side to move that the word `w` names, whether or not
    /// it leaves the king attacked. The word gives the square that the move
    /// leaves, the square that it goes to and, for a promotion, the letter of
    /// the piece. With four letters it names the move between the two
    /// squares that is no promotion; with five, the promotion to the piece
    /// named.
    pub open spec fn uci_move(&self, w: Seq<u8>) -> Result<Move, MoveParseError> {
        if w.len() != 4 && w.len() != 5 {
            Err(MoveParseError::InvalidLength)
        } else {
            match (Self::square_named(w[0], w[1]), Self::square_named(w[2], w[3])) {
                (None, _) => Err(MoveParseError::InvalidFromSquare),
                (_, None) => Err(MoveParseError::InvalidToSquare),
                (Some(from), Some(to)) => {
                    let found = self.moves_between(from, to);
                    if w.len() == 5 {
                        match Self::promotion_named(w[4]) {
                            None => Err(MoveParseError::InvalidPromotionPiece),
                            Some(kind) => if found.contains(Move::spec_promo(from, to, kind)) {
                                Ok(Move::spec_promo(from, to, kind))
                            } else {
                                Err(MoveParseError::IllegalMove)
                            },
                        }
                    } else if found.len() > 0 && !found[0].spec_is_promo() {
                        Ok(found[0])
                    } else {
                        Err(MoveParseError::IllegalMove)
                    }
                },
            }
        }
    }

    fn square_of(file: u8, rank: u8) -> (sq: Option<u8>)
        ensures
            sq == Self::square_named(file, rank),
            sq matches Some(s) ==> s < 64,
    {
        if 'a' as u8 <= file && file <= 'h' as u8 && '1' as u8 <= rank && rank <= '8' as u8 {
            Some(8 * (rank - '1' as u8) + (file - 'a' as u8))
        } else {
            None
        }
    }

    /// The move of the side to move that the word `w` names.
    pub fn parse_uci(&self, w: &Vec<u8>) -> (r: Result<Move, MoveParseError>)
        requires
            self.wf(),
        ensures
            r == self.uci_move(w@),
            r matches Ok(m) ==> self.pseudo_legal(m),
    {
        if w.len() != 4 && w.len() != 5 {
            return Err(MoveParseError::InvalidLength);
        }
        let from = match Self::square_of(w[0], w[1]) {
            Some(sq) => sq,
            None => {
                return Err(MoveParseError::InvalidFromSquare);
            },
        };
        let to = match Self::square_of(w[2], w[3]) {
            Some(sq) => sq,
            None => {
                return Err(MoveParseError::InvalidToSquare);
            },
        };
        let found = self.moves_from_to(from, to);
        proof {
            self.lemma_moves_between(from, to);
        }
        if w.len() == 5 {
            let c = w[4];
            let kind = if c == 'n' as u8 {
                PieceType::Knight
            } else if c == 'b' as u8 {
                PieceType::Bishop
            } else if c == 'r' as u8 {
                PieceType::Rook
            } else if c == 'q' as u8 {
                PieceType::Queen
            } else {
                return Err(MoveParseError::InvalidPromotionPiece);
            };
            let wanted = Move::new_with_promo(from, to, kind);
            let mut i: usize = 0;
            while i < found.len()
                invariant
                    i <= found@.len(),
                    found@ == self.moves_between(from, to),
                    self.uci_move(w@) == if found@.contains(wanted) {
                        Ok::<Move, MoveParseError>(wanted)
                    } else {
                        Err::<Move, MoveParseError>(MoveParseError::IllegalMove)
                    },
                    wanted == Move::spec_promo(from, to, kind),
                    wanted.spec_from() == from,
                    wanted.spec_to() == to,
                    forall|k: int| 0 <= k < i ==> found@[k] != wanted,
                decreases found@.len() - i,
            {
                if found[i] == wanted {
                    assert(found@.contains(wanted));
                    return Ok(wanted);
                }
                i += 1;
            }
            Err(MoveParseError::IllegalMove)
        } else if found.len() > 0 && !found[0].is_promo() {
            assert(found@.contains(found@[0]));
            Ok(found[0])
        } else {
            Err(MoveParseError::IllegalMove)
        }
    }
}

/// What stands on the square `s` when a game begins.
pub open spec fn startpos_piece(s: int) -> Piece {
    let r = s / 8;
    let f = s % 8;
    if r == 1 {
        Piece::WP
    } else if r == 6 {
        Piece::BP
    } else if r == 0 || r == 7 {
        let colour = if r == 0 {
            Colour::White
        } else {
            Colour::Black
        };
        let kind = if f == 0 || f == 7 {
            PieceType::Rook
        } else if f == 1 || f == 6 {
            PieceType::Knight
        } else if f == 2 || f == 5 {
            PieceType::Bishop
        } else if f == 3 {
            PieceType::Queen
        } else {
            PieceType::King
        };
        Piece::spec_new(colour, kind)
    } else {
        Piece::Empty
    }
}

impl Default for Board {
    /// The position in which a game begins.
    fn default() -> (board: Board)
        ensures
            board.wf(),
            board.piece_array@ == Seq::new(64, |s: int| startpos_piece(s)),
            board.side == Colour::White,
            board.castle_perm == 15,
            board.ep_sq == None::<u8>,
            board.eval_params == Parameters::spec_default(),
            board.history@.len() == 0,
            board.height == 0,
    {
        Board::startpos(Parameters::default())
    }
}

} // verus!
