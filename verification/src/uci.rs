use crate::board::evaluation::parameters::{
    param_index, param_index_of, param_limit, params_with, Parameters,
};
use crate::board::evaluation::score::trunc_div;
use crate::board::evaluation::{is_mate_score, IS_MATE_SCORE, MATE_SCORE};
use crate::board::validation::{parse_fen, startpos_piece};
use crate::board::{valid_placement, Board, Undo};
use crate::chessmove::Move;
use crate::definitions::{Depth, BLACK, WHITE};
use crate::errors::{FenParseError, MoveParseError};
use crate::piece::Colour;
use crate::searchinfo::{SearchInfo, SearchLimit};
use crate::text::{parse_i32, parse_i64, parse_in_range, parse_u64, split_words, word_is, words};
use vstd::prelude::*;
use vstd::string::{StringExecFns, StringSliceAdditionalSpecFns};

verus! {

/// The character of the digit `d`.
pub open spec fn digit_char(d: int) -> char {
    (d + '0' as int) as char
}

/// The digits of a number that is not negative, the highest first.
pub open spec fn digits(n: int) -> Seq<char>
    decreases n,
{
    if n < 10 {
        seq![digit_char(n)]
    } else {
        digits(n / 10).push(digit_char(n % 10))
    }
}

/// A number as it is written in base ten: a minus sign where it is negative,
/// and its digits without leading zeros.
pub open spec fn decimal(n: int) -> Seq<char> {
    if n < 0 {
        seq!['-'] + digits(-n)
    } else {
        digits(n)
    }
}

/// `i32::to_string` writes the number in base ten, with a minus sign where it
/// is negative and without leading zeros.
#[verifier::external_body]
fn decimal_text(n: i32) -> (text: String)
    ensures
        text@ == decimal(n as int),
{
    n.to_string()
}

/// What is said of a score to the program that runs the engine: for a score
/// that tells of a mate, `mate` and the number of moves to it, negative where
/// the side to move is mated; for another score, `cp` and the score in
/// centipawns.
pub open spec fn score_text(score: int) -> Seq<char> {
    if score >= IS_MATE_SCORE || -score >= IS_MATE_SCORE {
        let plies_to_mate = if score >= 0 {
            MATE_SCORE - score
        } else {
            MATE_SCORE + score
        };
        let moves_to_mate = trunc_div(plies_to_mate + 1, 2);
        if score > 0 {
            "mate "@ + decimal(moves_to_mate)
        } else {
            "mate -"@ + decimal(moves_to_mate)
        }
    } else {
        "cp "@ + decimal(score)
    }
}

/// Formats a score for the side `turn`, which is `WHITE` or `BLACK`.
pub fn format_score(score: i32, turn: u8) -> (text: String)
    requires
        turn == WHITE || turn == BLACK,
        i32::MIN < score,
    ensures
        text@ == score_text(score as int),
{
    if is_mate_score(score) {
        let magnitude = if score >= 0 {
            score
        } else {
            -score
        };
        let plies_to_mate = MATE_SCORE - magnitude;
        let moves_to_mate = (plies_to_mate + 1) / 2;
        let mut text = if score > 0 {
            String::from_str("mate ")
        } else {
            String::from_str("mate -")
        };
        text.append(decimal_text(moves_to_mate).as_str());
        text
    } else {
        let mut text = String::from_str("cp ");
        text.append(decimal_text(score).as_str());
        text
    }
}

/// Whether more than one line of play is asked for.
pub fn is_multipv(multi_pv: usize) -> (r: bool)
    ensures
        r == (multi_pv > 1),
{
    multi_pv > 1
}

/// Why a command was not carried out.
#[derive(Clone, Copy, PartialEq, Eq, Debug, Structural)]
pub enum UciError {
    /// The value of an option is no number.
    ParseOption,
    /// The text of a position is none.
    ParseFen(FenParseError),
    /// A word names no move.
    ParseMove(MoveParseError),
    /// The command ends before it is whole.
    UnexpectedCommandTermination,
    /// The command is not made as it should be.
    InvalidFormat,
    /// There is no such command.
    UnknownCommand,
}

/// The words `ws`, each followed by a space.
pub open spec fn join_words(ws: Seq<Seq<u8>>) -> Seq<u8>
    decreases ws.len(),
{
    if ws.len() == 0 {
        Seq::empty()
    } else {
        join_words(ws.drop_last()) + ws.last() + seq![' ' as u8]
    }
}

/// The place of the first word `moves` among the words `w` from `from` on,
/// and the number of the words where there is none.
pub open spec fn moves_word_at(w: Seq<Seq<u8>>, from: int) -> int
    decreases w.len() - from,
{
    if from < 0 || from >= w.len() {
        w.len() as int
    } else if w[from] == "moves".spec_bytes() {
        from
    } else {
        moves_word_at(w, from + 1)
    }
}

/// What the words of a `position` command ask for: the text of the position,
/// or none for the position in which a game begins, and the words of the
/// moves to play from it. The command reads `position startpos` or `position
/// fen` and the fields of a position, and then, where moves follow, `moves`
/// and the moves.
pub open spec fn position_request(w: Seq<Seq<u8>>) -> Result<
    (Option<Seq<u8>>, Seq<Seq<u8>>),
    UciError,
> {
    if w.len() == 0 {
        Err(UciError::UnexpectedCommandTermination)
    } else if w[0] != "position".spec_bytes() {
        Err(UciError::InvalidFormat)
    } else if w.len() == 1 {
        Err(UciError::UnexpectedCommandTermination)
    } else if w[1] == "startpos".spec_bytes() {
        if w.len() == 2 {
            Ok((None, Seq::empty()))
        } else if w[2] == "moves".spec_bytes() {
            Ok((None, w.subrange(3, w.len() as int)))
        } else {
            Err(UciError::InvalidFormat)
        }
    } else if w[1] != "fen".spec_bytes() {
        Err(UciError::InvalidFormat)
    } else {
        let k = moves_word_at(w, 2);
        let fen = join_words(w.subrange(2, k));
        if k >= w.len() {
            Ok((Some(fen), Seq::empty()))
        } else {
            Ok((Some(fen), w.subrange(k + 1, w.len() as int)))
        }
    }
}

impl Board {
    /// Whether `after` is this position with the move `m` made and the height
    /// set back to zero.
    #[verifier::opaque]
    pub open spec fn moved_at_root(&self, m: Move, after: &Board) -> bool {
        &&& after.wf()
        &&& after.piece_array@ == self.pieces_after(m)
        &&& after.side == self.side.spec_flip()
        &&& after.castle_perm == self.rights_after(m)
        &&& after.ep_sq == self.ep_after(m)
        &&& after.eval_params == self.eval_params
        &&& after.height == 0
        &&& after.history@ == self.history@.push(Undo { m, capture: self.captured_by(m) })
    }

    /// Why the move that the word `w` names cannot be played, where it cannot:
    /// the word names no move, or the move leaves the king attacked.
    #[verifier::opaque]
    pub open spec fn step_error(&self, w: Seq<u8>) -> Option<MoveParseError> {
        match self.uci_move(w) {
            Err(e) => Some(e),
            Ok(m) => if self.allows(m) {
                None
            } else {
                Some(MoveParseError::IllegalMove)
            },
        }
    }

    /// Whether this is the position that a `position` command starts from: the
    /// one in which a game begins where `source` is none, else the one that
    /// the text `source` gives; with the constants `params`, and with no move
    /// that led to it.
    pub open spec fn starts(&self, source: Option<Seq<u8>>, params: Parameters) -> bool {
        &&& self.wf()
        &&& self.eval_params == params
        &&& self.history@.len() == 0
        &&& self.height == 0
        &&& match source {
            None => self.piece_array@ == Seq::new(64, |s: int| startpos_piece(s)) && self.side
                == Colour::White && self.castle_perm == 15 && self.ep_sq == None::<u8>,
            Some(fen) => parse_fen(fen) matches Ok(fields) && self.piece_array@ == fields.pieces
                && self.side == fields.side && self.castle_perm == fields.castle_perm
                && self.ep_sq == fields.ep_sq,
        }
    }
}

/// Whether `trail` holds the positions that are gone through when the moves
/// that the words `moves` name are played one after the other: after each
/// position the one that is reached when the move that the next word names is
/// played.
pub open spec fn follows(moves: Seq<Seq<u8>>, trail: Seq<Board>) -> bool {
    &&& trail.len() == moves.len() + 1
    &&& forall|i: int|
        0 <= i < moves.len() ==> (#[trigger] trail[i]).step_error(moves[i]) is None
            && trail[i].moved_at_root(trail[i].uci_move(moves[i])->Ok_0, &trail[i + 1])
}

/// Whether `trail` holds the positions that a `position` command goes
/// through: first the one that it starts from, and then those that follow as
/// its moves are played.
pub open spec fn reaches(
    source: Option<Seq<u8>>,
    params: Parameters,
    moves: Seq<Seq<u8>>,
    trail: Seq<Board>,
) -> bool {
    follows(moves, trail) && trail[0].starts(source, params)
}

/// Plays on `board` the moves that the words of `parts` from `first` on name,
/// up to the first that cannot be played.
fn play_words(board: &mut Board, parts: &Vec<Vec<u8>>, first: usize) -> (r: Result<
    (),
    MoveParseError,
>)
    requires
        old(board).wf(),
        old(board).height == 0,
        first <= parts@.len(),
    ensures
        final(board).wf(),
        final(board).eval_params == old(board).eval_params,
        ({
            let moves = Seq::new((parts@.len() - first) as nat, |k: int| parts@[first + k]@);
            match r {
                Ok(_) => exists|trail: Seq<Board>| #[trigger]
                    follows(moves, trail) && trail[0] == *old(board) && trail.last() == *final(board),
                Err(e) => exists|trail: Seq<Board>, i: int| #[trigger]
                    follows(moves.take(i), trail) && trail[0] == *old(board) && 0 <= i
                        < moves.len() && trail.last().step_error(moves[i]) == Some(e),
            }
        }),
{
    let ghost moves = Seq::new((parts@.len() - first) as nat, |k: int| parts@[first + k]@);
    let ghost mut trail: Seq<Board> = seq![*board];
    let mut i: usize = first;
    assert(moves.take(0) =~= Seq::empty());
    while i < parts.len()
        invariant
            first <= i <= parts@.len(),
            moves == Seq::new((parts@.len() - first) as nat, |k: int| parts@[first + k]@),
            board.wf(),
            board.height == 0,
            board.eval_params == old(board).eval_params,
            follows(moves.take(i - first), trail),
            trail[0] == *old(board),
            trail.last() == *board,
        decreases parts@.len() - i,
    {
        let ghost mid = *board;
        let ghost n = i - first;
        assert(parts@[i as int]@ == moves[n]);
        let found = board.parse_uci(&parts[i]);
        let m = match found {
            Ok(m) => m,
            Err(e) => {
                assert(mid.step_error(moves[n]) == Some(e)) by {
                    reveal(Board::step_error);
                }
                assert(follows(moves.take(n), trail) && trail.last().step_error(moves[n]) == Some(e));
                return Err(e);
            },
        };
        let made = board.make_move(m);
        if !made {
            assert(mid.step_error(moves[n]) == Some(MoveParseError::IllegalMove)) by {
                reveal(Board::step_error);
            }
            assert(follows(moves.take(n), trail) && trail.last().step_error(moves[n]) == Some(
                MoveParseError::IllegalMove,
            ));
            return Err(MoveParseError::IllegalMove);
        }
        board.height = 0;
        assert(mid.step_error(moves[n]) is None && mid.uci_move(moves[n]) == Ok::<
            Move,
            MoveParseError,
        >(m)) by {
            reveal(Board::step_error);
        }
        assert(mid.moved_at_root(m, board)) by {
            reveal(Board::moved_at_root);
        }
        proof {
            let longer = moves.take(n + 1);
            let before = trail;
            trail = trail.push(*board);
            assert forall|j: int| 0 <= j < longer.len() implies (#[trigger] trail[j]).step_error(
                longer[j],
            ) is None && trail[j].moved_at_root(trail[j].uci_move(longer[j])->Ok_0, &trail[j + 1]) by {
                if j < n {
                    assert(before[j].step_error(moves.take(n)[j]) is None);
                    assert(trail[j] == before[j] && trail[j + 1] == before[j + 1]);
                } else {
                    assert(trail[j] == mid);
                }
            }
        }
        i += 1;
    }
    assert(moves.take(i - first) =~= moves);
    Ok(())
}

/// Why the text `fen` gives no position that can be played, where it gives
/// none.
pub open spec fn fen_error(fen: Seq<u8>) -> Option<FenParseError> {
    match parse_fen(fen) {
        Err(e) => Some(e),
        Ok(fields) => if valid_placement(fields.pieces) {
            None
        } else {
            Some(FenParseError::Position)
        },
    }
}

/// The position that a `position` command starts from, and the place of the
/// first word that names a move.
fn start_of_position(parts: &Vec<Vec<u8>>, params: Parameters) -> (r: Result<
    (Board, usize),
    UciError,
>)
    requires
        params.wf(),
    ensures
        ({
            let w = Seq::new(parts@.len(), |k: int| parts@[k]@);
            match position_request(w) {
                Err(e) => r == Err::<(Board, usize), UciError>(e),
                Ok((source, moves)) => match r {
                    Ok((board, first)) => board.starts(source, params) && first <= w.len() && moves
                        == w.subrange(first as int, w.len() as int),
                    Err(UciError::ParseFen(e)) => source matches Some(fen) && fen_error(fen)
                        == Some(e),
                    Err(_) => false,
                },
            }
        }),
{
    let ghost w = Seq::new(parts@.len(), |k: int| parts@[k]@);
    if parts.len() == 0 {
        return Err(UciError::UnexpectedCommandTermination);
    }
    assert(parts@[0]@ == w[0]);
    if !word_is(&parts[0], "position") {
        return Err(UciError::InvalidFormat);
    }
    if parts.len() == 1 {
        return Err(UciError::UnexpectedCommandTermination);
    }
    assert(parts@[1]@ == w[1]);
    let first_move: usize;
    let mut board: Board;
    let ghost source: Option<Seq<u8>>;
    if word_is(&parts[1], "startpos") {
        if parts.len() > 2 {
            assert(parts@[2]@ == w[2]);
            if !word_is(&parts[2], "moves") {
                return Err(UciError::InvalidFormat);
            }
            first_move = 3;
        } else {
            first_move = 2;
        }
        board = Board::startpos(params);
        proof {
            source = None;
        }
    } else {
        if !word_is(&parts[1], "fen") {
            return Err(UciError::InvalidFormat);
        }
        let mut fen: Vec<u8> = Vec::new();
        let mut k: usize = 2;
        let mut found = false;
        while k < parts.len() && !found
            invariant
                2 <= k <= parts@.len(),
                parts@.len() == w.len(),
                forall|j: int| 0 <= j < parts@.len() ==> (#[trigger] parts@[j])@ == w[j],
                moves_word_at(w, 2) == moves_word_at(w, k as int),
                fen@ == join_words(w.subrange(2, k as int)),
                found ==> k < parts@.len() && w[k as int] == "moves".spec_bytes(),
            decreases parts@.len() - k + if found { 0int } else { 1int },
        {
            assert(parts@[k as int]@ == w[k as int]);
            if word_is(&parts[k], "moves") {
                found = true;
                continue ;
            }
            let word = &parts[k];
            let ghost head = fen@;
            let mut j: usize = 0;
            while j < word.len()
                invariant
                    j <= word@.len(),
                    fen@ == head + word@.subrange(0, j as int),
                decreases word@.len() - j,
            {
                fen.push(word[j]);
                assert(word@.subrange(0, j + 1) =~= word@.subrange(0, j as int).push(word@[j as int]));
                j += 1;
            }
            fen.push(' ' as u8);
            proof {
                assert(word@.subrange(0, j as int) =~= word@);
                let longer = w.subrange(2, k + 1);
                assert(longer.drop_last() =~= w.subrange(2, k as int));
                assert(longer.last() == word@);
                assert(fen@ =~= join_words(longer));
            }
            k += 1;
        }
        assert(k == moves_word_at(w, 2));
        first_move = if k < parts.len() {
            k + 1
        } else {
            k
        };
        board = match Board::read_fen(fen.as_slice(), params) {
            Ok(b) => b,
            Err(e) => {
                assert(position_request(w) matches Ok((source, _)) && source == Some(fen@));
                return Err(UciError::ParseFen(e));
            },
        };
        proof {
            source = Some(fen@);
        }
    }
    let ghost moves = w.subrange(first_move as int, w.len() as int);
    assert(position_request(w) == Ok::<(Option<Seq<u8>>, Seq<Seq<u8>>), UciError>((source, moves)))
        by {
        if first_move == w.len() {
            assert(moves =~= Seq::empty());
        }
    }
    Ok((board, first_move))
}

/// Carries out a `position` command: sets `pos` to the position that the
/// command names, with the moves played that it lists, and leaves the
/// constants of the evaluation as they are. Where the command cannot be
/// carried out, `pos` stays as it is.
pub fn parse_position(text: &str, pos: &mut Board) -> (r: Result<(), UciError>)
    requires
        old(pos).wf(),
    ensures
        final(pos).wf(),
        final(pos).eval_params == old(pos).eval_params,
        r is Err ==> *final(pos) == *old(pos),
        match position_request(words(text.spec_bytes())) {
            Err(e) => r == Err::<(), UciError>(e),
            Ok((source, moves)) => match r {
                Ok(_) => exists|trail: Seq<Board>| #[trigger]
                    reaches(source, old(pos).eval_params, moves, trail) && trail.last() == *final(pos),
                Err(UciError::ParseFen(e)) => source matches Some(fen) && fen_error(fen) == Some(e),
                Err(UciError::ParseMove(e)) => exists|trail: Seq<Board>, i: int| #[trigger]
                    reaches(source, old(pos).eval_params, moves.take(i), trail) && 0 <= i
                        < moves.len() && trail.last().step_error(moves[i]) == Some(e),
                Err(_) => false,
            },
        },
{
    let parts = split_words(text.as_bytes());
    let ghost w = words(text.spec_bytes());
    assert(w =~= Seq::new(parts@.len(), |k: int| parts@[k]@));
    let (mut board, first_move) = match start_of_position(&parts, pos.eval_params) {
        Ok(found) => found,
        Err(e) => {
            return Err(e);
        },
    };
    let ghost source = position_request(w)->Ok_0.0;
    let ghost moves = w.subrange(first_move as int, w.len() as int);
    assert(moves =~= Seq::new((parts@.len() - first_move) as nat, |k: int| parts@[first_move + k]@));
    let ghost start = board;
    assert(start.starts(source, old(pos).eval_params));
    let played = play_words(&mut board, &parts, first_move);
    match played {
        Ok(_) => {
            proof {
                let trail = choose|trail: Seq<Board>| #[trigger]
                    follows(moves, trail) && trail[0] == start && trail.last() == board;
                assert(reaches(source, old(pos).eval_params, moves, trail) && trail.last()
                    == board);
            }
            *pos = board;
            Ok(())
        },
        Err(e) => {
            proof {
                let (trail, i) = choose|trail: Seq<Board>, i: int| #[trigger]
                    follows(moves.take(i), trail) && trail[0] == start && 0 <= i < moves.len()
                        && trail.last().step_error(moves[i]) == Some(e);
                assert(reaches(source, old(pos).eval_params, moves.take(i), trail) && 0 <= i
                    < moves.len() && trail.last().step_error(moves[i]) == Some(e));
            }
            Err(UciError::ParseMove(e))
        },
    }
}

/// What a `go` command says.
#[derive(Clone, Copy, PartialEq, Eq, Debug)]
pub struct GoFields {
    /// The depth to search to.
    pub depth: Option<i32>,
    /// The number of moves to the next time control.
    pub moves_to_go: Option<u64>,
    /// The time to spend on the move, in milliseconds.
    pub movetime: Option<u64>,
    /// What is left on the clock of the side to move, in milliseconds.
    pub our_clock: Option<i64>,
    /// What is left on the clock of the other side.
    pub their_clock: Option<i64>,
    /// What the side to move gets with every move, in milliseconds.
    pub our_inc: Option<i64>,
    /// What the other side gets with every move.
    pub their_inc: Option<i64>,
    /// The number of positions to look at.
    pub nodes: Option<u64>,
    /// Whether the search is to go on until it is stopped.
    pub infinite: bool,
}

/// What a `go` command says before its first word is read.
pub open spec fn no_go_fields() -> GoFields {
    GoFields {
        depth: None,
        moves_to_go: None,
        movetime: None,
        our_clock: None,
        their_clock: None,
        our_inc: None,
        their_inc: None,
        nodes: None,
        infinite: false,
    }
}

/// The number that the word of `w` at `i` writes, where there is such a word
/// and it writes a number from `min` to `max`.
pub open spec fn number_at(w: Seq<Seq<u8>>, i: int, min: int, max: int) -> Option<int> {
    if 0 <= i < w.len() {
        parse_in_range(w[i], min, max)
    } else {
        None
    }
}

/// What the words of `w` from `i` on add to `acc`, and whether all of them
/// could be read. `infinite` stands alone; each of `depth`, `movestogo`,
/// `movetime`, `wtime`, `btime`, `winc`, `binc` and `nodes` is followed by a
/// number. The clock and the increment of White are those of the side to
/// move where `white` is to move. Reading ends at the first word that is
/// none of these or lacks its number.
pub open spec fn go_fields(w: Seq<Seq<u8>>, i: int, white: bool, acc: GoFields) -> (GoFields, bool)
    decreases w.len() - i,
{
    if i < 0 || i >= w.len() {
        (acc, true)
    } else if w[i] == "infinite".spec_bytes() {
        go_fields(w, i + 1, white, GoFields { infinite: true, ..acc })
    } else if w[i] == "depth".spec_bytes() {
        match number_at(w, i + 1, i32::MIN as int, i32::MAX as int) {
            Some(v) => go_fields(w, i + 2, white, GoFields { depth: Some(v as i32), ..acc }),
            None => (acc, false),
        }
    } else if w[i] == "movestogo".spec_bytes() {
        match number_at(w, i + 1, 0, u64::MAX as int) {
            Some(v) => go_fields(w, i + 2, white, GoFields { moves_to_go: Some(v as u64), ..acc }),
            None => (acc, false),
        }
    } else if w[i] == "movetime".spec_bytes() {
        match number_at(w, i + 1, 0, u64::MAX as int) {
            Some(v) => go_fields(w, i + 2, white, GoFields { movetime: Some(v as u64), ..acc }),
            None => (acc, false),
        }
    } else if w[i] == "nodes".spec_bytes() {
        match number_at(w, i + 1, 0, u64::MAX as int) {
            Some(v) => go_fields(w, i + 2, white, GoFields { nodes: Some(v as u64), ..acc }),
            None => (acc, false),
        }
    } else if w[i] == "wtime".spec_bytes() || w[i] == "btime".spec_bytes() {
        match number_at(w, i + 1, i64::MIN as int, i64::MAX as int) {
            Some(v) => if (w[i] == "wtime".spec_bytes()) == white {
                go_fields(w, i + 2, white, GoFields { our_clock: Some(v as i64), ..acc })
            } else {
                go_fields(w, i + 2, white, GoFields { their_clock: Some(v as i64), ..acc })
            },
            None => (acc, false),
        }
    } else if w[i] == "winc".spec_bytes() || w[i] == "binc".spec_bytes() {
        match number_at(w, i + 1, i64::MIN as int, i64::MAX as int) {
            Some(v) => if (w[i] == "winc".spec_bytes()) == white {
                go_fields(w, i + 2, white, GoFields { our_inc: Some(v as i64), ..acc })
            } else {
                go_fields(w, i + 2, white, GoFields { their_inc: Some(v as i64), ..acc })
            },
            None => (acc, false),
        }
    } else {
        (acc, false)
    }
}

/// A time on a clock as a number of milliseconds: nothing for a negative one.
pub open spec fn clock_value(v: i64) -> u64 {
    if v < 0 {
        0
    } else {
        v as u64
    }
}

/// The limit that a `go` command with the fields `f` sets where no clock is
/// given, `before` being the limit that was set before: the time for the
/// move where it is given, else the depth, else the number of positions;
/// and with none of these, no limit where the command says `infinite`, else
/// the limit that was set.
pub open spec fn plain_limit(f: GoFields, before: SearchLimit) -> SearchLimit {
    match (f.movetime, f.depth, f.nodes) {
        (Some(t), _, _) => SearchLimit::Time(t),
        (None, Some(d), _) => SearchLimit::Depth(Depth::spec_new(d)),
        (None, None, Some(n)) => SearchLimit::Nodes(n),
        (None, None, None) => if f.infinite {
            SearchLimit::Infinite
        } else {
            before
        },
    }
}

/// What a `go` command with the words `w` does to the limit `before`, with
/// `white` to move: the limit that is set after it, and whether the command
/// was carried out. Where both clocks are given, the limit is that of the
/// clocks; where a clock or an increment is given but not both clocks, the
/// command is not carried out.
pub open spec fn go_outcome(w: Seq<Seq<u8>>, white: bool, before: SearchLimit) -> (
    SearchLimit,
    Result<(), UciError>,
) {
    if w.len() == 0 {
        (before, Err(UciError::UnexpectedCommandTermination))
    } else if w[0] != "go".spec_bytes() {
        (before, Err(UciError::InvalidFormat))
    } else {
        let (f, whole) = go_fields(w, 1, white, no_go_fields());
        if !whole {
            (
                if f.infinite {
                    SearchLimit::Infinite
                } else {
                    before
                },
                Err(UciError::InvalidFormat),
            )
        } else {
            match (f.our_clock, f.their_clock) {
                (Some(ours), Some(theirs)) => (
                    SearchLimit::Dynamic {
                        our_clock: clock_value(ours),
                        their_clock: clock_value(theirs),
                        our_inc: match f.our_inc {
                            Some(v) => clock_value(v),
                            None => 0,
                        },
                        their_inc: match f.their_inc {
                            Some(v) => clock_value(v),
                            None => 0,
                        },
                        moves_to_go: f.moves_to_go,
                    },
                    Ok(()),
                ),
                _ => if f.our_clock is Some || f.their_clock is Some || f.our_inc is Some
                    || f.their_inc is Some {
                    (plain_limit(f, before), Err(UciError::InvalidFormat))
                } else {
                    (plain_limit(f, before), Ok(()))
                },
            }
        }
    }
}

fn clock_of(v: i64) -> (r: u64)
    ensures
        r == clock_value(v),
{
    if v < 0 {
        0
    } else {
        v as u64
    }
}

/// The number that the word of `parts` at `i` writes, as a `u64`.
fn part_parse_u64(parts: &Vec<Vec<u8>>, i: usize) -> (r: Option<u64>)
    ensures
        match number_at(Seq::new(parts@.len(), |k: int| parts@[k]@), i as int, 0, u64::MAX as int) {
            Some(v) => r == Some(v as u64),
            None => r is None,
        },
{
    if i < parts.len() {
        parse_u64(&parts[i])
    } else {
        None
    }
}

/// The number that the word of `parts` at `i` writes, as an `i64`.
fn part_parse_i64(parts: &Vec<Vec<u8>>, i: usize) -> (r: Option<i64>)
    ensures
        match number_at(
            Seq::new(parts@.len(), |k: int| parts@[k]@),
            i as int,
            i64::MIN as int,
            i64::MAX as int,
        ) {
            Some(v) => r == Some(v as i64),
            None => r is None,
        },
{
    if i < parts.len() {
        parse_i64(&parts[i])
    } else {
        None
    }
}

/// The number that the word of `parts` at `i` writes, as an `i32`.
fn part_parse_i32(parts: &Vec<Vec<u8>>, i: usize) -> (r: Option<i32>)
    ensures
        match number_at(
            Seq::new(parts@.len(), |k: int| parts@[k]@),
            i as int,
            i32::MIN as int,
            i32::MAX as int,
        ) {
            Some(v) => r == Some(v as i32),
            None => r is None,
        },
{
    if i < parts.len() {
        parse_i32(&parts[i])
    } else {
        None
    }
}

/// Reads the fields of a `go` command from the words of `parts` after the
/// first.
fn read_go_fields(parts: &Vec<Vec<u8>>, white: bool) -> (r: (GoFields, bool))
    requires
        parts@.len() > 0,
    ensures
        r == go_fields(Seq::new(parts@.len(), |k: int| parts@[k]@), 1, white, no_go_fields()),
{
    let ghost w = Seq::new(parts@.len(), |k: int| parts@[k]@);
    let mut f = GoFields {
        depth: None,
        moves_to_go: None,
        movetime: None,
        our_clock: None,
        their_clock: None,
        our_inc: None,
        their_inc: None,
        nodes: None,
        infinite: false,
    };
    let mut i: usize = 1;
    while i < parts.len()
        invariant
            1 <= i,
            w == Seq::new(parts@.len(), |k: int| parts@[k]@),
            go_fields(w, 1, white, no_go_fields()) == go_fields(w, i as int, white, f),
        decreases parts@.len() - i,
    {
        let part = &parts[i];
        assert(part@ == w[i as int]);
        if word_is(part, "infinite") {
            f.infinite = true;
            i += 1;
        } else if word_is(part, "depth") {
            match part_parse_i32(parts, i + 1) {
                Some(v) => {
                    f.depth = Some(v);
                },
                None => {
                    return (f, false);
                },
            }
            i += 2;
        } else if word_is(part, "movestogo") {
            match part_parse_u64(parts, i + 1) {
                Some(v) => {
                    f.moves_to_go = Some(v);
                },
                None => {
                    return (f, false);
                },
            }
            i += 2;
        } else if word_is(part, "movetime") {
            match part_parse_u64(parts, i + 1) {
                Some(v) => {
                    f.movetime = Some(v);
                },
                None => {
                    return (f, false);
                },
            }
            i += 2;
        } else if word_is(part, "nodes") {
            match part_parse_u64(parts, i + 1) {
                Some(v) => {
                    f.nodes = Some(v);
                },
                None => {
                    return (f, false);
                },
            }
            i += 2;
        } else if word_is(part, "wtime") || word_is(part, "btime") {
            let is_white = word_is(part, "wtime");
            match part_parse_i64(parts, i + 1) {
                Some(v) => {
                    if is_white == white {
                        f.our_clock = Some(v);
                    } else {
                        f.their_clock = Some(v);
                    }
                },
                None => {
                    return (f, false);
                },
            }
            i += 2;
        } else if word_is(part, "winc") || word_is(part, "binc") {
            let is_white = word_is(part, "winc");
            match part_parse_i64(parts, i + 1) {
                Some(v) => {
                    if is_white == white {
                        f.our_inc = Some(v);
                    } else {
                        f.their_inc = Some(v);
                    }
                },
                None => {
                    return (f, false);
                },
            }
            i += 2;
        } else {
            return (f, false);
        }
    }
    (f, true)
}

/// Carries out a `go` command: sets the limit of `info` as the command says,
/// for the side that is to move in `pos`.
pub fn parse_go(text: &str, info: &mut SearchInfo, pos: &Board) -> (r: Result<(), UciError>)
    ensures
        (final(info).limit, r) == go_outcome(
            words(text.spec_bytes()),
            pos.side == Colour::White,
            old(info).limit,
        ),
        final(info).quit == old(info).quit,
{
    let parts = split_words(text.as_bytes());
    let ghost w = words(text.spec_bytes());
    assert(w =~= Seq::new(parts@.len(), |k: int| parts@[k]@));
    if parts.len() == 0 {
        return Err(UciError::UnexpectedCommandTermination);
    }
    assert(parts@[0]@ == w[0]);
    if !word_is(&parts[0], "go") {
        return Err(UciError::InvalidFormat);
    }
    let white = match pos.side {
        Colour::White => true,
        Colour::Black => false,
    };
    let (f, whole) = read_go_fields(&parts, white);
    if f.infinite {
        info.limit = SearchLimit::Infinite;
    }
    if !whole {
        return Err(UciError::InvalidFormat);
    }
    match f.movetime {
        Some(movetime) => {
            info.limit = SearchLimit::Time(movetime);
        },
        None => match f.depth {
            Some(depth) => {
                info.limit = SearchLimit::Depth(Depth::new(depth));
            },
            None => match f.nodes {
                Some(nodes) => {
                    info.limit = SearchLimit::Nodes(nodes);
                },
                None => {},
            },
        },
    }
    match (f.our_clock, f.their_clock) {
        (Some(our_clock), Some(their_clock)) => {
            let our_inc = match f.our_inc {
                Some(v) => clock_of(v),
                None => 0,
            };
            let their_inc = match f.their_inc {
                Some(v) => clock_of(v),
                None => 0,
            };
            info.limit = SearchLimit::Dynamic {
                our_clock: clock_of(our_clock),
                their_clock: clock_of(their_clock),
                our_inc,
                their_inc,
                moves_to_go: f.moves_to_go,
            };
            Ok(())
        },
        _ => {
            if f.our_clock.is_some() || f.their_clock.is_some() || f.our_inc.is_some()
                || f.their_inc.is_some() {
                Err(UciError::InvalidFormat)
            } else {
                Ok(())
            }
        },
    }
}

/// The options that `setoption` commands have set.
#[derive(Clone, Copy, PartialEq, Eq, Debug)]
pub struct SetOptions {
    /// The constants of the evaluation.
    pub eval_params: Parameters,
    /// The size of the hash table, in megabytes.
    pub hash_mb: Option<usize>,
    /// The number of search workers.
    pub threads: Option<usize>,
    /// The number of lines of play to search.
    pub multi_pv: Option<usize>,
}

/// The greatest value that an option may be given: 8192 megabytes of hash,
/// 512 workers and 500 lines of play; and none for an option that is not
/// known.
pub open spec fn option_max(name: Seq<u8>) -> Option<int> {
    if name == "Hash".spec_bytes() {
        Some(8192)
    } else if name == "Threads".spec_bytes() {
        Some(512)
    } else if name == "MultiPV".spec_bytes() {
        Some(500)
    } else {
        None
    }
}

/// Whether the words `w` are made as a `setoption` command must be: the
/// second word, where there is one, is `name`; after the name of the option
/// comes `value`; and the value of a known option, where it is a number,
/// lies between one and the greatest that the option may be given.
pub open spec fn setoption_accepted(w: Seq<Seq<u8>>) -> bool {
    &&& w.len() >= 1
    &&& w.len() >= 2 ==> w[1] == "name".spec_bytes()
    &&& w.len() >= 3 ==> w.len() >= 4 && w[3] == "value".spec_bytes()
    &&& w.len() >= 5 ==> match (option_max(w[2]), parse_in_range(w[4], 0, usize::MAX as int)) {
        (Some(max), Some(v)) => param_index_of(w[2]) is Some || 1 <= v <= max,
        _ => true,
    }
}

/// Whether `r` is what a `setoption` command with the words `w` makes of the
/// options `pre`. Where the command names a constant of the evaluation, the
/// constant is set to the number that it gives, which is within the limit
/// of the constant. Else the option that it names is set to the number that
/// it gives; an option that is not known is passed over.
pub open spec fn setoption_outcome(
    w: Seq<Seq<u8>>,
    pre: SetOptions,
    r: Result<SetOptions, UciError>,
) -> bool {
    if w.len() < 5 {
        r == Err::<SetOptions, UciError>(UciError::UnexpectedCommandTermination)
    } else {
        match param_index_of(w[2]) {
            Some(k) => match parse_in_range(w[4], i32::MIN as int, i32::MAX as int) {
                Some(v) => if -param_limit(k) <= v <= param_limit(k) {
                    r matches Ok(out) && out.eval_params.wf() && params_with(
                        pre.eval_params,
                        out.eval_params,
                        k,
                        v,
                    ) && out.hash_mb == pre.hash_mb && out.threads == pre.threads && out.multi_pv
                        == pre.multi_pv
                } else {
                    r == Err::<SetOptions, UciError>(UciError::InvalidFormat)
                },
                None => r == Err::<SetOptions, UciError>(UciError::InvalidFormat),
            },
            None => if option_max(w[2]) is None {
                r == Ok::<SetOptions, UciError>(pre)
            } else {
                match parse_in_range(w[4], 0, usize::MAX as int) {
                    None => r == Err::<SetOptions, UciError>(UciError::ParseOption),
                    Some(v) => if w[2] == "Hash".spec_bytes() {
                        r == Ok::<SetOptions, UciError>(
                            (SetOptions { hash_mb: Some(v as usize), ..pre }),
                        )
                    } else if w[2] == "Threads".spec_bytes() {
                        r == Ok::<SetOptions, UciError>(
                            (SetOptions { threads: Some(v as usize), ..pre }),
                        )
                    } else {
                        r == Ok::<SetOptions, UciError>(
                            (SetOptions { multi_pv: Some(v as usize), ..pre }),
                        )
                    },
                }
            },
        }
    }
}

/// The number that `word` writes, as `usize::from_str` reads it.
fn parse_usize(word: &Vec<u8>) -> (r: Option<usize>)
    ensures
        match parse_in_range(word@, 0, usize::MAX as int) {
            Some(v) => r == Some(v as usize),
            None => r is None,
        },
{
    match parse_u64(word) {
        Some(v) => if v > usize::MAX as u64 {
            None
        } else {
            Some(v as usize)
        },
        None => None,
    }
}

/// The greatest value that the option `name` may be given.
fn option_max_of(name: &Vec<u8>) -> (r: Option<usize>)
    ensures
        match option_max(name@) {
            Some(max) => r == Some(max as usize),
            None => r is None,
        },
{
    if word_is(name, "Hash") {
        Some(8192)
    } else if word_is(name, "Threads") {
        Some(512)
    } else if word_is(name, "MultiPV") {
        Some(500)
    } else {
        None
    }
}

/// Whether `text` is made as a `setoption` command must be.
pub fn setoption_is_accepted(text: &str) -> (r: bool)
    ensures
        r == setoption_accepted(words(text.spec_bytes())),
{
    let parts = split_words(text.as_bytes());
    let ghost w = words(text.spec_bytes());
    assert(w =~= Seq::new(parts@.len(), |k: int| parts@[k]@));
    if parts.len() < 1 {
        return false;
    }
    if parts.len() >= 2 {
        assert(parts@[1]@ == w[1]);
        if !word_is(&parts[1], "name") {
            return false;
        }
    }
    if parts.len() >= 3 {
        if parts.len() < 4 {
            return false;
        }
        assert(parts@[3]@ == w[3]);
        if !word_is(&parts[3], "value") {
            return false;
        }
    }
    if parts.len() >= 5 {
        assert(parts@[2]@ == w[2]);
        assert(parts@[4]@ == w[4]);
        match (option_max_of(&parts[2]), parse_usize(&parts[4])) {
            (Some(max), Some(v)) => {
                return param_index(&parts[2]).is_some() || (1 <= v && v <= max);
            },
            _ => {},
        }
    }
    true
}

/// Carries out a `setoption` command that is made as it must be.
pub fn parse_setoption(text: &str, pre_config: SetOptions) -> (r: Result<SetOptions, UciError>)
    requires
        setoption_accepted(words(text.spec_bytes())),
        pre_config.eval_params.wf(),
    ensures
        setoption_outcome(words(text.spec_bytes()), pre_config, r),
{
    let parts = split_words(text.as_bytes());
    let ghost w = words(text.spec_bytes());
    assert(w =~= Seq::new(parts@.len(), |k: int| parts@[k]@));
    if parts.len() < 5 {
        return Err(UciError::UnexpectedCommandTermination);
    }
    let opt_name = &parts[2];
    let opt_value = &parts[4];
    assert(opt_name@ == w[2]);
    assert(opt_value@ == w[4]);
    let mut out = pre_config;
    match out.eval_params.set_from_text(opt_name, opt_value) {
        Ok(true) => {
            return Ok(out);
        },
        Ok(false) => {},
        Err(_) => {
            return Err(UciError::InvalidFormat);
        },
    }
    if word_is(opt_name, "Hash") {
        match parse_usize(opt_value) {
            Some(value) => {
                out.hash_mb = Some(value);
            },
            None => {
                return Err(UciError::ParseOption);
            },
        }
    } else if word_is(opt_name, "Threads") {
        match parse_usize(opt_value) {
            Some(value) => {
                out.threads = Some(value);
            },
            None => {
                return Err(UciError::ParseOption);
            },
        }
    } else if word_is(opt_name, "MultiPV") {
        match parse_usize(opt_value) {
            Some(value) => {
                out.multi_pv = Some(value);
            },
            None => {
                return Err(UciError::ParseOption);
            },
        }
    }
    Ok(out)
}

} // verus!
