use super::score::S;
use vstd::prelude::*;
use vstd::string::StringSliceAdditionalSpecFns;

verus! {

/// The greatest magnitude that either part of a score in the bundle may have.
pub const PARAM_LIMIT: i32 = 30_000;

/// The greatest magnitude that a coefficient of the king-danger polynomial may
/// have.
pub const COEFF_LIMIT: i32 = 10_000;

/// Every constant that the evaluation can be tuned by.
#[derive(Clone, Copy, Debug, PartialEq, Eq)]
pub struct Parameters {
    /// The value of a pawn, a knight, a bishop, a rook, a queen and a king.
    pub piece_values: [S; 6],
    /// The malus for a pawn with no pawn of its own colour on a neighbouring file.
    pub isolated_pawn_malus: S,
    /// The malus for pawns of one colour that share a file.
    pub doubled_pawn_malus: S,
    /// The bonus for holding two bishops.
    pub bishop_pair_bonus: S,
    /// The bonus for a rook on a file without pawns.
    pub rook_open_file_bonus: S,
    /// The bonus for a rook on a file without pawns of its own colour.
    pub rook_half_open_file_bonus: S,
    /// The bonus for a queen on a file without pawns.
    pub queen_open_file_bonus: S,
    /// The bonus for a queen on a file without pawns of its own colour.
    pub queen_half_open_file_bonus: S,
    /// The bonus for a knight by the number of safe squares it attacks.
    pub knight_mobility_bonus: [S; 9],
    /// The bonus for a bishop by the number of safe squares it attacks.
    pub bishop_mobility_bonus: [S; 14],
    /// The bonus for a rook by the number of safe squares it attacks.
    pub rook_mobility_bonus: [S; 15],
    /// The bonus for a queen by the number of safe squares it attacks.
    pub queen_mobility_bonus: [S; 28],
    /// The bonus for a passed pawn by the number of ranks it has advanced,
    /// less one.
    pub passed_pawn_bonus: [S; 6],
    /// The coefficients of the king-danger polynomial, highest power first.
    pub king_danger_coeffs: [i32; 3],
}

impl Parameters {
    /// Whether every constant of the bundle is within its limit.
    pub open spec fn wf(&self) -> bool {
        &&& forall|i: int| 0 <= i < 6 ==> (#[trigger] self.piece_values[i]).within(PARAM_LIMIT as int)
        &&& self.isolated_pawn_malus.within(PARAM_LIMIT as int)
        &&& self.doubled_pawn_malus.within(PARAM_LIMIT as int)
        &&& self.bishop_pair_bonus.within(PARAM_LIMIT as int)
        &&& self.rook_open_file_bonus.within(PARAM_LIMIT as int)
        &&& self.rook_half_open_file_bonus.within(PARAM_LIMIT as int)
        &&& self.queen_open_file_bonus.within(PARAM_LIMIT as int)
        &&& self.queen_half_open_file_bonus.within(PARAM_LIMIT as int)
        &&& forall|i: int|
            0 <= i < 9 ==> (#[trigger] self.knight_mobility_bonus[i]).within(PARAM_LIMIT as int)
        &&& forall|i: int|
            0 <= i < 14 ==> (#[trigger] self.bishop_mobility_bonus[i]).within(PARAM_LIMIT as int)
        &&& forall|i: int|
            0 <= i < 15 ==> (#[trigger] self.rook_mobility_bonus[i]).within(PARAM_LIMIT as int)
        &&& forall|i: int|
            0 <= i < 28 ==> (#[trigger] self.queen_mobility_bonus[i]).within(PARAM_LIMIT as int)
        &&& forall|i: int|
            0 <= i < 6 ==> (#[trigger] self.passed_pawn_bonus[i]).within(PARAM_LIMIT as int)
        &&& forall|i: int|
            0 <= i < 3 ==> -COEFF_LIMIT <= #[trigger] self.king_danger_coeffs[i] <= COEFF_LIMIT
    }

    /// Whether every constant of the bundle is within its limit.
    pub fn is_valid(&self) -> (r: bool)
        ensures
            r == self.wf(),
    {
        let mut ok = score_ok(self.isolated_pawn_malus) && score_ok(self.doubled_pawn_malus)
            && score_ok(self.bishop_pair_bonus) && score_ok(self.rook_open_file_bonus) && score_ok(
            self.rook_half_open_file_bonus,
        ) && score_ok(self.queen_open_file_bonus) && score_ok(self.queen_half_open_file_bonus);
        ok = ok && scores_ok(self.piece_values.as_slice());
        ok = ok && scores_ok(self.knight_mobility_bonus.as_slice());
        ok = ok && scores_ok(self.bishop_mobility_bonus.as_slice());
        ok = ok && scores_ok(self.rook_mobility_bonus.as_slice());
        ok = ok && scores_ok(self.queen_mobility_bonus.as_slice());
        ok = ok && scores_ok(self.passed_pawn_bonus.as_slice());
        let c = &self.king_danger_coeffs;
        ok = ok && -COEFF_LIMIT <= c[0] && c[0] <= COEFF_LIMIT;
        ok = ok && -COEFF_LIMIT <= c[1] && c[1] <= COEFF_LIMIT;
        ok = ok && -COEFF_LIMIT <= c[2] && c[2] <= COEFF_LIMIT;
        ok
    }
}

/// Whether both parts of `s` are within the limit of the bundle.
fn score_ok(s: S) -> (r: bool)
    ensures
        r == s.within(PARAM_LIMIT as int),
{
    -PARAM_LIMIT <= s.0 && s.0 <= PARAM_LIMIT && -PARAM_LIMIT <= s.1 && s.1 <= PARAM_LIMIT
}

/// Whether every score of `v` is within the limit of the bundle.
fn scores_ok(v: &[S]) -> (r: bool)
    ensures
        r == forall|i: int| 0 <= i < v.len() ==> (#[trigger] v[i]).within(PARAM_LIMIT as int),
{
    let mut i: usize = 0;
    while i < v.len()
        invariant
            i <= v.len(),
            forall|j: int| 0 <= j < i ==> (#[trigger] v[j]).within(PARAM_LIMIT as int),
        decreases v.len() - i,
    {
        if !score_ok(v[i]) {
            return false;
        }
        i += 1;
    }
    true
}

/// The score with the midgame part `mg` and the endgame part `eg`.
pub open spec fn sc(mg: int, eg: int) -> S {
    S(mg as i32, eg as i32)
}

impl Parameters {
    /// The constants that the evaluation starts with.
    pub open spec fn spec_default() -> Parameters {
        Parameters {
            piece_values: [sc(87, 155), sc(360, 343), sc(327, 336), sc(488, 546), sc(1087, 992), sc(0, 0)],
            isolated_pawn_malus: sc(19, 24),
            doubled_pawn_malus: sc(32, 23),
            bishop_pair_bonus: sc(60, 109),
            rook_open_file_bonus: sc(53, 0),
            rook_half_open_file_bonus: sc(29, 0),
            queen_open_file_bonus: sc(0, 0),
            queen_half_open_file_bonus: sc(10, 0),
            knight_mobility_bonus: [
                sc(-138, -155),
                sc(-62, -8),
                sc(-18, -18),
                sc(-12, 46),
                sc(-1, 65),
                sc(-3, 85),
                sc(13, 92),
                sc(32, 91),
                sc(45, 79),
            ],
            bishop_mobility_bonus: [
                sc(-24, -135),
                sc(-45, 17),
                sc(-1, -39),
                sc(4, 27),
                sc(21, 41),
                sc(34, 54),
                sc(45, 67),
                sc(55, 78),
                sc(61, 84),
                sc(69, 79),
                sc(76, 82),
                sc(100, 51),
                sc(122, 85),
                sc(97, 43),
            ],
            rook_mobility_bonus: [
                sc(-132, -156),
                sc(-73, -52),
                sc(-7, 9),
                sc(-8, 55),
                sc(-5, 118),
                sc(1, 116),
                sc(6, 136),
                sc(13, 145),
                sc(16, 151),
                sc(25, 157),
                sc(25, 169),
                sc(39, 173),
                sc(44, 172),
                sc(46, 170),
                sc(14, 197),
            ],
            queen_mobility_bonus: [
                sc(-29, -49),
                sc(-16, -29),
                sc(-84, -84),
                sc(42, 8),
                sc(15, -28),
                sc(50, -13),
                sc(51, 47),
                sc(52, 26),
                sc(49, 81),
                sc(51, 140),
                sc(57, 137),
                sc(69, 140),
                sc(77, 150),
                sc(84, 154),
                sc(87, 169),
                sc(89, 184),
                sc(92, 190),
                sc(91, 181),
                sc(92, 186),
                sc(109, 156),
                sc(112, 160),
                sc(132, 137),
                sc(132, 139),
                sc(143, 120),
                sc(168, 112),
                sc(84, 112),
                sc(92, 117),
                sc(53, 145),
            ],
            passed_pawn_bonus: [
                sc(-17, -1),
                sc(-23, 21),
                sc(-15, 51),
                sc(14, 82),
                sc(81, 110),
                sc(138, 169),
            ],
            king_danger_coeffs: [34i32, 179i32, (-748) as i32],
        }
    }
}

impl Default for Parameters {
    fn default() -> (p: Parameters)
        ensures
            p == Parameters::spec_default(),
            p.wf(),
    {
        let p = Parameters {
            piece_values: [S(87, 155), S(360, 343), S(327, 336), S(488, 546), S(1087, 992), S(0, 0)],
            isolated_pawn_malus: S(19, 24),
            doubled_pawn_malus: S(32, 23),
            bishop_pair_bonus: S(60, 109),
            rook_open_file_bonus: S(53, 0),
            rook_half_open_file_bonus: S(29, 0),
            queen_open_file_bonus: S(0, 0),
            queen_half_open_file_bonus: S(10, 0),
            knight_mobility_bonus: [
                S(-138, -155),
                S(-62, -8),
                S(-18, -18),
                S(-12, 46),
                S(-1, 65),
                S(-3, 85),
                S(13, 92),
                S(32, 91),
                S(45, 79),
            ],
            bishop_mobility_bonus: [
                S(-24, -135),
                S(-45, 17),
                S(-1, -39),
                S(4, 27),
                S(21, 41),
                S(34, 54),
                S(45, 67),
                S(55, 78),
                S(61, 84),
                S(69, 79),
                S(76, 82),
                S(100, 51),
                S(122, 85),
                S(97, 43),
            ],
            rook_mobility_bonus: [
                S(-132, -156),
                S(-73, -52),
                S(-7, 9),
                S(-8, 55),
                S(-5, 118),
                S(1, 116),
                S(6, 136),
                S(13, 145),
                S(16, 151),
                S(25, 157),
                S(25, 169),
                S(39, 173),
                S(44, 172),
                S(46, 170),
                S(14, 197),
            ],
            queen_mobility_bonus: [
                S(-29, -49),
                S(-16, -29),
                S(-84, -84),
                S(42, 8),
                S(15, -28),
                S(50, -13),
                S(51, 47),
                S(52, 26),
                S(49, 81),
                S(51, 140),
                S(57, 137),
                S(69, 140),
                S(77, 150),
                S(84, 154),
                S(87, 169),
                S(89, 184),
                S(92, 190),
                S(91, 181),
                S(92, 186),
                S(109, 156),
                S(112, 160),
                S(132, 137),
                S(132, 139),
                S(143, 120),
                S(168, 112),
                S(84, 112),
                S(92, 117),
                S(53, 145),
            ],
            passed_pawn_bonus: [
                S(-17, -1),
                S(-23, 21),
                S(-15, 51),
                S(14, 82),
                S(81, 110),
                S(138, 169),
            ],
            king_danger_coeffs: [34, 179, -748],
        };
        proof {
            assert(p.piece_values@ =~= Parameters::spec_default().piece_values@);
            assert(p.knight_mobility_bonus@ =~= Parameters::spec_default().knight_mobility_bonus@);
            assert(p.bishop_mobility_bonus@ =~= Parameters::spec_default().bishop_mobility_bonus@);
            assert(p.rook_mobility_bonus@ =~= Parameters::spec_default().rook_mobility_bonus@);
            assert(p.queen_mobility_bonus@ =~= Parameters::spec_default().queen_mobility_bonus@);
            assert(p.passed_pawn_bonus@ =~= Parameters::spec_default().passed_pawn_bonus@);
            assert(p.king_danger_coeffs@ =~= Parameters::spec_default().king_danger_coeffs@);
        }
        p
    }
}

/// The number of numbers in the bundle: two for each score and one for each
/// coefficient.
pub const PARAM_COUNT: usize = 173;

/// Why a number of the bundle was not set.
#[derive(Clone, Copy, PartialEq, Eq, Debug, Structural)]
pub enum ParameterError {
    /// The text of the value is no number.
    NotANumber,
    /// The value is beyond the limit of the number that it is for.
    OutOfRange,
}

/// The midgame part of a score, or its endgame part.
pub open spec fn part_of(s: S, endgame: bool) -> i32 {
    if endgame {
        s.1
    } else {
        s.0
    }
}

fn part(s: S, endgame: bool) -> (v: i32)
    ensures
        v == part_of(s, endgame),
{
    if endgame {
        s.1
    } else {
        s.0
    }
}

fn with_part(s: S, endgame: bool, v: i32) -> (r: S)
    ensures
        part_of(r, endgame) == v,
        part_of(r, !endgame) == part_of(s, !endgame),
{
    if endgame {
        S(s.0, v)
    } else {
        S(v, s.1)
    }
}

/// The digits of an index below a hundred.
pub open spec fn index_digits(i: int) -> Seq<u8> {
    if i < 10 {
        seq![('0' as u8 + i) as u8]
    } else {
        seq![('0' as u8 + i / 10) as u8, ('0' as u8 + i % 10) as u8]
    }
}

/// The end of the name of a part of a score.
pub open spec fn part_suffix(endgame: bool) -> Seq<u8> {
    if endgame {
        "_EG".spec_bytes()
    } else {
        "_MG".spec_bytes()
    }
}

/// The name of the number `k` of the bundle: the name of its field, the index
/// of its entry where the field has several, and `_MG` or `_EG` for the two
/// parts of a score.
pub open spec fn param_name(k: int) -> Seq<u8> {
    if k < 12 {
        "PIECE_VALUES".spec_bytes() + seq!['_' as u8] + index_digits((k - 0) / 2) + part_suffix((k - 0) % 2 == 1)
    } else if k < 14 {
        "ISOLATED_PAWN_MALUS".spec_bytes() + part_suffix(k - 12 == 1)
    } else if k < 16 {
        "DOUBLED_PAWN_MALUS".spec_bytes() + part_suffix(k - 14 == 1)
    } else if k < 18 {
        "BISHOP_PAIR_BONUS".spec_bytes() + part_suffix(k - 16 == 1)
    } else if k < 20 {
        "ROOK_OPEN_FILE_BONUS".spec_bytes() + part_suffix(k - 18 == 1)
    } else if k < 22 {
        "ROOK_HALF_OPEN_FILE_BONUS".spec_bytes() + part_suffix(k - 20 == 1)
    } else if k < 24 {
        "QUEEN_OPEN_FILE_BONUS".spec_bytes() + part_suffix(k - 22 == 1)
    } else if k < 26 {
        "QUEEN_HALF_OPEN_FILE_BONUS".spec_bytes() + part_suffix(k - 24 == 1)
    } else if k < 44 {
        "KNIGHT_MOBILITY_BONUS".spec_bytes() + seq!['_' as u8] + index_digits((k - 26) / 2) + part_suffix((k - 26) % 2 == 1)
    } else if k < 72 {
        "BISHOP_MOBILITY_BONUS".spec_bytes() + seq!['_' as u8] + index_digits((k - 44) / 2) + part_suffix((k - 44) % 2 == 1)
    } else if k < 102 {
        "ROOK_MOBILITY_BONUS".spec_bytes() + seq!['_' as u8] + index_digits((k - 72) / 2) + part_suffix((k - 72) % 2 == 1)
    } else if k < 158 {
        "QUEEN_MOBILITY_BONUS".spec_bytes() + seq!['_' as u8] + index_digits((k - 102) / 2) + part_suffix((k - 102) % 2 == 1)
    } else if k < 170 {
        "PASSED_PAWN_BONUS".spec_bytes() + seq!['_' as u8] + index_digits((k - 158) / 2) + part_suffix((k - 158) % 2 == 1)
    } else if k < 173 {
        "KING_DANGER_COEFFS".spec_bytes() + seq!['_' as u8] + index_digits(k - 170)
    } else {
        Seq::empty()
    }
}

/// The greatest magnitude that the number `k` of the bundle may have.
pub open spec fn param_limit(k: int) -> int {
    if k < 170 {
        PARAM_LIMIT as int
    } else {
        COEFF_LIMIT as int
    }
}

/// The greatest magnitude that the number `k` of the bundle may have.
pub fn param_bound(k: usize) -> (limit: i32)
    ensures
        limit == param_limit(k as int),
{
    if k < 170 {
        PARAM_LIMIT
    } else {
        COEFF_LIMIT
    }
}

fn push_text(id: &mut Vec<u8>, text: &str)
    ensures
        final(id)@ == old(id)@ + text.spec_bytes(),
{
    let bytes = text.as_bytes();
    let mut i: usize = 0;
    while i < bytes.len()
        invariant
            i <= bytes@.len(),
            bytes@ == text.spec_bytes(),
            id@ == old(id)@ + bytes@.subrange(0, i as int),
        decreases bytes@.len() - i,
    {
        id.push(bytes[i]);
        assert(bytes@.subrange(0, i + 1) =~= bytes@.subrange(0, i as int).push(bytes@[i as int]));
        i += 1;
    }
    assert(bytes@.subrange(0, i as int) =~= bytes@);
}

fn push_index(id: &mut Vec<u8>, i: usize)
    requires
        i < 100,
    ensures
        final(id)@ == old(id)@ + index_digits(i as int),
{
    if i < 10 {
        id.push('0' as u8 + i as u8);
    } else {
        id.push('0' as u8 + (i / 10) as u8);
        id.push('0' as u8 + (i % 10) as u8);
    }
    assert(id@ =~= old(id)@ + index_digits(i as int));
}

fn push_suffix(id: &mut Vec<u8>, endgame: bool)
    ensures
        final(id)@ == old(id)@ + part_suffix(endgame),
{
    if endgame {
        push_text(id, "_EG");
    } else {
        push_text(id, "_MG");
    }
}

/// The name of the number `k` of the bundle.
pub fn param_id(k: usize) -> (id: Vec<u8>)
    ensures
        id@ == param_name(k as int),
{
    let mut id: Vec<u8> = Vec::new();
    if k < 12 {
        push_text(&mut id, "PIECE_VALUES");
        id.push('_' as u8);
        push_index(&mut id, (k - 0) / 2);
        push_suffix(&mut id, (k - 0) % 2 == 1);
    } else if k < 14 {
        push_text(&mut id, "ISOLATED_PAWN_MALUS");
        push_suffix(&mut id, k - 12 == 1);
    } else if k < 16 {
        push_text(&mut id, "DOUBLED_PAWN_MALUS");
        push_suffix(&mut id, k - 14 == 1);
    } else if k < 18 {
        push_text(&mut id, "BISHOP_PAIR_BONUS");
        push_suffix(&mut id, k - 16 == 1);
    } else if k < 20 {
        push_text(&mut id, "ROOK_OPEN_FILE_BONUS");
        push_suffix(&mut id, k - 18 == 1);
    } else if k < 22 {
        push_text(&mut id, "ROOK_HALF_OPEN_FILE_BONUS");
        push_suffix(&mut id, k - 20 == 1);
    } else if k < 24 {
        push_text(&mut id, "QUEEN_OPEN_FILE_BONUS");
        push_suffix(&mut id, k - 22 == 1);
    } else if k < 26 {
        push_text(&mut id, "QUEEN_HALF_OPEN_FILE_BONUS");
        push_suffix(&mut id, k - 24 == 1);
    } else if k < 44 {
        push_text(&mut id, "KNIGHT_MOBILITY_BONUS");
        id.push('_' as u8);
        push_index(&mut id, (k - 26) / 2);
        push_suffix(&mut id, (k - 26) % 2 == 1);
    } else if k < 72 {
        push_text(&mut id, "BISHOP_MOBILITY_BONUS");
        id.push('_' as u8);
        push_index(&mut id, (k - 44) / 2);
        push_suffix(&mut id, (k - 44) % 2 == 1);
    } else if k < 102 {
        push_text(&mut id, "ROOK_MOBILITY_BONUS");
        id.push('_' as u8);
        push_index(&mut id, (k - 72) / 2);
        push_suffix(&mut id, (k - 72) % 2 == 1);
    } else if k < 158 {
        push_text(&mut id, "QUEEN_MOBILITY_BONUS");
        id.push('_' as u8);
        push_index(&mut id, (k - 102) / 2);
        push_suffix(&mut id, (k - 102) % 2 == 1);
    } else if k < 170 {
        push_text(&mut id, "PASSED_PAWN_BONUS");
        id.push('_' as u8);
        push_index(&mut id, (k - 158) / 2);
        push_suffix(&mut id, (k - 158) % 2 == 1);
    } else if k < 173 {
        push_text(&mut id, "KING_DANGER_COEFFS");
        id.push('_' as u8);
        push_index(&mut id, k - 170);
    } else {
    }
    assert(id@ =~= param_name(k as int));
    id
}

/// The place of the number of the bundle with the name `id`, where there is
/// one: the first place whose name is `id`.
pub fn param_index(id: &Vec<u8>) -> (r: Option<usize>)
    ensures
        match param_index_of(id@) {
            Some(k) => r == Some(k as usize) && 0 <= k < PARAM_COUNT && param_name(k) == id@,
            None => r is None,
        },
{
    let mut k: usize = 0;
    while k < PARAM_COUNT
        invariant
            k <= PARAM_COUNT,
            first_named(id@, 0) == first_named(id@, k as int),
        decreases PARAM_COUNT - k,
    {
        let name = param_id(k);
        if same_bytes(&name, id) {
            return Some(k);
        }
        k += 1;
    }
    None
}

fn same_bytes(a: &Vec<u8>, b: &Vec<u8>) -> (r: bool)
    ensures
        r == (a@ == b@),
{
    if a.len() != b.len() {
        return false;
    }
    let mut i: usize = 0;
    while i < a.len()
        invariant
            i <= a@.len(),
            a@.len() == b@.len(),
            forall|j: int| 0 <= j < i ==> a@[j] == b@[j],
        decreases a@.len() - i,
    {
        if a[i] != b[i] {
            return false;
        }
        i += 1;
    }
    assert(a@ =~= b@);
    true
}

impl Parameters {
    /// The number `k` of the bundle: its scores in the order of the fields,
    /// for each the midgame part and then the endgame part, and then the
    /// coefficients of the king-danger polynomial.
    pub open spec fn number_at(&self, k: int) -> int {
        if k < 12 {
            part_of(self.piece_values[(k - 0) / 2], (k - 0) % 2 == 1) as int
        } else if k < 14 {
            part_of(self.isolated_pawn_malus, k - 12 == 1) as int
        } else if k < 16 {
            part_of(self.doubled_pawn_malus, k - 14 == 1) as int
        } else if k < 18 {
            part_of(self.bishop_pair_bonus, k - 16 == 1) as int
        } else if k < 20 {
            part_of(self.rook_open_file_bonus, k - 18 == 1) as int
        } else if k < 22 {
            part_of(self.rook_half_open_file_bonus, k - 20 == 1) as int
        } else if k < 24 {
            part_of(self.queen_open_file_bonus, k - 22 == 1) as int
        } else if k < 26 {
            part_of(self.queen_half_open_file_bonus, k - 24 == 1) as int
        } else if k < 44 {
            part_of(self.knight_mobility_bonus[(k - 26) / 2], (k - 26) % 2 == 1) as int
        } else if k < 72 {
            part_of(self.bishop_mobility_bonus[(k - 44) / 2], (k - 44) % 2 == 1) as int
        } else if k < 102 {
            part_of(self.rook_mobility_bonus[(k - 72) / 2], (k - 72) % 2 == 1) as int
        } else if k < 158 {
            part_of(self.queen_mobility_bonus[(k - 102) / 2], (k - 102) % 2 == 1) as int
        } else if k < 170 {
            part_of(self.passed_pawn_bonus[(k - 158) / 2], (k - 158) % 2 == 1) as int
        } else if k < 173 {
            self.king_danger_coeffs[k - 170] as int
        } else {
            0
        }
    }

    /// The number `k` of the bundle.
    pub fn number(&self, k: usize) -> (v: i32)
        requires
            k < PARAM_COUNT,
        ensures
            v == self.number_at(k as int),
    {
        if k < 12 {
            part(self.piece_values[(k - 0) / 2], (k - 0) % 2 == 1)
        } else if k < 14 {
            part(self.isolated_pawn_malus, k - 12 == 1)
        } else if k < 16 {
            part(self.doubled_pawn_malus, k - 14 == 1)
        } else if k < 18 {
            part(self.bishop_pair_bonus, k - 16 == 1)
        } else if k < 20 {
            part(self.rook_open_file_bonus, k - 18 == 1)
        } else if k < 22 {
            part(self.rook_half_open_file_bonus, k - 20 == 1)
        } else if k < 24 {
            part(self.queen_open_file_bonus, k - 22 == 1)
        } else if k < 26 {
            part(self.queen_half_open_file_bonus, k - 24 == 1)
        } else if k < 44 {
            part(self.knight_mobility_bonus[(k - 26) / 2], (k - 26) % 2 == 1)
        } else if k < 72 {
            part(self.bishop_mobility_bonus[(k - 44) / 2], (k - 44) % 2 == 1)
        } else if k < 102 {
            part(self.rook_mobility_bonus[(k - 72) / 2], (k - 72) % 2 == 1)
        } else if k < 158 {
            part(self.queen_mobility_bonus[(k - 102) / 2], (k - 102) % 2 == 1)
        } else if k < 170 {
            part(self.passed_pawn_bonus[(k - 158) / 2], (k - 158) % 2 == 1)
        } else if k < 173 {
            self.king_danger_coeffs[k - 170]
        } else {
            0
        }
    }

    /// Sets the number `k` of the bundle to `v`, which is within the limit of
    /// that number.
    pub fn set_number(&mut self, k: usize, v: i32)
        requires
            k < PARAM_COUNT,
            old(self).wf(),
            -param_limit(k as int) <= v <= param_limit(k as int),
        ensures
            final(self).wf(),
            forall|j: int|
                0 <= j < PARAM_COUNT ==> #[trigger] final(self).number_at(j) == if j == k {
                    v as int
                } else {
                    old(self).number_at(j)
                },
    {
        if k < 12 {
            let i = (k - 0) / 2;
            let old_entry = self.piece_values[i];
            self.piece_values[i] = with_part(old_entry, (k - 0) % 2 == 1, v);
        } else if k < 14 {
            self.isolated_pawn_malus = with_part(self.isolated_pawn_malus, k - 12 == 1, v);
        } else if k < 16 {
            self.doubled_pawn_malus = with_part(self.doubled_pawn_malus, k - 14 == 1, v);
        } else if k < 18 {
            self.bishop_pair_bonus = with_part(self.bishop_pair_bonus, k - 16 == 1, v);
        } else if k < 20 {
            self.rook_open_file_bonus = with_part(self.rook_open_file_bonus, k - 18 == 1, v);
        } else if k < 22 {
            self.rook_half_open_file_bonus = with_part(self.rook_half_open_file_bonus, k - 20 == 1, v);
        } else if k < 24 {
            self.queen_open_file_bonus = with_part(self.queen_open_file_bonus, k - 22 == 1, v);
        } else if k < 26 {
            self.queen_half_open_file_bonus = with_part(self.queen_half_open_file_bonus, k - 24 == 1, v);
        } else if k < 44 {
            let i = (k - 26) / 2;
            let old_entry = self.knight_mobility_bonus[i];
            self.knight_mobility_bonus[i] = with_part(old_entry, (k - 26) % 2 == 1, v);
        } else if k < 72 {
            let i = (k - 44) / 2;
            let old_entry = self.bishop_mobility_bonus[i];
            self.bishop_mobility_bonus[i] = with_part(old_entry, (k - 44) % 2 == 1, v);
        } else if k < 102 {
            let i = (k - 72) / 2;
            let old_entry = self.rook_mobility_bonus[i];
            self.rook_mobility_bonus[i] = with_part(old_entry, (k - 72) % 2 == 1, v);
        } else if k < 158 {
            let i = (k - 102) / 2;
            let old_entry = self.queen_mobility_bonus[i];
            self.queen_mobility_bonus[i] = with_part(old_entry, (k - 102) % 2 == 1, v);
        } else if k < 170 {
            let i = (k - 158) / 2;
            let old_entry = self.passed_pawn_bonus[i];
            self.passed_pawn_bonus[i] = with_part(old_entry, (k - 158) % 2 == 1, v);
        } else if k < 173 {
            self.king_danger_coeffs[k - 170] = v;
        } else {
        }
    }

    /// Sets the number of the bundle with the name `id` to the number that
    /// the text `value` writes, and says whether there is a number with that
    /// name. The bundle stays as it is where there is none, and where the
    /// text writes no number or one beyond the limit.
    pub fn set_from_text(&mut self, id: &Vec<u8>, value: &Vec<u8>) -> (r: Result<
        bool,
        ParameterError,
    >)
        requires
            old(self).wf(),
        ensures
            final(self).wf(),
            match param_index_of(id@) {
                None => r == Ok::<bool, ParameterError>(false) && *final(self) == *old(self),
                Some(k) => match crate::text::parse_in_range(
                    value@,
                    i32::MIN as int,
                    i32::MAX as int,
                ) {
                    None => r == Err::<bool, ParameterError>(ParameterError::NotANumber) && *final(self) == *old(self),
                    Some(v) => if -param_limit(k) <= v <= param_limit(k) {
                        r == Ok::<bool, ParameterError>(true) && forall|j: int|
                            0 <= j < PARAM_COUNT ==> #[trigger] final(self).number_at(j) == if j
                                == k {
                                v
                            } else {
                                old(self).number_at(j)
                            }
                    } else {
                        r == Err::<bool, ParameterError>(ParameterError::OutOfRange) && *final(self) == *old(self)
                    },
                },
            },
    {
        let k = match param_index(id) {
            Some(k) => k,
            None => {
                return Ok(false);
            },
        };
        let v = match crate::text::parse_i32(value) {
            Some(v) => v,
            None => {
                return Err(ParameterError::NotANumber);
            },
        };
        let limit = param_bound(k);
        if v < -limit || v > limit {
            return Err(ParameterError::OutOfRange);
        }
        self.set_number(k, v);
        Ok(true)
    }
}

/// Whether `after` is `before` with the number `k` set to `v`.
pub open spec fn params_with(before: Parameters, after: Parameters, k: int, v: int) -> bool {
    forall|j: int|
        0 <= j < PARAM_COUNT ==> #[trigger] after.number_at(j) == if j == k {
            v
        } else {
            before.number_at(j)
        }
}

/// The first place of the bundle whose name is `id`, where there is one.
pub open spec fn param_index_of(id: Seq<u8>) -> Option<int> {
    if first_named(id, 0) < PARAM_COUNT {
        Some(first_named(id, 0))
    } else {
        None
    }
}

/// The first place from `k` on whose name is `id`, and the number of the
/// numbers of the bundle where there is none.
pub open spec fn first_named(id: Seq<u8>, k: int) -> int
    decreases PARAM_COUNT - k,
{
    if k < 0 || k >= PARAM_COUNT {
        PARAM_COUNT as int
    } else if param_name(k) == id {
        k
    } else {
        first_named(id, k + 1)
    }
}

} // verus!
