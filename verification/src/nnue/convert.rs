use vstd::prelude::*;
use vstd::string::StringSliceAdditionalSpecFns;

verus! {

/// The layout of a file of positions with the results of their games.
#[derive(Debug, Clone, Copy, PartialEq, Eq, Structural)]
pub enum Format {
    /// A position and a result on each line, parted by `;`.
    OurTexel,
    /// A position, an evaluation and a result on each line, parted by `|`.
    Marlinflow,
}

/// What `str::trim` returns for a text: the text without the white space at
/// its two ends.
pub uninterp spec fn trimmed(s: Seq<char>) -> Seq<char>;

/// `str::trim` returns the text without leading and trailing white space, as
/// the Unicode property `White_Space` defines it; the result is given the
/// name `trimmed`.
#[verifier::external_body]
fn trim_text(s: &str) -> (r: String)
    ensures
        r@ == trimmed(s@),
{
    s.trim().to_string()
}

/// The place of the first `c` in `s` from `i` on, and the length of `s` where
/// there is none.
pub open spec fn first_index_of(s: Seq<char>, c: char, i: int) -> int
    decreases s.len() - i,
{
    if i < 0 || i >= s.len() {
        s.len() as int
    } else if s[i] == c {
        i
    } else {
        first_index_of(s, c, i + 1)
    }
}

/// What is before and what is after the first `c` in `s`; none where `s`
/// holds no `c`.
pub open spec fn split_at_first(s: Seq<char>, c: char) -> Option<(Seq<char>, Seq<char>)> {
    let i = first_index_of(s, c, 0);
    if i >= s.len() {
        None
    } else {
        Some((s.subrange(0, i), s.subrange(i + 1, s.len() as int)))
    }
}

/// Whether no character of `s` is `c`.
pub open spec fn lacks(s: Seq<char>, c: char) -> bool {
    forall|i: int| 0 <= i < s.len() ==> #[trigger] s[i] != c
}

/// The first `c` of a text that lacks it is at its end.
proof fn lemma_first_index_none(s: Seq<char>, c: char, i: int)
    requires
        lacks(s, c),
        0 <= i <= s.len(),
    ensures
        first_index_of(s, c, i) == s.len(),
    decreases s.len() - i,
{
    if i < s.len() {
        lemma_first_index_none(s, c, i + 1);
    }
}

/// The first `c` of a text that holds `c` after a part that lacks it is at
/// the end of that part.
proof fn lemma_first_index_found(before: Seq<char>, c: char, after: Seq<char>, i: int)
    requires
        lacks(before, c),
        0 <= i <= before.len(),
    ensures
        first_index_of(before + seq![c] + after, c, i) == before.len(),
    decreases before.len() - i,
{
    let s = before + seq![c] + after;
    if i < before.len() {
        assert(s[i] == before[i]);
        lemma_first_index_found(before, c, after, i + 1);
    } else {
        assert(s[i] == c);
    }
}

/// A byte below 128 is its own lowest seven bits.
proof fn lemma_low_byte(b: u8)
    requires
        b < 128,
    ensures
        b & 0x7f == b,
{
    assert(b < 128 ==> b & 0x7f == b) by (bit_vector);
}

/// A text whose bytes hold no byte `d`, which is below 128, holds no
/// character with that code.
proof fn lemma_decoded_lacks(bytes: Seq<u8>, d: u8)
    requires
        vstd::utf8::valid_utf8(bytes),
        d < 128,
        forall|i: int| 0 <= i < bytes.len() ==> bytes[i] != d,
    ensures
        lacks(vstd::utf8::decode_utf8(bytes), d as char),
    decreases bytes.len(),
{
    let chars = vstd::utf8::decode_utf8(bytes);
    if bytes.len() > 0 {
        let rest = vstd::utf8::pop_first_scalar(bytes);
        let first = vstd::utf8::decode_first_scalar(bytes);
        assert forall|i: int| 0 <= i < rest.len() implies rest[i] != d by {
            assert(rest[i] == bytes[i + vstd::utf8::length_of_first_scalar(bytes)]);
        }
        lemma_decoded_lacks(rest, d);
        assert(first as char != d as char) by {
            if first as char == d as char {
                // The character would be written as the one byte `d`.
                vstd::utf8::decode_utf8_first_scalar(bytes);
                lemma_low_byte(d);
                assert((d as char) as u32 == d);
                assert(vstd::utf8::encode_scalar(d as u32) =~= seq![d]);
                assert(vstd::utf8::take_first_scalar(bytes)[0] == d);
                assert(bytes[0] == d);
            }
        }
        let tail = vstd::utf8::decode_utf8(rest);
        assert(chars =~= seq![first as char] + tail);
        assert forall|i: int| 0 <= i < chars.len() implies #[trigger] chars[i] != d as char by {
            if i > 0 {
                assert(chars[i] == tail[i - 1]);
            }
        }
    } else {
        assert(chars.len() == 0);
    }
}

/// What is before and what is after the first character of `s` with the
/// code `d`, which is below 128; none where `s` holds no such character. A
/// character with a code below 128 is written as one byte with that value,
/// and no byte of another character has such a value, so the character is
/// looked for among the bytes.
fn split_once_at(s: &str, d: u8) -> (r: Option<(String, String)>)
    requires
        d < 128,
    ensures
        match split_at_first(s@, d as char) {
            Some((before, after)) => r matches Some((a, b)) && a@ == before && b@ == after,
            None => r is None,
        },
{
    broadcast use
        vstd::utf8::encode_utf8_valid_utf8,
        vstd::utf8::encode_utf8_decode_utf8,
        vstd::utf8::is_char_boundary_iff_not_is_continuation_byte,
        vstd::utf8::is_char_boundary_start_end_of_seq,
    ;

    let bytes = s.as_bytes();
    let ghost c = d as char;
    let mut i: usize = 0;
    while i < bytes.len() && bytes[i] != d
        invariant
            i <= bytes@.len(),
            forall|k: int| 0 <= k < i ==> bytes@[k] != d,
        decreases bytes@.len() - i,
    {
        i += 1;
    }
    assert(s@ == vstd::utf8::decode_utf8(bytes@));
    if i >= bytes.len() {
        proof {
            lemma_decoded_lacks(bytes@, d);
            lemma_first_index_none(s@, c, 0);
        }
        return None;
    }
    proof {
        vstd::utf8::encode_utf8_valid_utf8(s@);
        vstd::utf8::is_char_boundary_iff_not_is_continuation_byte(bytes@, i as int);
    }
    let (before, rest) = s.split_at(i);
    proof {
        vstd::utf8::decode_utf8_split(bytes@, i as int);
        assert(s@ =~= before@ + rest@);
        let tail = rest.spec_bytes();
        assert(tail[0] == d);
        reveal_with_fuel(vstd::utf8::is_char_boundary, 2);
        assert(vstd::utf8::is_char_boundary(tail, 1));
    }
    let (delimiter, after) = rest.split_at(1);
    proof {
        let tail = rest.spec_bytes();
        vstd::utf8::decode_utf8_split(tail, 1);
        assert(rest@ =~= delimiter@ + after@);
        let one = delimiter.spec_bytes();
        assert(one =~= seq![d]);
        lemma_low_byte(d);
        reveal_with_fuel(vstd::utf8::decode_utf8, 2);
        assert(delimiter@ =~= seq![c]);
        lemma_decoded_lacks(before.spec_bytes(), d);
        assert(s@ =~= before@ + seq![c] + after@);
        lemma_first_index_found(before@, c, after@, 0);
        assert(s@.subrange(0, before@.len() as int) =~= before@);
        assert(s@.subrange(before@.len() as int + 1, s@.len() as int) =~= after@);
    }
    Some((before.to_owned(), after.to_owned()))
}

/// The position and the result that a line names, as texts: trimmed, the line
/// reads the position, the separator and the result, or for the layout
/// `Marlinflow` the position, the separator, an evaluation, the separator and
/// the result, each of them with white space around it at will. None where
/// a separator is missing.
pub open spec fn record_of(line: Seq<char>, format: Format) -> Option<(Seq<char>, Seq<char>)> {
    match format {
        Format::OurTexel => split_at_first(trimmed(line), ';'),
        Format::Marlinflow => match split_at_first(trimmed(line), '|') {
            None => None,
            Some((fen, rest)) => match split_at_first(trimmed(rest), '|') {
                None => None,
                Some((_, outcome)) => Some((trimmed(fen), trimmed(outcome))),
            },
        },
    }
}

/// The position and the result that a line of a file in the layout `format`
/// names, as texts.
pub fn split_record(line: &str, format: Format) -> (r: Option<(String, String)>)
    ensures
        match record_of(line@, format) {
            Some((fen, outcome)) => r matches Some((a, b)) && a@ == fen && b@ == outcome,
            None => r is None,
        },
{
    let whole = trim_text(line);
    match format {
        Format::OurTexel => split_once_at(whole.as_str(), ';' as u8),
        Format::Marlinflow => {
            let (fen, rest) = match split_once_at(whole.as_str(), '|' as u8) {
                Some(found) => found,
                None => {
                    return None;
                },
            };
            let rest = trim_text(rest.as_str());
            let (_, outcome) = match split_once_at(rest.as_str(), '|' as u8) {
                Some(found) => found,
                None => {
                    return None;
                },
            };
            Some((trim_text(fen.as_str()), trim_text(outcome.as_str())))
        },
    }
}

/// `num_cpus::get` returns the number of processors that this process may
/// use. The number differs from machine to machine and from run to run; its
/// documentation promises that it is at least one, and no more is said of it.
#[verifier::external_body]
fn available_cpus() -> (cores: usize)
    ensures
        cores >= 1,
{
    num_cpus::get()
}

/// The number of positions that each of `cores` workers gets at a time when
/// `positions` positions are handed out: the positions shared out evenly,
/// what is left over not counted. None where there is no worker, or where
/// there are fewer positions than workers.
pub open spec fn shared_out(positions: usize, cores: usize) -> Option<usize> {
    if cores == 0 || positions / cores == 0 {
        None
    } else {
        Some(positions / cores)
    }
}

/// The number of positions that each of `cores` workers gets at a time when
/// `positions` positions are handed out.
pub fn chunk_size_for(positions: usize, cores: usize) -> (r: Option<usize>)
    ensures
        r == shared_out(positions, cores),
{
    if cores == 0 {
        return None;
    }
    let size = positions / cores;
    if size == 0 {
        None
    } else {
        Some(size)
    }
}

/// The number of positions that each worker gets at a time when `positions`
/// positions are handed out to as many workers as this process has
/// processors: what `chunk_size_for` gives for that number of workers. It is
/// at least one and at most all of the positions, whatever the number of
/// processors is; and none where there are fewer positions than processors.
pub fn chunk_size(positions: usize) -> (r: Option<usize>)
    ensures
        exists|cores: usize| cores >= 1 && r == #[trigger] shared_out(positions, cores),
        r matches Some(size) ==> 1 <= size <= positions,
{
    let cores = available_cpus();
    proof {
        assert(positions as int / cores as int <= positions) by (nonlinear_arith)
            requires
                cores >= 1,
                positions >= 0,
        ;
    }
    let r = chunk_size_for(positions, cores);
    assert(cores >= 1 && r == shared_out(positions, cores));
    r
}

/// The score for White of a position that is worth `pov_score` to the side to
/// move.
pub fn white_relative(pov_score: i32, white_to_move: bool) -> (score: i32)
    requires
        pov_score > i32::MIN,
    ensures
        score == if white_to_move {
            pov_score as int
        } else {
            -pov_score
        },
{
    if white_to_move {
        pov_score
    } else {
        -pov_score
    }
}

} // verus!
