use vstd::prelude::*;
use vstd::string::StringSliceAdditionalSpecFns;

verus! {

/// Whether a byte is white space: a space, a tab, a line feed, a form feed or
/// a carriage return.
pub open spec fn is_space(c: u8) -> bool {
    c == 32 || c == 9 || c == 10 || c == 12 || c == 13
}

fn is_space_byte(c: u8) -> (r: bool)
    ensures
        r == is_space(c),
{
    c == 32 || c == 9 || c == 10 || c == 12 || c == 13
}

/// The index of the first byte of `b` from `i` on that is no white space, and
/// the length of `b` where there is none.
pub open spec fn skip_spaces(b: Seq<u8>, i: int) -> int
    decreases b.len() - i,
{
    if 0 <= i < b.len() && is_space(b[i]) {
        skip_spaces(b, i + 1)
    } else {
        i
    }
}

/// The index of the first byte of `b` from `i` on that is white space, and
/// the length of `b` where there is none.
pub open spec fn word_end(b: Seq<u8>, i: int) -> int
    decreases b.len() - i,
{
    if 0 <= i < b.len() && !is_space(b[i]) {
        word_end(b, i + 1)
    } else {
        i
    }
}

/// The words of `b` from `i` on: the runs of bytes that are no white space,
/// in their order.
pub open spec fn words_from(b: Seq<u8>, i: int) -> Seq<Seq<u8>>
    decreases b.len() - i,
{
    let start = skip_spaces(b, i);
    let end = word_end(b, start);
    if i < 0 || start >= b.len() || end <= i || end > b.len() {
        Seq::empty()
    } else {
        seq![b.subrange(start, end)] + words_from(b, end)
    }
}

/// The words of `b`: the runs of bytes that are no white space, in their
/// order.
pub open spec fn words(b: Seq<u8>) -> Seq<Seq<u8>> {
    words_from(b, 0)
}

proof fn lemma_word_end(b: Seq<u8>, i: int)
    requires
        0 <= i <= b.len(),
    ensures
        i <= word_end(b, i) <= b.len(),
        i < b.len() && !is_space(b[i]) ==> i < word_end(b, i),
    decreases b.len() - i,
{
    if i < b.len() && !is_space(b[i]) {
        lemma_word_end(b, i + 1);
    }
}

/// The words of `b`.
pub fn split_words(b: &[u8]) -> (out: Vec<Vec<u8>>)
    ensures
        out@.len() == words(b@).len(),
        forall|k: int| 0 <= k < out@.len() ==> (#[trigger] out@[k])@ == words(b@)[k],
{
    let mut out: Vec<Vec<u8>> = Vec::new();
    let mut i: usize = 0;
    let ghost mut done: Seq<Seq<u8>> = Seq::empty();
    loop
        invariant
            i <= b@.len(),
            words(b@) == done + words_from(b@, i as int),
            out@.len() == done.len(),
            forall|k: int| 0 <= k < out@.len() ==> (#[trigger] out@[k])@ == done[k],
        decreases b@.len() - i,
    {
        let ghost from = i as int;
        while i < b.len() && is_space_byte(b[i])
            invariant
                from <= i <= b@.len(),
                skip_spaces(b@, from) == skip_spaces(b@, i as int),
            decreases b@.len() - i,
        {
            i += 1;
        }
        if i >= b.len() {
            proof {
                assert(words_from(b@, from) =~= Seq::empty());
                assert(done + words_from(b@, from) =~= done);
            }
            return out;
        }
        let start = i;
        let mut word: Vec<u8> = Vec::new();
        while i < b.len() && !is_space_byte(b[i])
            invariant
                start <= i <= b@.len(),
                word_end(b@, start as int) == word_end(b@, i as int),
                word@ == b@.subrange(start as int, i as int),
            decreases b@.len() - i,
        {
            word.push(b[i]);
            assert(b@.subrange(start as int, i + 1) =~= b@.subrange(start as int, i as int).push(
                b@[i as int],
            ));
            i += 1;
        }
        proof {
            lemma_word_end(b@, start as int);
            assert(skip_spaces(b@, from) == start);
            assert(word_end(b@, start as int) == i);
            assert(words_from(b@, from) =~= seq![word@] + words_from(b@, i as int));
            assert(done + words_from(b@, from) =~= done.push(word@) + words_from(b@, i as int));
            done = done.push(word@);
        }
        out.push(word);
    }
}

/// Whether `word` is the text `text`.
pub fn word_is(word: &Vec<u8>, text: &str) -> (r: bool)
    ensures
        r == (word@ == text.spec_bytes()),
{
    let bytes = text.as_bytes();
    if word.len() != bytes.len() {
        return false;
    }
    let mut i: usize = 0;
    while i < word.len()
        invariant
            i <= word@.len(),
            word@.len() == bytes@.len(),
            bytes@ == text.spec_bytes(),
            forall|k: int| 0 <= k < i ==> word@[k] == bytes@[k],
        decreases word@.len() - i,
    {
        if word[i] != bytes[i] {
            return false;
        }
        i += 1;
    }
    assert(word@ =~= bytes@);
    true
}

/// Whether a byte is a digit.
pub open spec fn is_digit(c: u8) -> bool {
    '0' as u8 <= c <= '9' as u8
}

/// Whether every byte of `b` is a digit.
pub open spec fn all_digits(b: Seq<u8>) -> bool {
    forall|i: int| 0 <= i < b.len() ==> is_digit(#[trigger] b[i])
}

/// The number that the digits `b` write in base ten.
pub open spec fn digits_value(b: Seq<u8>) -> int
    decreases b.len(),
{
    if b.len() == 0 {
        0
    } else {
        10 * digits_value(b.drop_last()) + (b.last() - '0' as u8)
    }
}

/// The number that `b` writes in base ten, where it writes one: digits, at
/// least one, after a plus sign or none, or where `signed` after a minus
/// sign.
pub open spec fn parse_number(b: Seq<u8>, signed: bool) -> Option<int> {
    if b.len() == 0 {
        None
    } else if b[0] == '+' as u8 || (signed && b[0] == '-' as u8) {
        let digits = b.subrange(1, b.len() as int);
        if digits.len() == 0 || !all_digits(digits) {
            None
        } else if b[0] == '-' as u8 {
            Some(-digits_value(digits))
        } else {
            Some(digits_value(digits))
        }
    } else if all_digits(b) {
        Some(digits_value(b))
    } else {
        None
    }
}

/// The number that `b` writes in base ten, where it writes one that is at
/// least `min` and at most `max`.
pub open spec fn parse_in_range(b: Seq<u8>, min: int, max: int) -> Option<int> {
    match parse_number(b, min < 0) {
        Some(v) => if min <= v <= max {
            Some(v)
        } else {
            None
        },
        None => None,
    }
}

proof fn lemma_digits_grow(b: Seq<u8>, i: int)
    requires
        0 <= i <= b.len(),
        all_digits(b),
    ensures
        0 <= digits_value(b.subrange(0, i)) <= digits_value(b),
    decreases b.len() - i,
{
    if i < b.len() {
        lemma_digits_grow(b, i + 1);
        let longer = b.subrange(0, i + 1);
        assert(longer.drop_last() =~= b.subrange(0, i));
        lemma_digits_nonneg(b.subrange(0, i));
    } else {
        assert(b.subrange(0, i) =~= b);
        lemma_digits_nonneg(b);
    }
}

proof fn lemma_digits_nonneg(b: Seq<u8>)
    requires
        all_digits(b),
    ensures
        0 <= digits_value(b),
    decreases b.len(),
{
    if b.len() > 0 {
        lemma_digits_nonneg(b.drop_last());
    }
}

/// The number that the digits of `b` from `start` on write, where they are
/// digits, at least one, and the number is at most `max`.
fn read_digits(b: &Vec<u8>, start: usize, max: u64) -> (r: Option<u64>)
    requires
        start <= b@.len(),
        9 <= max,
    ensures
        ({
            let digits = b@.subrange(start as int, b@.len() as int);
            match r {
                Some(v) => digits.len() > 0 && all_digits(digits) && v == digits_value(digits) && v
                    <= max,
                None => !(digits.len() > 0 && all_digits(digits) && digits_value(digits) <= max),
            }
        }),
{
    let ghost digits = b@.subrange(start as int, b@.len() as int);
    if start >= b.len() {
        return None;
    }
    let mut acc: u64 = 0;
    let mut i: usize = start;
    while i < b.len()
        invariant
            start <= i <= b@.len(),
            9 <= max,
            digits == b@.subrange(start as int, b@.len() as int),
            all_digits(digits.subrange(0, i - start)),
            acc == digits_value(digits.subrange(0, i - start)),
            acc <= max,
        decreases b@.len() - i,
    {
        let c = b[i];
        if c < '0' as u8 || c > '9' as u8 {
            assert(!is_digit(digits[i - start]));
            return None;
        }
        let d = (c - '0' as u8) as u64;
        proof {
            let longer = digits.subrange(0, i - start + 1);
            assert(longer.drop_last() =~= digits.subrange(0, i - start));
            assert(longer.last() == c);
            assert(all_digits(longer)) by {
                assert forall|k: int| 0 <= k < longer.len() implies is_digit(#[trigger] longer[k]) by {
                    if k < longer.len() - 1 {
                        assert(digits.subrange(0, i - start)[k] == longer[k]);
                    }
                }
            }
            if all_digits(digits) {
                lemma_digits_grow(digits, i - start + 1);
            }
        }
        if acc > (max - d) / 10 {
            // Ten times `acc` and `d` together are more than `max`.
            return None;
        }
        acc = acc * 10 + d;
        i += 1;
    }
    assert(digits.subrange(0, i - start) =~= digits);
    Some(acc)
}

/// The number that `b` writes, as `u64::from_str` reads it.
pub fn parse_u64(b: &Vec<u8>) -> (r: Option<u64>)
    ensures
        match parse_in_range(b@, 0, u64::MAX as int) {
            Some(v) => r == Some(v as u64),
            None => r is None,
        },
{
    if b.len() == 0 {
        return None;
    }
    if b[0] == '+' as u8 {
        read_digits(b, 1, u64::MAX)
    } else {
        assert(b@.subrange(0, b@.len() as int) =~= b@);
        read_digits(b, 0, u64::MAX)
    }
}

/// The number that `b` writes, as `i64::from_str` reads it.
pub fn parse_i64(b: &Vec<u8>) -> (r: Option<i64>)
    ensures
        match parse_in_range(b@, i64::MIN as int, i64::MAX as int) {
            Some(v) => r == Some(v as i64),
            None => r is None,
        },
{
    if b.len() == 0 {
        return None;
    }
    if b[0] == '-' as u8 {
        match read_digits(b, 1, 0x8000_0000_0000_0000) {
            Some(v) => if v == 0x8000_0000_0000_0000 {
                Some(i64::MIN)
            } else {
                Some(-(v as i64))
            },
            None => None,
        }
    } else if b[0] == '+' as u8 {
        match read_digits(b, 1, 0x7fff_ffff_ffff_ffff) {
            Some(v) => Some(v as i64),
            None => None,
        }
    } else {
        assert(b@.subrange(0, b@.len() as int) =~= b@);
        match read_digits(b, 0, 0x7fff_ffff_ffff_ffff) {
            Some(v) => Some(v as i64),
            None => None,
        }
    }
}

/// The number that `b` writes, as `i32::from_str` reads it.
pub fn parse_i32(b: &Vec<u8>) -> (r: Option<i32>)
    ensures
        match parse_in_range(b@, i32::MIN as int, i32::MAX as int) {
            Some(v) => r == Some(v as i32),
            None => r is None,
        },
{
    match parse_i64(b) {
        Some(v) => if v < i32::MIN as i64 || v > i32::MAX as i64 {
            proof {
                lemma_range_narrows(b@, v as int);
            }
            None
        } else {
            Some(v as i32)
        },
        None => {
            proof {
                lemma_range_fails(b@);
            }
            None
        },
    }
}

proof fn lemma_range_narrows(b: Seq<u8>, v: int)
    requires
        parse_in_range(b, i64::MIN as int, i64::MAX as int) == Some(v),
    ensures
        parse_in_range(b, i32::MIN as int, i32::MAX as int) == if i32::MIN <= v <= i32::MAX {
            Some(v)
        } else {
            None
        },
{
}

proof fn lemma_range_fails(b: Seq<u8>)
    requires
        parse_in_range(b, i64::MIN as int, i64::MAX as int) is None,
    ensures
        parse_in_range(b, i32::MIN as int, i32::MAX as int) is None,
{
}

} // verus!
