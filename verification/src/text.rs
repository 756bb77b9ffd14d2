//! Byte-level text model shared by the pattern and placement parsers:
//! splitting a text at a separator byte, and reading a decimal number.
//! Everything here works on plain bytes, so callers can feed it file contents
//! or command-line text alike.

use crate::Error;
use vstd::prelude::*;

verus! {

/// The byte that marks a live cell in a pattern text: `*`.
pub const ALIVE_MARKER: u8 = 42;

/// The byte that marks a dead cell in a pattern text: `.`.
pub const DEAD_MARKER: u8 = 46;

/// The byte that ends a pattern row: the line feed.
pub const LINE_BREAK: u8 = 10;

/// The byte that separates the fields of a placement text: `,`.
pub const FIELD_SEPARATOR: u8 = 44;

/// The byte for the digit `0`.
pub const DIGIT_ZERO: u8 = 48;

/// The byte for the digit `9`.
pub const DIGIT_NINE: u8 = 57;

/// Length of the prefix of `s` that comes before the first `d`, or the whole
/// length when no byte equals `d`.
pub open spec fn seg_len(s: Seq<u8>, d: u8) -> int
    decreases s.len(),
{
    if s.len() == 0 {
        0
    } else if s[0] == d {
        0
    } else {
        1 + seg_len(s.drop_first(), d)
    }
}

/// `seg_len` is the index of the first occurrence of `d`: any position `j`
/// with no `d` before it and `d` (or the end) at it pins it down.
pub proof fn lemma_seg_len_is(s: Seq<u8>, d: u8, j: int)
    requires
        0 <= j <= s.len(),
        forall|m: int| 0 <= m < j ==> s[m] != d,
        j == s.len() || s[j] == d,
    ensures
        seg_len(s, d) == j,
    decreases j,
{
    if j > 0 {
        lemma_seg_len_is(s.drop_first(), d, j - 1);
    }
}

/// `s` split at every occurrence of `d`: the rows of a pattern text (`d` a
/// line break) or the fields of a placement (`d` a comma). Empty input has no
/// segments, and a trailing `d` closes the last segment without opening an
/// empty one.
pub open spec fn split_on(s: Seq<u8>, d: u8) -> Seq<Seq<u8>>
    decreases s.len(),
{
    if s.len() == 0 {
        seq![]
    } else {
        let e = seg_len(s, d);
        if 0 <= e < s.len() {
            seq![s.take(e)] + split_on(s.skip(e + 1), d)
        } else {
            seq![s]
        }
    }
}

/// Whether `b` is a decimal digit.
pub open spec fn is_digit(b: u8) -> bool {
    DIGIT_ZERO <= b <= DIGIT_NINE
}

/// The number denoted by a sequence of decimal digits, most significant
/// first.
pub open spec fn dec_value(s: Seq<u8>) -> int
    decreases s.len(),
{
    if s.len() == 0 {
        0
    } else {
        10 * dec_value(s.drop_last()) + (s.last() - DIGIT_ZERO)
    }
}

/// A text that denotes a `usize`: non-empty, digits only, value in range.
pub open spec fn is_usize_text(s: Seq<u8>) -> bool {
    &&& s.len() > 0
    &&& forall|i: int| 0 <= i < s.len() ==> is_digit(#[trigger] s[i])
    &&& dec_value(s) <= usize::MAX as int
}

pub proof fn lemma_dec_value_nonneg(s: Seq<u8>)
    requires
        forall|i: int| 0 <= i < s.len() ==> is_digit(#[trigger] s[i]),
    ensures
        dec_value(s) >= 0,
    decreases s.len(),
{
    if s.len() > 0 {
        lemma_dec_value_nonneg(s.drop_last());
    }
}

/// Dropping trailing digits never increases the value: the value of a prefix
/// of a digit text is at most the value of the whole.
pub proof fn lemma_dec_value_prefix(s: Seq<u8>, i: int)
    requires
        0 <= i <= s.len(),
        forall|m: int| 0 <= m < s.len() ==> is_digit(#[trigger] s[m]),
    ensures
        dec_value(s.take(i)) <= dec_value(s),
    decreases s.len(),
{
    if i == s.len() {
        assert(s.take(i) =~= s);
    } else {
        lemma_dec_value_nonneg(s.drop_last());
        lemma_dec_value_prefix(s.drop_last(), i);
        assert(s.drop_last().take(i) =~= s.take(i));
        assert(is_digit(s[s.len() - 1]));
    }
}

/// Parse the decimal digits of `s[start..end]` as a `usize`. Succeeds exactly
/// when that range is non-empty, holds digits only, and denotes a value that
/// fits in `usize`; anything else is a `ParseError`.
#[verifier::loop_isolation(false)]
pub fn parse_usize(s: &[u8], start: usize, end: usize) -> (r: Result<usize, Error>)
    requires
        start <= end <= s@.len(),
    ensures
        r is Ok <==> is_usize_text(s@.subrange(start as int, end as int)),
        r matches Ok(v) ==> v as int == dec_value(s@.subrange(start as int, end as int)),
        r is Err ==> r == Err::<usize, Error>(Error::ParseError),
{
    let ghost t = s@.subrange(start as int, end as int);
    if start == end {
        return Err(Error::ParseError);
    }
    let mut v: usize = 0;
    let mut i: usize = start;
    while i < end
        invariant
            start <= i <= end,
            v as int == dec_value(s@.subrange(start as int, i as int)),
            forall|m: int| start as int <= m < i as int ==> is_digit(#[trigger] s@[m]),
        decreases end - i,
    {
        let b = s[i];
        if b < DIGIT_ZERO || b > DIGIT_NINE {
            proof {
                assert(t[i as int - start as int] == s@[i as int]);
                assert(!is_digit(t[i as int - start as int]));
            }
            return Err(Error::ParseError);
        }
        let d = (b - DIGIT_ZERO) as usize;
        proof {
            let t1 = s@.subrange(start as int, i as int + 1);
            assert(t1.drop_last() =~= s@.subrange(start as int, i as int));
            assert(t1.last() == s@[i as int]);
            assert(dec_value(t1) == 10 * (v as int) + d as int);
        }
        if v > (usize::MAX - d) / 10 {
            proof {
                let k = i as int - start as int + 1;
                assert(t.take(k) =~= s@.subrange(start as int, i as int + 1));
                assert(dec_value(t.take(k)) == 10 * (v as int) + d as int);
                assert(10 * (v as int) + d as int > usize::MAX as int);
                if forall|m: int| 0 <= m < t.len() ==> is_digit(#[trigger] t[m]) {
                    lemma_dec_value_prefix(t, k);
                    assert(dec_value(t) > usize::MAX as int);
                }
                assert(!is_usize_text(t));
            }
            return Err(Error::ParseError);
        }
        v = v * 10 + d;
        i = i + 1;
        proof {
            assert(s@.subrange(start as int, i as int) =~= t.take(i as int - start as int));
        }
    }
    proof {
        assert(t =~= s@.subrange(start as int, end as int));
        assert forall|m: int| 0 <= m < t.len() implies is_digit(#[trigger] t[m]) by {
            assert(t[m] == s@[start as int + m]);
        }
    }
    Ok(v)
}

} // verus!
