//! The text of a ledger, byte by byte: lines, the fields of a line, and
//! the integers and mode letters that fields spell.

use vstd::prelude::*;

verus! {

/// The blank.
pub const BLANK: u8 = 32;

/// The horizontal tab, the first of the five white-space controls.
pub const TAB: u8 = 9;

/// The line feed, which ends a line.
pub const LINE_FEED: u8 = 10;

/// The carriage return, the last of the five white-space controls.
pub const CARRIAGE_RETURN: u8 = 13;

/// The plus sign.
pub const PLUS: u8 = 43;

/// The minus sign.
pub const MINUS: u8 = 45;

/// The digit `0`.
pub const DIGIT_0: u8 = 48;

/// The digit `9`.
pub const DIGIT_9: u8 = 57;

/// The largest magnitude that an `i32` holds: that of `i32::MIN`.
pub const MAGNITUDE: i64 = 2147483648;

/// White space: the blank and the five control characters from tab to
/// carriage return.
pub open spec fn is_space(b: u8) -> bool {
    b == BLANK || TAB <= b <= CARRIAGE_RETURN
}

/// A decimal digit.
pub open spec fn is_digit(b: u8) -> bool {
    DIGIT_0 <= b <= DIGIT_9
}

/// Whether every byte of `s` is a decimal digit.
pub open spec fn all_digits(s: Seq<u8>) -> bool {
    forall|i: int| 0 <= i < s.len() ==> is_digit(#[trigger] s[i])
}

/// The number that a run of decimal digits spells; 0 for the empty run.
pub open spec fn digits_value(digits: Seq<u8>) -> int
    decreases digits.len(),
{
    if digits.len() == 0 {
        0
    } else {
        10 * digits_value(digits.drop_last()) + (digits.last() - DIGIT_0)
    }
}

/// The integer that a token spells: an optional sign, then one or more
/// decimal digits, the whole within the range of `i32`.
pub open spec fn int_token(token: Seq<u8>) -> Option<int> {
    let signed = token.len() > 0 && (token[0] == PLUS || token[0] == MINUS);
    let digits = if signed {
        token.drop_first()
    } else {
        token
    };
    let value = if signed && token[0] == MINUS {
        -digits_value(digits)
    } else {
        digits_value(digits)
    };
    if digits.len() > 0 && all_digits(digits) && i32::MIN <= value <= i32::MAX {
        Some(value)
    } else {
        None
    }
}

/// A longer run of digits spells no smaller number.
proof fn lemma_digits_value_grows(digits: Seq<u8>, n: int)
    requires
        0 <= n <= digits.len(),
        all_digits(digits),
    ensures
        0 <= digits_value(digits.take(n)) <= digits_value(digits),
    decreases digits.len() - n,
{
    if n == digits.len() {
        assert(digits.take(n) =~= digits);
        lemma_digits_value_nonnegative(digits);
    } else {
        lemma_digits_value_grows(digits, n + 1);
        assert(digits.take(n + 1).drop_last() =~= digits.take(n));
        lemma_digits_value_nonnegative(digits.take(n));
    }
}

/// No run of digits spells a negative number.
proof fn lemma_digits_value_nonnegative(digits: Seq<u8>)
    requires
        all_digits(digits),
    ensures
        0 <= digits_value(digits),
    decreases digits.len(),
{
    if digits.len() > 0 {
        lemma_digits_value_nonnegative(digits.drop_last());
    }
}

/// Reads a token as an `i32`: an optional `+` or `-`, then decimal
/// digits and nothing else. `None` where the token is not of that form
/// or spells a number outside the range of `i32`.
pub fn parse_int(token: &[u8]) -> (r: Option<i32>)
    ensures
        match r {
            Some(v) => int_token(token@) == Some(v as int),
            None => int_token(token@) is None,
        },
{
    let len: usize = token.len();
    if len == 0 {
        return None;
    }
    let first: u8 = token[0];
    let signed: bool = first == PLUS || first == MINUS;
    let negative: bool = first == MINUS;
    let start: usize = if signed {
        1
    } else {
        0
    };
    if start == len {
        return None;
    }
    let ghost digits: Seq<u8> = if signed {
        token@.drop_first()
    } else {
        token@
    };
    let mut acc: i64 = 0;
    let mut i: usize = start;
    while i < len
        invariant
            start <= i <= len,
            len == token@.len(),
            signed == (token@[0] == PLUS || token@[0] == MINUS),
            start == if signed { 1int } else { 0int },
            digits == if signed { token@.drop_first() } else { token@ },
            forall|k: int| 0 <= k < i - start ==> is_digit(#[trigger] digits[k]),
            acc == digits_value(digits.take(i - start)),
            0 <= acc <= MAGNITUDE,
        decreases len - i,
    {
        let b: u8 = token[i];
        if b < DIGIT_0 || b > DIGIT_9 {
            assert(!is_digit(digits[i - start]));
            assert(!all_digits(digits));
            return None;
        }
        assert(digits.take(i - start + 1).drop_last() =~= digits.take(i - start));
        acc = acc * 10 + (b - DIGIT_0) as i64;
        i = i + 1;
        if acc > MAGNITUDE {
            proof {
                if all_digits(digits) {
                    lemma_digits_value_grows(digits, i - start);
                }
            }
            return None;
        }
    }
    assert(digits.take(i - start) =~= digits);
    if negative {
        Some((-acc) as i32)
    } else if acc < MAGNITUDE {
        Some(acc as i32)
    } else {
        None
    }
}

/// The number of bytes that `s` begins with before its first white
/// space; all of them where it has none.
pub open spec fn word_len(s: Seq<u8>) -> nat
    decreases s.len(),
{
    if s.len() > 0 && !is_space(s[0]) {
        1 + word_len(s.drop_first())
    } else {
        0
    }
}

/// The fields of a line: its longest runs of bytes that are not white
/// space, from left to right.
pub open spec fn fields(s: Seq<u8>) -> Seq<Seq<u8>>
    decreases s.len(),
{
    if s.len() == 0 {
        Seq::empty()
    } else if is_space(s[0]) {
        fields(s.drop_first())
    } else {
        let n = word_len(s);
        proof {
            lemma_word_len_bounds(s);
        }
        seq![s.take(n as int)] + fields(s.skip(n as int))
    }
}

/// The number of bytes that `s` begins with before its first line feed;
/// all of them where it has none.
pub open spec fn line_len(s: Seq<u8>) -> nat
    decreases s.len(),
{
    if s.len() > 0 && s[0] != LINE_FEED {
        1 + line_len(s.drop_first())
    } else {
        0
    }
}

/// The lines of a text: what stands between its line feeds. A text
/// that ends in a line feed has no empty last line, and the empty text
/// has no line at all.
pub open spec fn lines(s: Seq<u8>) -> Seq<Seq<u8>>
    decreases s.len(),
{
    if s.len() == 0 {
        Seq::empty()
    } else {
        let n = line_len(s);
        proof {
            lemma_line_len_bounds(s);
        }
        if n == s.len() {
            seq![s]
        } else {
            seq![s.take(n as int)] + lines(s.skip(n as int + 1))
        }
    }
}

/// What `word_len` counts: the bytes before the first white space.
pub proof fn lemma_word_len_bounds(s: Seq<u8>)
    ensures
        word_len(s) <= s.len(),
        s.len() > 0 && !is_space(s[0]) ==> word_len(s) >= 1,
        word_len(s) < s.len() ==> is_space(s[word_len(s) as int]),
        forall|i: int| 0 <= i < word_len(s) ==> !is_space(#[trigger] s[i]),
    decreases s.len(),
{
    if s.len() > 0 && !is_space(s[0]) {
        let t = s.drop_first();
        lemma_word_len_bounds(t);
        assert forall|i: int| 0 <= i < word_len(s) implies !is_space(#[trigger] s[i]) by {
            if i > 0 {
                assert(s[i] == t[i - 1]);
            }
        }
    }
}

/// What `line_len` counts: the bytes before the first line feed.
pub proof fn lemma_line_len_bounds(s: Seq<u8>)
    ensures
        line_len(s) <= s.len(),
        line_len(s) < s.len() ==> s[line_len(s) as int] == LINE_FEED,
        forall|i: int| 0 <= i < line_len(s) ==> #[trigger] s[i] != LINE_FEED,
    decreases s.len(),
{
    if s.len() > 0 && s[0] != LINE_FEED {
        let t = s.drop_first();
        lemma_line_len_bounds(t);
        assert forall|i: int| 0 <= i < line_len(s) implies #[trigger] s[i] != LINE_FEED by {
            if i > 0 {
                assert(s[i] == t[i - 1]);
            }
        }
    }
}

/// Whether `w` has at least one byte and no white space.
pub open spec fn is_word(w: Seq<u8>) -> bool {
    w.len() > 0 && forall|j: int| 0 <= j < w.len() ==> !is_space(#[trigger] w[j])
}

/// Whether `l` holds no line feed.
pub open spec fn is_line(l: Seq<u8>) -> bool {
    forall|j: int| 0 <= j < l.len() ==> #[trigger] l[j] != LINE_FEED
}

/// Every field has at least one byte, and none of its bytes is white
/// space.
pub proof fn lemma_fields_are_words(s: Seq<u8>)
    ensures
        forall|i: int| 0 <= i < fields(s).len() ==> is_word(#[trigger] fields(s)[i]),
    decreases s.len(),
{
    if s.len() > 0 && is_space(s[0]) {
        lemma_fields_are_words(s.drop_first());
        assert(fields(s) == fields(s.drop_first()));
    } else if s.len() > 0 {
        let n = word_len(s) as int;
        lemma_word_len_bounds(s);
        lemma_fields_are_words(s.skip(n));
        let rest = fields(s.skip(n));
        assert forall|i: int| 0 <= i < fields(s).len() implies is_word(
            #[trigger] fields(s)[i],
        ) by {
            if i == 0 {
                assert(fields(s)[0] == s.take(n));
            } else {
                assert(fields(s)[i] == rest[i - 1]);
            }
        }
    }
}

/// No line holds a line feed.
pub proof fn lemma_lines_hold_no_line_feed(s: Seq<u8>)
    ensures
        forall|i: int| 0 <= i < lines(s).len() ==> is_line(#[trigger] lines(s)[i]),
    decreases s.len(),
{
    if s.len() > 0 {
        let n = line_len(s) as int;
        lemma_line_len_bounds(s);
        if n < s.len() {
            lemma_lines_hold_no_line_feed(s.skip(n + 1));
            let rest = lines(s.skip(n + 1));
            assert forall|i: int| 0 <= i < lines(s).len() implies is_line(
                #[trigger] lines(s)[i],
            ) by {
                if i == 0 {
                    assert(lines(s)[0] == s.take(n));
                } else {
                    assert(lines(s)[i] == rest[i - 1]);
                }
            }
        }
    }
}

/// The byte sequences that a vector of slices holds.
pub open spec fn views(parts: Seq<&[u8]>) -> Seq<Seq<u8>> {
    Seq::new(parts.len(), |i: int| parts[i]@)
}

/// Whether `b` is white space.
fn space(b: u8) -> (r: bool)
    ensures
        r == is_space(b),
{
    b == BLANK || (TAB <= b && b <= CARRIAGE_RETURN)
}

/// Splits a line into its fields.
pub fn split_fields(line: &[u8]) -> (out: Vec<&[u8]>)
    ensures
        views(out@) == fields(line@),
{
    let len: usize = line.len();
    let mut out: Vec<&[u8]> = Vec::new();
    let mut pos: usize = 0;
    assert(line@.skip(0) =~= line@);
    while pos < len
        invariant
            pos <= len,
            len == line@.len(),
            fields(line@) == views(out@) + fields(line@.skip(pos as int)),
        decreases len - pos,
    {
        let ghost rest = line@.skip(pos as int);
        if space(line[pos]) {
            assert(rest.drop_first() =~= line@.skip(pos + 1));
            pos = pos + 1;
        } else {
            let start: usize = pos;
            let mut end: usize = pos + 1;
            assert(rest.drop_first() =~= line@.skip(end as int));
            while end < len && !space(line[end])
                invariant
                    start < end <= len,
                    len == line@.len(),
                    word_len(line@.skip(start as int)) == (end - start) + word_len(
                        line@.skip(end as int),
                    ),
                decreases len - end,
            {
                assert(line@.skip(end as int).drop_first() =~= line@.skip(end + 1));
                end = end + 1;
            }
            let field: &[u8] = &line[start..end];
            proof {
                let n = word_len(rest);
                assert(rest.take(n as int) =~= line@.subrange(start as int, end as int));
                assert(rest.skip(n as int) =~= line@.skip(end as int));
            }
            out.push(field);
            pos = end;
        }
    }
    out
}

/// Splits a text into its lines.
pub fn split_lines(text: &[u8]) -> (out: Vec<&[u8]>)
    ensures
        views(out@) == lines(text@),
{
    let len: usize = text.len();
    let mut out: Vec<&[u8]> = Vec::new();
    let mut pos: usize = 0;
    assert(text@.skip(0) =~= text@);
    while pos < len
        invariant
            pos <= len,
            len == text@.len(),
            lines(text@) == views(out@) + lines(text@.skip(pos as int)),
        decreases len - pos,
    {
        let ghost rest = text@.skip(pos as int);
        let start: usize = pos;
        let mut end: usize = pos;
        while end < len && text[end] != LINE_FEED
            invariant
                start <= end <= len,
                len == text@.len(),
                line_len(text@.skip(start as int)) == (end - start) + line_len(
                    text@.skip(end as int),
                ),
            decreases len - end,
        {
            assert(text@.skip(end as int).drop_first() =~= text@.skip(end + 1));
            end = end + 1;
        }
        let line: &[u8] = &text[start..end];
        proof {
            let n = line_len(rest);
            assert(rest.take(n as int) =~= text@.subrange(start as int, end as int));
            if end < len {
                assert(rest.skip(n as int + 1) =~= text@.skip(end + 1));
            }
        }
        out.push(line);
        if end == len {
            pos = len;
        } else {
            pos = end + 1;
        }
    }
    out
}

/// A text has no more lines than bytes, so a text of at most `i32::MAX`
/// bytes has lines enough for `parse_ledger` to number.
pub proof fn lemma_lines_bounded(s: Seq<u8>)
    ensures
        lines(s).len() <= s.len(),
    decreases s.len(),
{
    if s.len() > 0 {
        lemma_line_len_bounds(s);
        let n = line_len(s);
        if n < s.len() {
            lemma_lines_bounded(s.skip(n as int + 1));
        }
    }
}

} // verus!
