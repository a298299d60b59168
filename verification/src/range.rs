//! Page ranges as the user writes them: `7`, or `2-14`.

use crate::error::{Error, ErrorClass};
use crate::text::{
    all_digits, all_spaces, chars_of, decimal, digits_value, is_decimal_digit, is_digit, is_space,
    is_whitespace, lemma_decimal_reads_back, lemma_trim_padded, push_chars, read_decimal, trim,
    trim_bounds,
};
use std::ops::RangeInclusive;
use vstd::prelude::*;
use vstd::string::*;

verus! {

/// Where the run of digits that starts at `from` ends: the first position at
/// or after `from` that holds no digit.
pub open spec fn digits_end(s: Seq<char>, from: int) -> int
    decreases s.len() - from,
{
    if 0 <= from < s.len() && is_digit(s[from]) {
        digits_end(s, from + 1)
    } else {
        from
    }
}

/// Where the run of white space that starts at `from` ends.
pub open spec fn spaces_end(s: Seq<char>, from: int) -> int
    decreases s.len() - from,
{
    if 0 <= from < s.len() && is_space(s[from]) {
        spaces_end(s, from + 1)
    } else {
        from
    }
}

/// Whether `t` is one number: digits and nothing else.
pub open spec fn is_single(t: Seq<char>) -> bool {
    t.len() > 0 && all_digits(t)
}

/// The two numbers of `t` where `t` is digits, a hyphen and digits, with
/// any white space on either side of the hyphen.
pub open spec fn split_pair(t: Seq<char>) -> Option<(Seq<char>, Seq<char>)> {
    let a = digits_end(t, 0);
    let b = spaces_end(t, a);
    let c = spaces_end(t, b + 1);
    if 0 < a && b < t.len() && t[b] == '-' && c < t.len() && digits_end(t, c) == t.len() {
        Some((t.subrange(0, a), t.subrange(c, t.len() as int)))
    } else {
        None
    }
}

/// The reason given for a text that is no range: it quotes the text without
/// the white space at its ends.
pub open spec fn no_range(t: Seq<char>) -> Seq<char> {
    "could not parse \""@ + t + "\" as range."@
}

/// What the text of a range means: its first and last page, or the reason
/// why it means nothing. A range never ends before it begins: two numbers of
/// which the first is the larger are no range.
pub open spec fn range_of(part: Seq<char>) -> Result<(u32, u32), Seq<char>> {
    let t = trim(part);
    if is_single(t) {
        if digits_value(t) <= u32::MAX {
            Ok((digits_value(t) as u32, digits_value(t) as u32))
        } else {
            Err("failed to parse int"@)
        }
    } else {
        match split_pair(t) {
            Some((first, last)) => {
                if digits_value(first) > u32::MAX || digits_value(last) > u32::MAX {
                    Err("failed to parse int"@)
                } else if digits_value(first) <= digits_value(last) {
                    Ok((digits_value(first) as u32, digits_value(last) as u32))
                } else {
                    Err(no_range(t))
                }
            },
            None => Err(no_range(t)),
        }
    }
}

/// Finds the end of the digits that start at `from`.
fn scan_digits(t: &Vec<char>, from: usize) -> (r: usize)
    requires
        from <= t@.len(),
    ensures
        r == digits_end(t@, from as int),
        from <= r <= t@.len(),
        all_digits(t@.subrange(from as int, r as int)),
{
    let mut i: usize = from;
    while i < t.len() && is_decimal_digit(t[i])
        invariant
            from <= i <= t@.len(),
            digits_end(t@, from as int) == digits_end(t@, i as int),
            all_digits(t@.subrange(from as int, i as int)),
        decreases t@.len() - i,
    {
        i += 1;
    }
    i
}

/// Finds the end of the white space that starts at `from`.
fn scan_spaces(t: &Vec<char>, from: usize) -> (r: usize)
    requires
        from <= t@.len(),
    ensures
        r == spaces_end(t@, from as int),
        from <= r <= t@.len(),
{
    let mut i: usize = from;
    while i < t.len() && is_whitespace(t[i])
        invariant
            from <= i <= t@.len(),
            spaces_end(t@, from as int) == spaces_end(t@, i as int),
        decreases t@.len() - i,
    {
        i += 1;
    }
    i
}

/// The failure for a text that is no range.
fn malformed(t: &Vec<char>) -> (e: Error)
    ensures
        e.class_of() == ErrorClass::Validation,
        e.text() == no_range(t@),
{
    let mut message = String::new();
    message.append("could not parse \"");
    push_chars(&mut message, t, 0, t.len());
    message.append("\" as range.");
    Error::user(message.as_str())
}

/// Reads a page range: one number, or two with a hyphen between them, the
/// second no smaller than the first. White space is allowed at both ends and
/// on either side of the hyphen.
pub fn parse_range(part: &str) -> (r: Result<RangeInclusive<u32>, Error>)
    ensures
        match r {
            Ok(range) => range_of(part@) == Ok::<(u32, u32), Seq<char>>(
                (range@.start, range@.end),
            ) && range@.start <= range@.end && !range@.exhausted,
            Err(e) => e.class_of() == ErrorClass::Validation && range_of(part@) == Err::<
                (u32, u32),
                Seq<char>,
            >(e.text()),
        },
{
    let all = chars_of(part);
    let (lo, hi) = trim_bounds(&all);
    let mut t: Vec<char> = Vec::new();
    let mut k: usize = lo;
    while k < hi
        invariant
            lo <= k <= hi <= all@.len(),
            t@ == all@.subrange(lo as int, k as int),
        decreases hi - k,
    {
        t.push(all[k]);
        k += 1;
    }
    let n: usize = t.len();
    let a: usize = scan_digits(&t, 0);
    if a == n && n > 0 {
        assert(t@.subrange(0, n as int) == t@);
        return match read_decimal(&t, 0, n) {
            Some(page) => Ok(RangeInclusive::new(page, page)),
            None => Err(Error::user("failed to parse int")),
        };
    }
    assert(!is_single(t@)) by {
        if is_single(t@) {
            lemma_digits_end_all(t@, 0);
        }
    }
    let b: usize = scan_spaces(&t, a);
    if a > 0 && b < n && t[b] == '-' {
        let c: usize = scan_spaces(&t, b + 1);
        let d: usize = scan_digits(&t, c);
        if c < n && d == n {
            let first = read_decimal(&t, 0, a);
            let last = read_decimal(&t, c, n);
            return match (first, last) {
                (Some(x), Some(y)) => {
                    if x <= y {
                        Ok(RangeInclusive::new(x, y))
                    } else {
                        Err(malformed(&t))
                    }
                },
                _ => Err(Error::user("failed to parse int")),
            };
        }
    }
    Err(malformed(&t))
}

/// A sequence of digits is one run of digits from any of its positions.
pub proof fn lemma_digits_end_all(s: Seq<char>, from: int)
    requires
        all_digits(s),
        0 <= from <= s.len(),
    ensures
        digits_end(s, from) == s.len(),
    decreases s.len() - from,
{
    if from < s.len() {
        lemma_digits_end_all(s, from + 1);
    }
}

/// The run of digits that starts at `from` holds digits only, and ends at
/// the end of the text or before a character that is no digit.
pub proof fn lemma_digits_end(s: Seq<char>, from: int)
    requires
        0 <= from <= s.len(),
    ensures
        from <= digits_end(s, from) <= s.len(),
        all_digits(s.subrange(from, digits_end(s, from))),
        digits_end(s, from) < s.len() ==> !is_digit(s[digits_end(s, from)]),
    decreases s.len() - from,
{
    if from < s.len() && is_digit(s[from]) {
        lemma_digits_end(s, from + 1);
        let to = digits_end(s, from);
        assert forall|i: int| 0 <= i < to - from implies is_digit(
            #[trigger] s.subrange(from, to)[i],
        ) by {
            if i > 0 {
                assert(s.subrange(from, to)[i] == s.subrange(from + 1, to)[i - 1]);
            }
        }
    }
}

/// The run of white space that starts at `from` holds white space only,
/// and ends at the end of the text or before a character of another kind.
pub proof fn lemma_spaces_end(s: Seq<char>, from: int)
    requires
        0 <= from <= s.len(),
    ensures
        from <= spaces_end(s, from) <= s.len(),
        all_spaces(s.subrange(from, spaces_end(s, from))),
        spaces_end(s, from) < s.len() ==> !is_space(s[spaces_end(s, from)]),
    decreases s.len() - from,
{
    if from < s.len() && is_space(s[from]) {
        lemma_spaces_end(s, from + 1);
        let to = spaces_end(s, from);
        assert forall|i: int| 0 <= i < to - from implies is_space(
            #[trigger] s.subrange(from, to)[i],
        ) by {
            if i > 0 {
                assert(s.subrange(from, to)[i] == s.subrange(from + 1, to)[i - 1]);
            }
        }
    }
}

/// A stretch of digits that ends at the end of the text, or before a
/// character that is no digit, is the run of digits from its start.
pub proof fn lemma_digits_run(s: Seq<char>, from: int, to: int)
    requires
        0 <= from <= to <= s.len(),
        forall|i: int| from <= i < to ==> is_digit(#[trigger] s[i]),
        to < s.len() ==> !is_digit(s[to]),
    ensures
        digits_end(s, from) == to,
    decreases to - from,
{
    if from < to {
        lemma_digits_run(s, from + 1, to);
    }
}

/// A stretch of white space that ends at the end of the text, or before a
/// character of another kind, is the run of white space from its start.
pub proof fn lemma_spaces_run(s: Seq<char>, from: int, to: int)
    requires
        0 <= from <= to <= s.len(),
        forall|i: int| from <= i < to ==> is_space(#[trigger] s[i]),
        to < s.len() ==> !is_space(s[to]),
    ensures
        spaces_end(s, from) == to,
    decreases to - from,
{
    if from < to {
        lemma_spaces_run(s, from + 1, to);
    }
}

/// Digits, white space, a hyphen, white space and digits are split into the
/// two stretches of digits.
pub proof fn lemma_split_pair_finds(
    first: Seq<char>,
    gap: Seq<char>,
    space: Seq<char>,
    last: Seq<char>,
)
    requires
        first.len() > 0,
        all_digits(first),
        all_spaces(gap),
        all_spaces(space),
        last.len() > 0,
        all_digits(last),
    ensures
        split_pair(first + gap + seq!['-'] + space + last) == Some((first, last)),
        !is_single(first + gap + seq!['-'] + space + last),
{
    let t = first + gap + seq!['-'] + space + last;
    let a = first.len() as int;
    let b = a + gap.len();
    let c = b + 1 + space.len();
    assert forall|i: int| 0 <= i < a implies is_digit(#[trigger] t[i]) by {
        assert(t[i] == first[i]);
    }
    assert forall|i: int| a <= i < b implies is_space(#[trigger] t[i]) by {
        assert(t[i] == gap[i - a]);
    }
    assert forall|i: int| b + 1 <= i < c implies is_space(#[trigger] t[i]) by {
        assert(t[i] == space[i - b - 1]);
    }
    assert forall|i: int| c <= i < t.len() implies is_digit(#[trigger] t[i]) by {
        assert(t[i] == last[i - c]);
    }
    assert(t[b] == '-');
    lemma_digits_run(t, 0, a);
    lemma_spaces_run(t, a, b);
    lemma_spaces_run(t, b + 1, c);
    lemma_digits_run(t, c, t.len() as int);
}

/// What `split_pair` finds are two stretches of digits, neither empty, that
/// stand in the text with nothing but white space and one hyphen between
/// them.
pub proof fn lemma_split_pair_shape(t: Seq<char>)
    requires
        split_pair(t) is Some,
    ensures
        ({
            let (first, last) = split_pair(t)->0;
            &&& first.len() > 0
            &&& all_digits(first)
            &&& last.len() > 0
            &&& all_digits(last)
            &&& exists|gap: Seq<char>, space: Seq<char>|
                all_spaces(gap) && all_spaces(space) && t == first + gap + seq!['-'] + space + last
        }),
{
    let a = digits_end(t, 0);
    lemma_digits_end(t, 0);
    let b = spaces_end(t, a);
    lemma_spaces_end(t, a);
    let c = spaces_end(t, b + 1);
    lemma_spaces_end(t, b + 1);
    lemma_digits_end(t, c);
    let first = t.subrange(0, a);
    let last = t.subrange(c, t.len() as int);
    let gap = t.subrange(a, b);
    let space = t.subrange(b + 1, c);
    assert(t =~= first + gap + seq!['-'] + space + last);
}

/// One number, with any white space before and behind it, is the range of
/// that one page.
pub proof fn lemma_single_number(before: Seq<char>, page: u32, behind: Seq<char>)
    requires
        all_spaces(before),
        all_spaces(behind),
    ensures
        range_of(before + decimal(page as nat) + behind) == Ok::<(u32, u32), Seq<char>>(
            (page, page),
        ),
{
    let digits = decimal(page as nat);
    lemma_decimal_reads_back(page as nat);
    lemma_trim_padded(before, digits, behind);
}

/// Two numbers with a hyphen between them, the second no smaller than the
/// first, are the range from the first to the second; white space may stand
/// at both ends and on either side of the hyphen. Where the first number is
/// the larger the text is refused as no range.
pub proof fn lemma_number_pair(
    before: Seq<char>,
    first: u32,
    gap: Seq<char>,
    space: Seq<char>,
    last: u32,
    behind: Seq<char>,
)
    requires
        all_spaces(before),
        all_spaces(gap),
        all_spaces(space),
        all_spaces(behind),
    ensures
        ({
            let core = decimal(first as nat) + gap + seq!['-'] + space + decimal(last as nat);
            range_of(before + core + behind) == if first <= last {
                Ok::<(u32, u32), Seq<char>>((first, last))
            } else {
                Err::<(u32, u32), Seq<char>>(no_range(core))
            }
        }),
{
    let d1 = decimal(first as nat);
    let d2 = decimal(last as nat);
    let core = d1 + gap + seq!['-'] + space + d2;
    lemma_decimal_reads_back(first as nat);
    lemma_decimal_reads_back(last as nat);
    lemma_trim_padded(before, core, behind);
    lemma_split_pair_finds(d1, gap, space, d2);
}

/// Every range that a text means begins no later than it ends.
pub proof fn lemma_range_is_ordered(part: Seq<char>)
    ensures
        range_of(part) matches Ok(r) ==> r.0 <= r.1,
{
}

/// A text is refused for one of two reasons only: a number that does not
/// fit in 32 bits, or a form that is no range.
pub proof fn lemma_refusals(part: Seq<char>)
    ensures
        range_of(part) matches Err(reason) ==> reason == "failed to parse int"@ || reason
            == no_range(trim(part)),
{
}

} // verus!
