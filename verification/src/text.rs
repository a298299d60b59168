//! Character-level helpers shared by the matcher, the range parser and the
//! command builder: case folding, white space, decimal numbers, and moving
//! between strings and character vectors.

use vstd::prelude::*;

verus! {

/// The ASCII lower-case form of `c`: `'A'..='Z'` move to `'a'..='z'`, every
/// other character stays as it is.
pub open spec fn lower(c: char) -> char {
    if 'A' <= c && c <= 'Z' {
        ((c as u32) + 32) as char
    } else {
        c
    }
}

/// Whether `c` is one of the characters Unicode marks as white space.
pub open spec fn is_space(c: char) -> bool {
    let u = c as u32;
    ||| 0x09 <= u <= 0x0d
    ||| u == 0x20
    ||| u == 0x85
    ||| u == 0xa0
    ||| u == 0x1680
    ||| 0x2000 <= u <= 0x200a
    ||| u == 0x2028
    ||| u == 0x2029
    ||| u == 0x202f
    ||| u == 0x205f
    ||| u == 0x3000
}

/// Whether `c` is one of `'0'..='9'`.
pub open spec fn is_digit(c: char) -> bool {
    '0' <= c && c <= '9'
}

/// The number a decimal digit stands for.
pub open spec fn digit_value(c: char) -> nat
    recommends
        is_digit(c),
{
    ((c as u32) - 48) as nat
}

/// The character that writes the digit `d`.
pub open spec fn digit_char(d: nat) -> char
    recommends
        d < 10,
{
    ((48 + d) as u8) as char
}

/// Whether every character of `s` is a decimal digit.
pub open spec fn all_digits(s: Seq<char>) -> bool {
    forall|i: int| 0 <= i < s.len() ==> is_digit(#[trigger] s[i])
}

/// Whether every character of `s` is white space.
pub open spec fn all_spaces(s: Seq<char>) -> bool {
    forall|i: int| 0 <= i < s.len() ==> is_space(#[trigger] s[i])
}

/// The number that the digits of `s` write in base ten; the empty sequence
/// writes zero.
pub open spec fn digits_value(s: Seq<char>) -> nat
    decreases s.len(),
{
    if s.len() == 0 {
        0
    } else {
        digits_value(s.drop_last()) * 10 + digit_value(s.last())
    }
}

/// `n` written in base ten without a sign and without leading zeros.
pub open spec fn decimal(n: nat) -> Seq<char>
    decreases n,
{
    if n < 10 {
        seq![digit_char(n)]
    } else {
        decimal(n / 10).push(digit_char(n % 10))
    }
}

/// `s` without the white space at its start.
pub open spec fn trim_start(s: Seq<char>) -> Seq<char>
    decreases s.len(),
{
    if s.len() > 0 && is_space(s[0]) {
        trim_start(s.drop_first())
    } else {
        s
    }
}

/// `s` without the white space at its end.
pub open spec fn trim_end(s: Seq<char>) -> Seq<char>
    decreases s.len(),
{
    if s.len() > 0 && is_space(s.last()) {
        trim_end(s.drop_last())
    } else {
        s
    }
}

/// `s` without the white space at either end.
pub open spec fn trim(s: Seq<char>) -> Seq<char> {
    trim_end(trim_start(s))
}

/// `String::push` appends one character.
pub assume_specification[ String::push ](s: &mut String, ch: char)
    ensures
        final(s)@ == old(s)@.push(ch),
;

/// Lower-cases one character the ASCII way.
pub fn to_lower(c: char) -> (r: char)
    ensures
        r == lower(c),
{
    let u: u32 = c as u32;
    if 65 <= u && u <= 90 {
        let b: u8 = (u + 32) as u8;
        b as char
    } else {
        c
    }
}

/// Tells whether `c` is white space.
pub fn is_whitespace(c: char) -> (r: bool)
    ensures
        r == is_space(c),
{
    let u: u32 = c as u32;
    (0x09 <= u && u <= 0x0d) || u == 0x20 || u == 0x85 || u == 0xa0 || u == 0x1680 || (0x2000 <= u
        && u <= 0x200a) || u == 0x2028 || u == 0x2029 || u == 0x202f || u == 0x205f || u == 0x3000
}

/// Tells whether `c` is a decimal digit.
pub fn is_decimal_digit(c: char) -> (r: bool)
    ensures
        r == is_digit(c),
{
    let u: u32 = c as u32;
    48 <= u && u <= 57
}

/// The characters of `s`, in order.
pub fn chars_of(s: &str) -> (v: Vec<char>)
    ensures
        v@ == s@,
{
    let mut v: Vec<char> = Vec::new();
    for c in it: s.chars()
        invariant
            it.seq() == s@,
            v@ == it.seq().take(it.index() as int),
    {
        v.push(c);
    }
    v
}

/// Appends the characters `v[from..to]` to `out`.
pub fn push_chars(out: &mut String, v: &Vec<char>, from: usize, to: usize)
    requires
        from <= to <= v@.len(),
    ensures
        final(out)@ == old(out)@ + v@.subrange(from as int, to as int),
{
    let mut i: usize = from;
    while i < to
        invariant
            from <= i <= to <= v@.len(),
            out@ == old(out)@ + v@.subrange(from as int, i as int),
        decreases to - i,
    {
        out.push(v[i]);
        i += 1;
    }
}

/// Appends `n` in base ten to `out`.
pub fn push_decimal(out: &mut String, n: u32)
    ensures
        final(out)@ == old(out)@ + decimal(n as nat),
    decreases n,
{
    if n >= 10 {
        push_decimal(out, n / 10);
    }
    let d: u8 = (n % 10) as u8;
    out.push((48 + d) as char);
}

/// Reads the digits `v[from..to]` as a number in base ten. The result is
/// `None` exactly when the number does not fit in 32 bits.
pub fn read_decimal(v: &Vec<char>, from: usize, to: usize) -> (r: Option<u32>)
    requires
        from <= to <= v@.len(),
        all_digits(v@.subrange(from as int, to as int)),
    ensures
        r == (if digits_value(v@.subrange(from as int, to as int)) <= u32::MAX {
            Some(digits_value(v@.subrange(from as int, to as int)) as u32)
        } else {
            None
        }),
{
    let ghost whole = v@.subrange(from as int, to as int);
    let mut acc: u64 = 0;
    let mut i: usize = from;
    while i < to
        invariant
            from <= i <= to <= v@.len(),
            whole == v@.subrange(from as int, to as int),
            all_digits(whole),
            acc == digits_value(v@.subrange(from as int, i as int)),
            acc <= u32::MAX,
        decreases to - i,
    {
        let c: char = v[i];
        assert(c == whole[i - from]);
        let d: u64 = (c as u32 - 48) as u64;
        let next: u64 = acc * 10 + d;
        proof {
            let upto = v@.subrange(from as int, i + 1);
            assert(upto.drop_last() == v@.subrange(from as int, i as int));
            assert(upto == whole.take(i + 1 - from));
        }
        if next > 0xffff_ffff {
            proof {
                lemma_digits_value_prefix(whole, i + 1 - from);
            }
            return None;
        }
        acc = next;
        i += 1;
    }
    Some(acc as u32)
}

/// The white space at both ends of `v` marked off: the result `(lo, hi)`
/// frames what `trim` keeps.
pub fn trim_bounds(v: &Vec<char>) -> (r: (usize, usize))
    ensures
        r.0 <= r.1 <= v@.len(),
        v@.subrange(r.0 as int, r.1 as int) == trim(v@),
{
    let n: usize = v.len();
    let mut lo: usize = 0;
    assert(v@.subrange(0, n as int) == v@);
    while lo < n && is_whitespace(v[lo])
        invariant
            lo <= n == v@.len(),
            trim_start(v@) == trim_start(v@.subrange(lo as int, n as int)),
        decreases n - lo,
    {
        assert(v@.subrange(lo as int, n as int).drop_first() == v@.subrange(lo + 1, n as int));
        lo += 1;
    }
    let mut hi: usize = n;
    while hi > lo && is_whitespace(v[hi - 1])
        invariant
            lo <= hi <= n == v@.len(),
            trim(v@) == trim_end(v@.subrange(lo as int, hi as int)),
        decreases hi,
    {
        assert(v@.subrange(lo as int, hi as int).drop_last() == v@.subrange(lo as int, hi - 1));
        hi -= 1;
    }
    (lo, hi)
}

/// A leading part of a digit sequence writes a number no larger than the
/// whole sequence does.
pub proof fn lemma_digits_value_prefix(s: Seq<char>, n: int)
    requires
        0 <= n <= s.len(),
    ensures
        digits_value(s.take(n)) <= digits_value(s),
    decreases s.len(),
{
    if n == s.len() {
        assert(s.take(n) == s);
    } else {
        lemma_digits_value_prefix(s.drop_last(), n);
        assert(s.drop_last().take(n) == s.take(n));
    }
}

/// A number written in base ten is made of digits, at least one, and
/// reads back as itself.
pub proof fn lemma_decimal_reads_back(n: nat)
    ensures
        decimal(n).len() > 0,
        all_digits(decimal(n)),
        digits_value(decimal(n)) == n,
    decreases n,
{
    if n < 10 {
        assert(digits_value(decimal(n).drop_last()) == 0);
    } else {
        lemma_decimal_reads_back(n / 10);
        assert(decimal(n).drop_last() == decimal(n / 10));
    }
}

/// White space in front of a text does not change what is left of it once
/// the white space at its start is taken away.
pub proof fn lemma_trim_start_skips(pad: Seq<char>, rest: Seq<char>)
    requires
        all_spaces(pad),
    ensures
        trim_start(pad + rest) == trim_start(rest),
    decreases pad.len(),
{
    if pad.len() == 0 {
        assert(pad + rest == rest);
    } else {
        assert((pad + rest).drop_first() == pad.drop_first() + rest);
        lemma_trim_start_skips(pad.drop_first(), rest);
    }
}

/// White space behind a text does not change what is left of it once the
/// white space at its end is taken away.
pub proof fn lemma_trim_end_skips(rest: Seq<char>, pad: Seq<char>)
    requires
        all_spaces(pad),
    ensures
        trim_end(rest + pad) == trim_end(rest),
    decreases pad.len(),
{
    if pad.len() == 0 {
        assert(rest + pad == rest);
    } else {
        assert((rest + pad).drop_last() == rest + pad.drop_last());
        lemma_trim_end_skips(rest, pad.drop_last());
    }
}

/// A text between two runs of white space is what `trim` keeps, provided
/// the text itself neither begins nor ends with white space.
pub proof fn lemma_trim_padded(before: Seq<char>, core: Seq<char>, behind: Seq<char>)
    requires
        all_spaces(before),
        all_spaces(behind),
        core.len() > 0 ==> !is_space(core[0]) && !is_space(core.last()),
    ensures
        trim(before + core + behind) == core,
{
    assert(before + core + behind == before + (core + behind));
    lemma_trim_start_skips(before, core + behind);
    if core.len() == 0 {
        lemma_trim_start_skips(behind, Seq::<char>::empty());
    } else {
        lemma_trim_end_skips(core, behind);
    }
}

} // verus!
