//! Fuzzy matching of what the user types against the known printer names.

use crate::ansi_colors::{DIM, MAGENTA, RESET};
use crate::text::{chars_of, lower, push_chars, to_lower};
use vstd::prelude::*;
use vstd::string::*;

verus! {

/// The first position at or after `from` where `base` holds `c`, letter case
/// aside; the length of `base` where there is none.
pub open spec fn find_from(base: Seq<char>, from: int, c: char) -> int
    decreases base.len() - from,
{
    if from < 0 || from >= base.len() {
        base.len() as int
    } else if lower(base[from]) == lower(c) {
        from
    } else {
        find_from(base, from + 1, c)
    }
}

/// How many characters of `search` find a partner in `base` when each one
/// looks forward from just behind the partner of the one before it, starting
/// at `cursor`. A character without a partner leaves the cursor where it is.
pub open spec fn matched(base: Seq<char>, cursor: int, search: Seq<char>) -> nat
    decreases search.len(),
{
    if search.len() == 0 {
        0
    } else {
        let at = find_from(base, cursor, search[0]);
        if at < base.len() {
            1 + matched(base, at + 1, search.drop_first())
        } else {
            matched(base, cursor, search.drop_first())
        }
    }
}

/// The score for `hits` matched characters: three for the first and two for
/// each one after it.
pub open spec fn score_of(hits: nat) -> int {
    if hits == 0 {
        0
    } else {
        2 * (hits as int) + 1
    }
}

/// How well `search` matches `base`.
pub open spec fn fuzzy_score(base: Seq<char>, search: Seq<char>) -> int {
    score_of(matched(base, 0, search))
}

/// Finds the first partner of `c` in `base` at or after `from`.
fn find_partner(base: &Vec<char>, from: usize, c: char) -> (at: usize)
    requires
        from <= base@.len(),
    ensures
        at == find_from(base@, from as int, c),
        from <= at <= base@.len(),
{
    let want: char = to_lower(c);
    let mut j: usize = from;
    while j < base.len() && to_lower(base[j]) != want
        invariant
            from <= j <= base@.len(),
            want == lower(c),
            find_from(base@, from as int, c) == find_from(base@, j as int, c),
        decreases base@.len() - j,
    {
        j += 1;
    }
    j
}

/// Counts the characters of `search` that find a partner in `base`.
fn count_hits(base: &Vec<char>, search: &Vec<char>) -> (hits: usize)
    ensures
        hits == matched(base@, 0, search@),
{
    let mut cursor: usize = 0;
    let mut hits: usize = 0;
    let mut k: usize = 0;
    assert(search@.skip(0) == search@);
    while k < search.len()
        invariant
            k <= search@.len(),
            cursor <= base@.len(),
            hits <= cursor,
            matched(base@, 0, search@) == hits + matched(base@, cursor as int, search@.skip(k as int)),
        decreases search@.len() - k,
    {
        let at: usize = find_partner(base, cursor, search[k]);
        assert(search@.skip(k as int).drop_first() == search@.skip(k + 1));
        if at < base.len() {
            hits += 1;
            cursor = at + 1;
        }
        k += 1;
    }
    hits
}

/// Compares two strings and scores how well `search` matches `base`: each
/// character of `search` looks for its partner in `base` behind the partner
/// of the one before it; the first partner found counts three, each later
/// one two.
pub fn fuzzy_compare(base: &str, search: &str) -> (score: i32)
    requires
        fuzzy_score(base@, search@) <= i32::MAX,
    ensures
        score == fuzzy_score(base@, search@),
        score >= 0,
{
    let b = chars_of(base);
    let s = chars_of(search);
    let hits: usize = count_hits(&b, &s);
    if hits == 0 {
        0
    } else {
        (2 * hits + 1) as i32
    }
}

/// Whether a candidate takes part in a choice: every candidate does, unless
/// only those that begin with `line` are asked for.
pub open spec fn eligible(cand: Seq<char>, line: Seq<char>, prefixed: bool) -> bool {
    !prefixed || line.is_prefix_of(cand)
}

/// The best of the first `n` candidates that take part: the one with the
/// highest score against `line`, and of several with that score the last.
pub open spec fn best_upto(cands: Seq<Seq<char>>, line: Seq<char>, prefixed: bool, n: int) -> Option<
    int,
>
    decreases n,
{
    if n <= 0 {
        None
    } else {
        let before = best_upto(cands, line, prefixed, n - 1);
        let i = n - 1;
        if eligible(cands[i], line, prefixed) && (before is None || fuzzy_score(
            cands[before->0],
            line,
        ) <= fuzzy_score(cands[i], line)) {
            Some(i)
        } else {
            before
        }
    }
}

/// The highest score any candidate reaches against `line`; zero for an empty
/// list.
pub open spec fn best_score(cands: Seq<Seq<char>>, line: Seq<char>) -> int
    decreases cands.len(),
{
    if cands.len() == 0 {
        0
    } else {
        let before = best_score(cands.drop_last(), line);
        let here = fuzzy_score(cands.last(), line);
        if before <= here {
            here
        } else {
            before
        }
    }
}

/// The candidates that reach the highest score against `line`, in list
/// order.
pub open spec fn completions(cands: Seq<Seq<char>>, line: Seq<char>) -> Seq<Seq<char>> {
    cands.filter(|c: Seq<char>| fuzzy_score(c, line) == best_score(cands, line))
}

/// The hint for `line` with the cursor at byte `pos`. There is none for an
/// empty line or a cursor before the end. Else the best candidate that begins
/// with `line` gives the rest of its name; where no candidate begins with
/// `line`, the best of all is shown whole, in brackets behind two blanks.
pub open spec fn hint_text(cands: Seq<Seq<char>>, line: Seq<char>, pos: nat) -> Option<Seq<char>> {
    if line.len() == 0 || pos != vstd::utf8::encode_utf8(line).len() {
        None
    } else {
        match best_upto(cands, line, true, cands.len() as int) {
            Some(i) => Some(cands[i].skip(line.len() as int)),
            None => match best_upto(cands, line, false, cands.len() as int) {
                Some(i) => Some("  ("@ + cands[i] + ")"@),
                None => None,
            },
        }
    }
}

/// Where the line that starts at `from` ends: at the first line feed at or
/// after `from`, or at the end of the text.
pub open spec fn line_end(s: Seq<char>, from: int) -> int
    decreases s.len() - from,
{
    if 0 <= from < s.len() && s[from] != '\n' {
        line_end(s, from + 1)
    } else {
        from
    }
}

/// A line as it is listed: one that a line feed ended loses a carriage
/// return at its end.
pub open spec fn listed(line: Seq<char>, ended: bool) -> Seq<char> {
    if ended && line.len() > 0 && line.last() == '\r' {
        line.drop_last()
    } else {
        line
    }
}

/// The lines of `s` from position `from` on. A line feed ends a line; what
/// stands behind the last line feed is a line only if it is not empty.
pub open spec fn lines_from(s: Seq<char>, from: int) -> Seq<Seq<char>>
    decreases s.len() - from,
{
    if from < 0 || from >= s.len() {
        Seq::empty()
    } else {
        let end = line_end(s, from);
        if from <= end < s.len() {
            seq![listed(s.subrange(from, end), true)] + lines_from(s, end + 1)
        } else {
            seq![s.subrange(from, s.len() as int)]
        }
    }
}

/// The lines of `s`.
pub open spec fn lines_of(s: Seq<char>) -> Seq<Seq<char>> {
    lines_from(s, 0)
}

/// The texts that the rows hold.
pub open spec fn rows(names: Seq<Vec<char>>) -> Seq<Seq<char>> {
    Seq::new(names.len(), |i: int| names[i]@)
}

/// The printer names a line of input is matched against.
pub struct PrinterInput {
    names: Vec<Vec<char>>,
}

impl View for PrinterInput {
    type V = Seq<Seq<char>>;

    closed spec fn view(&self) -> Seq<Seq<char>> {
        rows(self.names@)
    }
}

/// Tells whether `name` begins with `line`.
fn begins_with(name: &Vec<char>, line: &Vec<char>) -> (b: bool)
    ensures
        b == line@.is_prefix_of(name@),
{
    if line.len() > name.len() {
        return false;
    }
    let mut i: usize = 0;
    while i < line.len()
        invariant
            i <= line@.len() <= name@.len(),
            line@.take(i as int) == name@.take(i as int),
        decreases line@.len() - i,
    {
        if name[i] != line[i] {
            return false;
        }
        i += 1;
    }
    true
}

impl PrinterInput {
    /// Takes the list of printer names, in the order in which they are to be
    /// offered.
    pub fn new(names: Vec<String>) -> (list: PrinterInput)
        ensures
            list@ == names.deep_view(),
    {
        let mut decoded: Vec<Vec<char>> = Vec::new();
        let mut i: usize = 0;
        while i < names.len()
            invariant
                i <= names@.len(),
                decoded@.len() == i,
                forall|j: int| 0 <= j < i ==> (#[trigger] decoded@[j])@ == names@[j]@,
            decreases names@.len() - i,
        {
            decoded.push(chars_of(names[i].as_str()));
            i += 1;
        }
        PrinterInput { names: decoded }
    }

    /// Takes the list of printer names from a text that holds one name on
    /// each line.
    pub fn from_lines(text: &str) -> (list: PrinterInput)
        ensures
            list@ == lines_of(text@),
    {
        let v = chars_of(text);
        let n: usize = v.len();
        let mut names: Vec<Vec<char>> = Vec::new();
        let mut from: usize = 0;
        while from < n
            invariant
                from <= n == v@.len(),
                lines_of(v@) == rows(names@) + lines_from(v@, from as int),
            decreases n - from,
        {
            let mut end: usize = from;
            while end < n && v[end] != '\n'
                invariant
                    from <= end <= n == v@.len(),
                    line_end(v@, from as int) == line_end(v@, end as int),
                decreases n - end,
            {
                end += 1;
            }
            let ended: bool = end < n;
            let stop: usize = if ended && end > from && v[end - 1] == '\r' {
                end - 1
            } else {
                end
            };
            let mut name: Vec<char> = Vec::new();
            let mut k: usize = from;
            while k < stop
                invariant
                    from <= k <= stop <= n == v@.len(),
                    name@ == v@.subrange(from as int, k as int),
                decreases stop - k,
            {
                name.push(v[k]);
                k += 1;
            }
            proof {
                let line = v@.subrange(from as int, end as int);
                if stop < end {
                    assert(line.drop_last() == v@.subrange(from as int, stop as int));
                }
                assert(name@ == listed(line, ended));
                assert(rows(names@.push(name)) == rows(names@).push(name@));
            }
            names.push(name);
            from = if ended {
                end + 1
            } else {
                end
            };
        }
        PrinterInput { names }
    }

    /// The number of names in the list.
    pub fn len(&self) -> (n: usize)
        ensures
            n == self@.len(),
    {
        self.names.len()
    }

    /// Picks the best of the candidates that take part.
    fn pick(&self, line: &Vec<char>, prefixed: bool) -> (r: Option<usize>)
        ensures
            match r {
                Some(i) => best_upto(self@, line@, prefixed, self@.len() as int) == Some(i as int),
                None => best_upto(self@, line@, prefixed, self@.len() as int) is None,
            },
            r matches Some(i) ==> i < self@.len() && eligible(self@[i as int], line@, prefixed),
    {
        let mut top: Option<usize> = None;
        let mut top_hits: usize = 0;
        let mut i: usize = 0;
        while i < self.names.len()
            invariant
                i <= self.names@.len(),
                self@.len() == self.names@.len(),
                match top {
                    Some(t) => best_upto(self@, line@, prefixed, i as int) == Some(t as int) && t
                        < i && top_hits == matched(self@[t as int], 0, line@) && eligible(
                        self@[t as int],
                        line@,
                        prefixed,
                    ),
                    None => best_upto(self@, line@, prefixed, i as int) is None,
                },
            decreases self.names@.len() - i,
        {
            let name = &self.names[i];
            if !prefixed || begins_with(name, line) {
                let hits: usize = count_hits(name, line);
                if top.is_none() || top_hits <= hits {
                    top = Some(i);
                    top_hits = hits;
                }
            }
            i += 1;
        }
        top
    }

    /// The candidates to offer for `line`: those that share the highest
    /// score, in list order. The first component is the column from which
    /// the chosen candidate replaces the line, which is always the first.
    pub fn complete(&self, line: &str, _pos: usize) -> (r: (usize, Vec<String>))
        ensures
            r.0 == 0,
            r.1.deep_view() == completions(self@, line@),
    {
        let query = chars_of(line);
        let n: usize = self.names.len();
        let mut hits: Vec<usize> = Vec::new();
        let mut most: usize = 0;
        let mut i: usize = 0;
        while i < n
            invariant
                i <= n == self.names@.len() == self@.len(),
                query@ == line@,
                hits@.len() == i,
                forall|j: int| 0 <= j < i ==> #[trigger] hits@[j] == matched(self@[j], 0, line@),
                score_of(most as nat) == best_score(self@.take(i as int), line@),
            decreases n - i,
        {
            let h: usize = count_hits(&self.names[i], &query);
            assert(self@.take(i + 1).drop_last() == self@.take(i as int));
            hits.push(h);
            if h > most {
                most = h;
            }
            i += 1;
        }
        assert(self@.take(n as int) == self@);
        let ghost keep = |c: Seq<char>| fuzzy_score(c, line@) == best_score(self@, line@);
        let mut out: Vec<String> = Vec::new();
        let mut k: usize = 0;
        assert(self@.take(0).filter(keep) == Seq::<Seq<char>>::empty()) by {
            reveal(Seq::filter);
        }
        while k < n
            invariant
                k <= n == self.names@.len() == self@.len(),
                hits@.len() == n,
                forall|j: int| 0 <= j < n ==> #[trigger] hits@[j] == matched(self@[j], 0, line@),
                score_of(most as nat) == best_score(self@, line@),
                keep == |c: Seq<char>| fuzzy_score(c, line@) == best_score(self@, line@),
                out.deep_view() == self@.take(k as int).filter(keep),
            decreases n - k,
        {
            assert(self@.take(k + 1).drop_last() == self@.take(k as int));
            assert(self@.take(k + 1).filter(keep) == if keep(self@[k as int]) {
                self@.take(k as int).filter(keep).push(self@[k as int])
            } else {
                self@.take(k as int).filter(keep)
            }) by {
                reveal(Seq::filter);
            }
            if hits[k] == most {
                let name = &self.names[k];
                let mut s = String::new();
                push_chars(&mut s, name, 0, name.len());
                assert(s@ == self@[k as int]);
                out.push(s);
            }
            k += 1;
        }
        (0, out)
    }

    /// The hint to show behind `line` while the cursor stands at byte `pos`.
    pub fn hint(&self, line: &str, pos: usize) -> (r: Option<String>)
        ensures
            match r {
                Some(h) => hint_text(self@, line@, pos as nat) == Some(h@),
                None => hint_text(self@, line@, pos as nat) is None,
            },
    {
        let bytes = line.as_bytes();
        if line.is_empty() || pos != bytes.len() {
            return None;
        }
        let query = chars_of(line);
        match self.pick(&query, true) {
            Some(i) => {
                let name = &self.names[i];
                let mut rest = String::new();
                push_chars(&mut rest, name, query.len(), name.len());
                assert(name@.subrange(query@.len() as int, name@.len() as int) == name@.skip(
                    line@.len() as int,
                ));
                Some(rest)
            },
            None => match self.pick(&query, false) {
                Some(i) => {
                    let name = &self.names[i];
                    let mut shown = String::new();
                    shown.append("  (");
                    push_chars(&mut shown, name, 0, name.len());
                    shown.append(")");
                    Some(shown)
                },
                None => None,
            },
        }
    }

    /// The line as it is drawn while the user types.
    pub fn highlight(&self, line: &str, _pos: usize) -> (shown: String)
        ensures
            shown@ == MAGENTA@ + line@ + RESET@,
    {
        let mut out = String::new();
        out.append(MAGENTA);
        out.append(line);
        out.append(RESET);
        out
    }

    /// The hint as it is drawn behind the line.
    pub fn highlight_hint(&self, hint: &str) -> (shown: String)
        ensures
            shown@ == DIM@ + hint@ + RESET@,
    {
        let mut out = String::new();
        out.append(DIM);
        out.append(hint);
        out.append(RESET);
        out
    }
}

/// A search for a partner starts at the cursor and ends in the candidate
/// or just behind it.
pub proof fn lemma_find_from_range(base: Seq<char>, from: int, c: char)
    requires
        0 <= from <= base.len(),
    ensures
        from <= find_from(base, from, c) <= base.len(),
        find_from(base, from, c) < base.len() ==> lower(base[find_from(base, from, c)]) == lower(c),
    decreases base.len() - from,
{
    if from < base.len() && lower(base[from]) != lower(c) {
        lemma_find_from_range(base, from + 1, c);
    }
}

/// No more characters find a partner than the search has, nor more than
/// the candidate has behind the cursor.
pub proof fn lemma_matched_bound(base: Seq<char>, cursor: int, search: Seq<char>)
    requires
        0 <= cursor <= base.len(),
    ensures
        matched(base, cursor, search) <= search.len(),
        matched(base, cursor, search) <= base.len() - cursor,
    decreases search.len(),
{
    if search.len() > 0 {
        let at = find_from(base, cursor, search[0]);
        lemma_find_from_range(base, cursor, search[0]);
        if at < base.len() {
            lemma_matched_bound(base, at + 1, search.drop_first());
        } else {
            lemma_matched_bound(base, cursor, search.drop_first());
        }
    }
}

/// Matched against itself from any position, a text finds a partner for
/// every character that is left.
pub proof fn lemma_matched_self(s: Seq<char>, k: int)
    requires
        0 <= k <= s.len(),
    ensures
        matched(s, k, s.skip(k)) == s.len() - k,
    decreases s.len() - k,
{
    if k < s.len() {
        assert(s.skip(k).drop_first() == s.skip(k + 1));
        lemma_matched_self(s, k + 1);
    }
}

/// A score is never negative, and it is bounded by the shorter of the two
/// texts: at most twice its length and one.
pub proof fn lemma_score_bounds(base: Seq<char>, search: Seq<char>)
    ensures
        0 <= fuzzy_score(base, search),
        fuzzy_score(base, search) <= 2 * base.len() + 1,
        fuzzy_score(base, search) <= 2 * search.len() + 1,
{
    lemma_matched_bound(base, 0, search);
}

/// The empty search scores zero against every candidate.
pub proof fn lemma_empty_search_scores_zero(base: Seq<char>)
    ensures
        fuzzy_score(base, Seq::<char>::empty()) == 0,
{
}

/// A candidate scores highest against itself: there every character finds
/// its partner, no search scores more against the candidate, and a search
/// that leaves a character of the candidate without partner scores less.
pub proof fn lemma_self_match_is_best(s: Seq<char>, other: Seq<char>)
    ensures
        matched(s, 0, s) == s.len(),
        fuzzy_score(s, s) == score_of(s.len()),
        fuzzy_score(s, other) <= fuzzy_score(s, s),
        matched(s, 0, other) < s.len() ==> fuzzy_score(s, other) < fuzzy_score(s, s),
{
    assert(s.skip(0) == s);
    lemma_matched_self(s, 0);
    lemma_matched_bound(s, 0, other);
}

/// The highest score of a list is reached by none of its candidates more
/// than met, and it is never negative.
pub proof fn lemma_best_score_is_highest(cands: Seq<Seq<char>>, line: Seq<char>, j: int)
    requires
        0 <= j < cands.len(),
    ensures
        0 <= fuzzy_score(cands[j], line) <= best_score(cands, line),
    decreases cands.len(),
{
    lemma_score_bounds(cands[j], line);
    if j < cands.len() - 1 {
        lemma_best_score_is_highest(cands.drop_last(), line, j);
    }
}

/// For an empty list nothing is offered.
pub proof fn lemma_completions_of_none(line: Seq<char>)
    ensures
        completions(Seq::<Seq<char>>::empty(), line) == Seq::<Seq<char>>::empty(),
{
    reveal(Seq::filter);
}

/// For a list of one candidate that candidate is offered, whatever the
/// line.
pub proof fn lemma_completions_of_one(cand: Seq<char>, line: Seq<char>)
    ensures
        completions(seq![cand], line) == seq![cand],
{
    let cands = seq![cand];
    let keep = |c: Seq<char>| fuzzy_score(c, line) == best_score(cands, line);
    lemma_score_bounds(cand, line);
    assert(best_score(cands.drop_last(), line) == 0);
    assert(cands.drop_last().filter(keep) == Seq::<Seq<char>>::empty()) by {
        reveal(Seq::filter);
    }
    assert(cands.filter(keep) == cands.drop_last().filter(keep).push(cands.last())) by {
        reveal(Seq::filter);
    }
}

/// There is no hint for an empty line, nor while the cursor stands before
/// the end of the line.
pub proof fn lemma_no_hint(cands: Seq<Seq<char>>, line: Seq<char>, pos: nat)
    requires
        line.len() == 0 || pos != vstd::utf8::encode_utf8(line).len(),
    ensures
        hint_text(cands, line, pos) is None,
{
}

/// What `best_upto` picks: a candidate that takes part, that no candidate
/// taking part outscores, and that every later one taking part falls short
/// of. It picks none only where none takes part.
pub proof fn lemma_best_upto(cands: Seq<Seq<char>>, line: Seq<char>, prefixed: bool, n: int)
    requires
        0 <= n <= cands.len(),
    ensures
        match best_upto(cands, line, prefixed, n) {
            Some(i) => {
                &&& 0 <= i < n
                &&& eligible(cands[i], line, prefixed)
                &&& forall|j: int|
                    0 <= j < n && eligible(#[trigger] cands[j], line, prefixed) ==> fuzzy_score(
                        cands[j],
                        line,
                    ) <= fuzzy_score(cands[i], line)
                &&& forall|j: int|
                    i < j < n && eligible(#[trigger] cands[j], line, prefixed) ==> fuzzy_score(
                        cands[j],
                        line,
                    ) < fuzzy_score(cands[i], line)
            },
            None => forall|j: int| 0 <= j < n ==> !eligible(#[trigger] cands[j], line, prefixed),
        },
    decreases n,
{
    if n > 0 {
        lemma_best_upto(cands, line, prefixed, n - 1);
    }
}

/// A hint taken from a candidate that begins with the line continues the
/// line: line and hint together spell that candidate.
pub proof fn lemma_prefix_hint_completes(cands: Seq<Seq<char>>, line: Seq<char>, pos: nat)
    requires
        best_upto(cands, line, true, cands.len() as int) is Some,
        hint_text(cands, line, pos) is Some,
    ensures
        line + hint_text(cands, line, pos)->0 == cands[best_upto(
            cands,
            line,
            true,
            cands.len() as int,
        )->0],
{
    lemma_best_upto(cands, line, true, cands.len() as int);
    let i = best_upto(cands, line, true, cands.len() as int)->0;
}

} // verus!
