//! Operations on whole strings: prefixes and suffixes, substrings,
//! whitespace-separated words, trimming, lines and joining.

use vstd::prelude::*;

use crate::text::{
    chars_of, digits_value_upto, first_index, is_digit, is_whitespace, lemma_first_index,
    push_char, split_once, string_of, whitespace, all_digits, digits_value, find_char,
};

verus! {

/// `p` occurs in `s` at position `i`.
pub open spec fn occurs_at(s: Seq<char>, i: int, p: Seq<char>) -> bool {
    0 <= i && i + p.len() <= s.len() && s.subrange(i, i + p.len()) == p
}

/// `p` occurs somewhere in `s` (`str::contains`).
pub open spec fn has_infix(s: Seq<char>, p: Seq<char>) -> bool {
    exists|i: int| occurs_at(s, i, p)
}

/// Whether `v[i..]` begins with `p`.
pub fn matches_at(v: &Vec<char>, i: usize, p: &Vec<char>) -> (r: bool)
    requires
        i <= v.len(),
    ensures
        r == occurs_at(v@, i as int, p@),
{
    if p.len() > v.len() - i {
        return false;
    }
    let mut k: usize = 0;
    while k < p.len()
        invariant
            k <= p.len(),
            i + p.len() <= v.len(),
            forall|j: int| 0 <= j < k ==> v@[i + j] == p@[j],
        decreases p.len() - k,
    {
        if v[i + k] != p[k] {
            assert(v@.subrange(i as int, i + p.len())[k as int] != p@[k as int]);
            return false;
        }
        k = k + 1;
    }
    assert(v@.subrange(i as int, i + p.len()) =~= p@);
    true
}

/// `str::starts_with`.
pub fn starts_with(s: &str, p: &str) -> (r: bool)
    ensures
        r == crate::text::has_prefix(s@, p@),
{
    let v = chars_of(s);
    let q = chars_of(p);
    matches_at(&v, 0, &q)
}

/// `str::ends_with`.
pub fn ends_with(s: &str, p: &str) -> (r: bool)
    ensures
        r == crate::text::has_suffix(s@, p@),
{
    let v = chars_of(s);
    let q = chars_of(p);
    if q.len() > v.len() {
        false
    } else {
        matches_at(&v, v.len() - q.len(), &q)
    }
}

/// `str::contains` with a string pattern.
pub fn contains(s: &str, p: &str) -> (r: bool)
    ensures
        r == has_infix(s@, p@),
{
    let v = chars_of(s);
    let q = chars_of(p);
    if q.len() > v.len() {
        assert(!has_infix(s@, p@));
        return false;
    }
    let last = v.len() - q.len();
    let mut i: usize = 0;
    loop
        invariant
            v@ == s@,
            q@ == p@,
            last == v.len() - q.len(),
            i <= last,
            forall|j: int| 0 <= j < i ==> !occurs_at(s@, j, p@),
        decreases last - i,
    {
        if matches_at(&v, i, &q) {
            return true;
        }
        if i == last {
            assert forall|j: int| !occurs_at(s@, j, p@) by {
                if 0 <= j < i {
                }
            }
            return false;
        }
        i = i + 1;
    }
}

/// `str::split_once` on a character, giving owned pieces.
pub fn split_once_str(s: &str, c: char) -> (r: Option<(String, String)>)
    ensures
        match split_once(s@, c) {
            Some(p) => r matches Some(q) && q.0@ == p.0 && q.1@ == p.1,
            None => r is None,
        },
{
    let v = chars_of(s);
    let i = find_char(&v, c);
    proof {
        lemma_first_index(s@, c);
    }
    if i == v.len() {
        None
    } else {
        Some((string_of(&v, 0, i), string_of(&v, i + 1, v.len())))
    }
}

// ---------------------------------------------------------------------
// Words
// ---------------------------------------------------------------------

/// Whitespace as `split_whitespace` (Unicode) or `split_ascii_whitespace`
/// (ASCII) sees it.
pub open spec fn is_space(c: char, ascii: bool) -> bool {
    if ascii {
        c == ' ' || c == '\t' || c == '\n' || c == '\x0C' || c == '\r'
    } else {
        whitespace(c)
    }
}

/// Number of leading whitespace characters of `s`.
pub open spec fn skip_space(s: Seq<char>, ascii: bool) -> int
    decreases s.len(),
{
    if s.len() > 0 && is_space(s[0], ascii) {
        1 + skip_space(s.drop_first(), ascii)
    } else {
        0
    }
}

/// Number of leading non-whitespace characters of `s`.
pub open spec fn word_len(s: Seq<char>, ascii: bool) -> int
    decreases s.len(),
{
    if s.len() > 0 && !is_space(s[0], ascii) {
        1 + word_len(s.drop_first(), ascii)
    } else {
        0
    }
}

pub proof fn lemma_skip_space(s: Seq<char>, ascii: bool)
    ensures
        0 <= skip_space(s, ascii) <= s.len(),
        skip_space(s, ascii) < s.len() ==> !is_space(s[skip_space(s, ascii)], ascii),
        forall|j: int| 0 <= j < skip_space(s, ascii) ==> is_space(#[trigger] s[j], ascii),
    decreases s.len(),
{
    if s.len() > 0 && is_space(s[0], ascii) {
        lemma_skip_space(s.drop_first(), ascii);
        assert forall|j: int| 0 <= j < skip_space(s, ascii) implies is_space(#[trigger] s[j], ascii) by {
            if j > 0 {
                assert(s[j] == s.drop_first()[j - 1]);
            }
        }
    }
}

pub proof fn lemma_word_len(s: Seq<char>, ascii: bool)
    ensures
        0 <= word_len(s, ascii) <= s.len(),
        word_len(s, ascii) < s.len() ==> is_space(s[word_len(s, ascii)], ascii),
        forall|j: int| 0 <= j < word_len(s, ascii) ==> !is_space(#[trigger] s[j], ascii),
        s.len() > 0 && !is_space(s[0], ascii) ==> word_len(s, ascii) >= 1,
    decreases s.len(),
{
    if s.len() > 0 && !is_space(s[0], ascii) {
        lemma_word_len(s.drop_first(), ascii);
        assert forall|j: int| 0 <= j < word_len(s, ascii) implies !is_space(#[trigger] s[j], ascii) by {
            if j > 0 {
                assert(s[j] == s.drop_first()[j - 1]);
            }
        }
    }
}

/// The words of `s`: the non-empty runs between whitespace
/// (`str::split_whitespace`, or `split_ascii_whitespace` where `ascii`).
pub open spec fn words(s: Seq<char>, ascii: bool) -> Seq<Seq<char>>
    decreases s.len(),
{
    let a = skip_space(s, ascii);
    if 0 <= a < s.len() {
        let t = s.subrange(a, s.len() as int);
        let b = word_len(t, ascii);
        proof {
            lemma_skip_space(s, ascii);
            lemma_word_len(t, ascii);
        }
        if 1 <= b <= t.len() {
            seq![t.subrange(0, b)] + words(t.subrange(b, t.len() as int), ascii)
        } else {
            seq![]
        }
    } else {
        seq![]
    }
}

/// Whether `c` is whitespace in the sense of `is_space`.
pub fn space_char(c: char, ascii: bool) -> (r: bool)
    ensures
        r == is_space(c, ascii),
{
    if ascii {
        c == ' ' || c == '\t' || c == '\n' || c == '\x0C' || c == '\r'
    } else {
        is_whitespace(c)
    }
}

/// Moves `i` over the whitespace of `v[i..]`.
fn skip_space_from(v: &Vec<char>, i: usize, ascii: bool) -> (j: usize)
    requires
        i <= v.len(),
    ensures
        j - i == skip_space(v@.subrange(i as int, v@.len() as int), ascii),
        i <= j <= v.len(),
{
    let mut j = i;
    while j < v.len() && space_char(v[j], ascii)
        invariant
            i <= j <= v.len(),
            skip_space(v@.subrange(i as int, v@.len() as int), ascii) == (j - i) + skip_space(
                v@.subrange(j as int, v@.len() as int),
                ascii,
            ),
        decreases v.len() - j,
    {
        let ghost t = v@.subrange(j as int, v@.len() as int);
        assert(t[0] == v@[j as int]);
        assert(t.drop_first() =~= v@.subrange(j + 1, v@.len() as int));
        j = j + 1;
    }
    proof {
        let t = v@.subrange(j as int, v@.len() as int);
        if j < v.len() {
            assert(t[0] == v@[j as int]);
        }
    }
    j
}

/// Moves `i` over the non-whitespace of `v[i..]`.
fn skip_word_from(v: &Vec<char>, i: usize, ascii: bool) -> (j: usize)
    requires
        i <= v.len(),
    ensures
        j - i == word_len(v@.subrange(i as int, v@.len() as int), ascii),
        i <= j <= v.len(),
{
    let mut j = i;
    while j < v.len() && !space_char(v[j], ascii)
        invariant
            i <= j <= v.len(),
            word_len(v@.subrange(i as int, v@.len() as int), ascii) == (j - i) + word_len(
                v@.subrange(j as int, v@.len() as int),
                ascii,
            ),
        decreases v.len() - j,
    {
        let ghost t = v@.subrange(j as int, v@.len() as int);
        assert(t[0] == v@[j as int]);
        assert(t.drop_first() =~= v@.subrange(j + 1, v@.len() as int));
        j = j + 1;
    }
    proof {
        let t = v@.subrange(j as int, v@.len() as int);
        if j < v.len() {
            assert(t[0] == v@[j as int]);
        }
    }
    j
}

/// The views of a vector of strings.
pub open spec fn views(v: Seq<String>) -> Seq<Seq<char>> {
    v.map_values(|x: String| x@)
}

/// `str::split_whitespace` (or `split_ascii_whitespace` where `ascii`).
pub fn split_words(s: &str, ascii: bool) -> (r: Vec<String>)
    ensures
        views(r@) == words(s@, ascii),
{
    let v = chars_of(s);
    let mut out: Vec<String> = Vec::new();
    let mut i: usize = 0;
    assert(v@.subrange(0, v@.len() as int) =~= v@);
    loop
        invariant
            v@ == s@,
            i <= v.len(),
            views(out@) + words(v@.subrange(i as int, v@.len() as int), ascii) == words(s@, ascii),
        decreases v.len() - i,
    {
        let ghost rest = v@.subrange(i as int, v@.len() as int);
        let j = skip_space_from(&v, i, ascii);
        if j == v.len() {
            assert(words(rest, ascii) =~= seq![]);
            assert(views(out@) =~= views(out@) + words(rest, ascii));
            return out;
        }
        let k = skip_word_from(&v, j, ascii);
        let ghost t = rest.subrange(j - i, rest.len() as int);
        assert(t =~= v@.subrange(j as int, v@.len() as int));
        proof {
            lemma_skip_space(rest, ascii);
            lemma_word_len(t, ascii);
            assert(t[0] == v@[j as int]);
        }
        assert(t.subrange(0, k - j) =~= v@.subrange(j as int, k as int));
        assert(t.subrange(k - j, t.len() as int) =~= v@.subrange(k as int, v@.len() as int));
        let w = string_of(&v, j, k);
        let ghost old_out = out@;
        out.push(w);
        assert(views(out@) =~= views(old_out).push(w@));
        assert(views(out@) + words(v@.subrange(k as int, v@.len() as int), ascii) =~= views(old_out)
            + words(rest, ascii));
        i = k;
    }
}

/// `str::trim`: `s` without leading and trailing whitespace.
pub open spec fn trim(s: Seq<char>) -> Seq<char> {
    crate::text::trim_end(s.subrange(skip_space(s, false), s.len() as int))
}

/// `str::trim`.
pub fn trim_str(s: &str) -> (r: String)
    ensures
        r@ == trim(s@),
{
    let v = chars_of(s);
    assert(v@.subrange(0, v@.len() as int) =~= v@);
    let a = skip_space_from(&v, 0, false);
    proof {
        lemma_skip_space(s@, false);
    }
    let b = crate::text::trim_end_range(&v, a, v.len());
    string_of(&v, a, b)
}

// ---------------------------------------------------------------------
// Lines
// ---------------------------------------------------------------------

/// A line without a trailing carriage return.
pub open spec fn strip_cr(l: Seq<char>) -> Seq<char> {
    if l.len() > 0 && l.last() == '\r' {
        l.drop_last()
    } else {
        l
    }
}

/// The lines of `s` as `str::lines` gives them: split at `\n`, with no
/// empty line after a final `\n`, and a `\r` before each `\n` removed.
pub open spec fn lines(s: Seq<char>) -> Seq<Seq<char>> {
    let pieces = crate::text::split_all(s, '\n');
    let kept = if s.len() == 0 {
        Seq::<Seq<char>>::empty()
    } else if s.last() == '\n' {
        pieces.drop_last()
    } else {
        pieces
    };
    kept.map_values(|l: Seq<char>| strip_cr(l))
}

/// `str::lines`.
pub fn split_lines(s: &str) -> (r: Vec<String>)
    ensures
        views(r@) == lines(s@),
{
    let v = chars_of(s);
    let pieces = crate::text::split_str(s, '\n');
    let ghost all = crate::text::split_all(s@, '\n');
    assert(views(pieces@) == all);
    let n: usize = if v.len() == 0 {
        0
    } else if v[v.len() - 1] == '\n' {
        pieces.len() - 1
    } else {
        pieces.len()
    };
    proof {
        lemma_split_all_len(s@, '\n');
        if v.len() > 0 && v@.last() == '\n' {
            assert(s@.last() == '\n');
        }
    }
    let ghost kept = if s@.len() == 0 {
        Seq::<Seq<char>>::empty()
    } else if s@.last() == '\n' {
        all.drop_last()
    } else {
        all
    };
    assert(kept.len() == n);
    let mut out: Vec<String> = Vec::new();
    let mut i: usize = 0;
    while i < n
        invariant
            n <= pieces.len(),
            views(pieces@) == all,
            kept.len() == n,
            forall|j: int| 0 <= j < n ==> kept[j] == all[j],
            i <= n,
            views(out@) == kept.subrange(0, i as int).map_values(|l: Seq<char>| strip_cr(l)),
        decreases n - i,
    {
        let p = &pieces[i];
        let pv = chars_of(p.as_str());
        let end = if pv.len() > 0 && pv[pv.len() - 1] == '\r' {
            pv.len() - 1
        } else {
            pv.len()
        };
        let line = string_of(&pv, 0, end);
        assert(all[i as int] == pieces@[i as int]@);
        proof {
            if pv.len() > 0 && pv@.last() == '\r' {
                assert(line@ =~= pv@.drop_last());
            } else {
                assert(line@ =~= pv@);
            }
        }
        let ghost old_out = out@;
        out.push(line);
        assert(views(out@) =~= views(old_out).push(line@));
        assert(kept.subrange(0, i + 1).map_values(|l: Seq<char>| strip_cr(l)) =~= kept.subrange(
            0,
            i as int,
        ).map_values(|l: Seq<char>| strip_cr(l)).push(strip_cr(kept[i as int])));
        i = i + 1;
    }
    assert(kept.subrange(0, n as int) =~= kept);
    out
}

/// `split_all` gives at least one piece; its last piece is empty exactly
/// when `s` ends with the separator.
pub proof fn lemma_split_all_len(s: Seq<char>, c: char)
    ensures
        crate::text::split_all(s, c).len() >= 1,
        s.len() > 0 && s.last() == c ==> crate::text::split_all(s, c).len() >= 2,
    decreases s.len(),
{
    lemma_first_index(s, c);
    match split_once(s, c) {
        Some(p) => {
            lemma_split_all_len(p.1, c);
        },
        None => {
            if s.len() > 0 && s.last() == c {
                assert(s[s.len() - 1] == c);
            }
        },
    }
}

// ---------------------------------------------------------------------
// Joining and numbers
// ---------------------------------------------------------------------

/// The pieces joined with `sep` between them (`join`).
pub open spec fn join(parts: Seq<Seq<char>>, sep: Seq<char>) -> Seq<char>
    decreases parts.len(),
{
    if parts.len() == 0 {
        Seq::empty()
    } else if parts.len() == 1 {
        parts[0]
    } else {
        join(parts.drop_last(), sep) + sep + parts.last()
    }
}

/// Joins strings with a separator.
pub fn join_strings(parts: &Vec<String>, sep: &str) -> (r: String)
    ensures
        r@ == join(views(parts@), sep@),
{
    let mut s = String::new();
    let mut i: usize = 0;
    while i < parts.len()
        invariant
            i <= parts.len(),
            s@ == join(views(parts@).subrange(0, i as int), sep@),
        decreases parts.len() - i,
    {
        let ghost before = views(parts@).subrange(0, i as int);
        let ghost after = views(parts@).subrange(0, i + 1);
        assert(after.drop_last() =~= before);
        if i > 0 {
            s.append(sep);
        }
        s.append(parts[i].as_str());
        assert(after.last() == parts@[i as int]@);
        i = i + 1;
    }
    assert(views(parts@).subrange(0, parts.len() as int) =~= views(parts@));
    s
}

/// What `u64::from_str` gives: an optional `+`, then at least one digit,
/// and a value that fits.
pub open spec fn parse_u64(s: Seq<char>) -> Option<u64> {
    let d = if s.len() > 0 && s[0] == '+' {
        s.drop_first()
    } else {
        s
    };
    if d.len() > 0 && all_digits(d) && digits_value(d) <= u64::MAX {
        Some(digits_value(d) as u64)
    } else {
        None
    }
}

/// `u64::from_str`.
pub fn parse_u64_str(s: &str) -> (r: Option<u64>)
    ensures
        r == parse_u64(s@),
{
    let v = chars_of(s);
    let start: usize = if v.len() > 0 && v[0] == '+' { 1 } else { 0 };
    let ghost d = v@.subrange(start as int, v@.len() as int);
    proof {
        if s@.len() > 0 && s@[0] == '+' {
            assert(d =~= s@.drop_first());
        } else {
            assert(d =~= s@);
        }
    }
    if start == v.len() {
        return None;
    }
    let mut i = start;
    while i < v.len()
        invariant
            start <= i <= v.len(),
            d == v@.subrange(start as int, v@.len() as int),
            v@ == s@,
            d == (if s@.len() > 0 && s@[0] == '+' {
                s@.drop_first()
            } else {
                s@
            }),
            forall|j: int| start <= j < i ==> is_digit(#[trigger] v@[j]),
        decreases v.len() - i,
    {
        if !('0' <= v[i] && v[i] <= '9') {
            assert(d[i - start] == v@[i as int]);
            return None;
        }
        i = i + 1;
    }
    assert(all_digits(d)) by {
        assert forall|j: int| 0 <= j < d.len() implies is_digit(#[trigger] d[j]) by {
            assert(d[j] == v@[j + start]);
        }
    }
    digits_value_upto(&v, start, v.len(), 0xffff_ffff_ffff_ffff)
}

} // verus!
