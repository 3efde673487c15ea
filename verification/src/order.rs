//! The order on the upstream-version and Debian-revision parts of a package
//! version, as signed integers (negative: less, zero: equal, positive:
//! greater), with the proofs that it is a total preorder.

use vstd::prelude::*;

use crate::text::{
    alphabetic, is_alphabetic, all_digits, chars_of, digit_run_value, digits_value, digits_value_upto, find_in, first_index, is_digit,
    lemma_first_index,
};

verus! {

/// The order of characters in the non-digit parts of a version: every
/// non-letter sorts before every letter, and characters of the same kind
/// sort by code point.
pub open spec fn char_before(a: char, b: char) -> bool {
    (!alphabetic(a) && alphabetic(b)) || (alphabetic(a) == alphabetic(b) && a < b)
}

/// Lexicographic order on strings, characters ordered by `char_before`.
pub open spec fn lex_order(a: Seq<char>, b: Seq<char>) -> int
    decreases a.len(),
{
    if a.len() == 0 {
        if b.len() == 0 {
            0
        } else {
            -1
        }
    } else if b.len() == 0 {
        1
    } else if char_before(a[0], b[0]) {
        -1
    } else if char_before(b[0], a[0]) {
        1
    } else {
        lex_order(a.drop_first(), b.drop_first())
    }
}

/// The part of `s` before its first `~`.
pub open spec fn tilde_segment(s: Seq<char>) -> Seq<char> {
    s.subrange(0, first_index(s, '~'))
}

/// `s` holds a `~`.
pub open spec fn tilde_found(s: Seq<char>) -> bool {
    first_index(s, '~') < s.len()
}

/// The part of `s` after its first `~` (empty where there is none).
pub open spec fn tilde_tail(s: Seq<char>) -> Seq<char> {
    if tilde_found(s) {
        s.subrange(first_index(s, '~') + 1, s.len() as int)
    } else {
        Seq::empty()
    }
}

/// Order on the non-digit parts of a version: segments between `~` are
/// compared lexicographically, and a `~` sorts before everything, even
/// the end of the string.
pub open spec fn nondigit_order(l: Seq<char>, r: Seq<char>) -> int
    decreases l.len() + r.len(),
{
    if l.len() == 0 && r.len() == 0 {
        0
    } else {
        let c = lex_order(tilde_segment(l), tilde_segment(r));
        if c != 0 {
            c
        } else if tilde_found(l) && tilde_found(r) {
            proof {
                lemma_first_index(l, '~');
                lemma_first_index(r, '~');
            }
            nondigit_order(tilde_tail(l), tilde_tail(r))
        } else if tilde_found(l) {
            -1
        } else if tilde_found(r) {
            1
        } else {
            0
        }
    }
}

/// Length of the longest prefix of `s` whose characters are digits
/// (`digits`) or non-digits (`!digits`).
pub open spec fn run_len(s: Seq<char>, digits: bool) -> nat
    decreases s.len(),
{
    if s.len() > 0 && is_digit(s[0]) == digits {
        1 + run_len(s.drop_first(), digits)
    } else {
        0
    }
}

/// The leading non-digits of `s`.
pub open spec fn head_text(s: Seq<char>) -> Seq<char> {
    s.subrange(0, run_len(s, false) as int)
}

/// `s` without its leading non-digits.
pub open spec fn after_text(s: Seq<char>) -> Seq<char> {
    s.subrange(run_len(s, false) as int, s.len() as int)
}

/// The value of the digits that follow the leading non-digits of `s`.
pub open spec fn head_number(s: Seq<char>) -> nat {
    let t = after_text(s);
    digit_run_value(t.subrange(0, run_len(t, true) as int))
}

/// `s` without its leading non-digits and the digits that follow them.
pub open spec fn rest_parts(s: Seq<char>) -> Seq<char> {
    let t = after_text(s);
    t.subrange(run_len(t, true) as int, t.len() as int)
}

/// Order on upstream versions and Debian revisions: alternating runs of
/// non-digits (by `nondigit_order`) and digits (by numeric value) are
/// compared from the left.
pub open spec fn parts_order(l: Seq<char>, r: Seq<char>) -> int
    decreases l.len() + r.len(),
{
    if l.len() == 0 && r.len() == 0 {
        0
    } else {
        let c = nondigit_order(head_text(l), head_text(r));
        if c != 0 {
            c
        } else if head_number(l) < head_number(r) {
            -1
        } else if head_number(l) > head_number(r) {
            1
        } else {
            proof {
                lemma_rest_parts_shorter(l);
                lemma_rest_parts_shorter(r);
            }
            parts_order(rest_parts(l), rest_parts(r))
        }
    }
}

/// A string made only of digits (or only of non-digits) is one run.
proof fn lemma_run_len_whole(s: Seq<char>, digits: bool)
    requires
        forall|i: int| 0 <= i < s.len() ==> is_digit(#[trigger] s[i]) == digits,
    ensures
        run_len(s, digits) == s.len(),
    decreases s.len(),
{
    if s.len() > 0 {
        assert forall|i: int| 0 <= i < s.drop_first().len() implies is_digit(#[trigger] s.drop_first()[i]) == digits by {
            assert(s.drop_first()[i] == s[i + 1]);
        }
        lemma_run_len_whole(s.drop_first(), digits);
    }
}

/// Numbers compare by their value: two runs of digits (each small enough
/// to be read as a `u64`) are ordered as the numbers they write, so that
/// `10` sorts after `9` and `01` ties with `1`.
pub proof fn lemma_parts_order_digits(x: Seq<char>, y: Seq<char>)
    requires
        x.len() > 0,
        y.len() > 0,
        all_digits(x),
        all_digits(y),
        digits_value(x) <= u64::MAX,
        digits_value(y) <= u64::MAX,
    ensures
        parts_order(x, y) < 0 <==> digits_value(x) < digits_value(y),
        parts_order(x, y) == 0 <==> digits_value(x) == digits_value(y),
        parts_order(x, y) > 0 <==> digits_value(x) > digits_value(y),
{
    assert(is_digit(x[0]) && is_digit(y[0]));
    assert(run_len(x, false) == 0);
    assert(run_len(y, false) == 0);
    assert(head_text(x) =~= Seq::<char>::empty());
    assert(head_text(y) =~= Seq::<char>::empty());
    assert(after_text(x) =~= x);
    assert(after_text(y) =~= y);
    lemma_run_len_whole(x, true);
    lemma_run_len_whole(y, true);
    assert(x.subrange(0, x.len() as int) =~= x);
    assert(y.subrange(0, y.len() as int) =~= y);
    assert(head_number(x) == digits_value(x));
    assert(head_number(y) == digits_value(y));
    assert(rest_parts(x) =~= Seq::<char>::empty());
    assert(rest_parts(y) =~= Seq::<char>::empty());
    assert(nondigit_order(Seq::<char>::empty(), Seq::<char>::empty()) == 0);
    assert(parts_order(Seq::<char>::empty(), Seq::<char>::empty()) == 0);
}

/// A `~` sorts before everything, even the end of the text: a non-digit
/// part that starts with `~` sorts before every part that does not.
pub proof fn lemma_nondigit_order_tilde_first(s: Seq<char>, t: Seq<char>)
    requires
        t.len() == 0 || t[0] != '~',
    ensures
        nondigit_order(seq!['~'] + s, t) < 0,
        nondigit_order(t, seq!['~'] + s) > 0,
{
    let l = seq!['~'] + s;
    assert(l[0] == '~');
    assert(first_index(l, '~') == 0);
    assert(tilde_segment(l) =~= Seq::<char>::empty());
    assert(tilde_found(l));
    lemma_first_index(t, '~');
    if t.len() == 0 {
        assert(tilde_segment(t) =~= Seq::<char>::empty());
        assert(!tilde_found(t));
    } else {
        assert(first_index(t, '~') > 0);
        assert(tilde_segment(t).len() > 0);
    }
}

/// Outside digits and `~`, a character that is no letter sorts before a
/// letter, whatever follows either of them.
pub proof fn lemma_nondigit_order_letters_last(c: char, d: char, s: Seq<char>, t: Seq<char>)
    requires
        !alphabetic(c),
        alphabetic(d),
        c != '~',
        d != '~',
    ensures
        nondigit_order(seq![c] + s, seq![d] + t) < 0,
        nondigit_order(seq![d] + t, seq![c] + s) > 0,
{
    let l = seq![c] + s;
    let r = seq![d] + t;
    assert(l[0] == c && r[0] == d);
    lemma_first_index(l, '~');
    lemma_first_index(r, '~');
    assert(first_index(l, '~') > 0);
    assert(first_index(r, '~') > 0);
    let ls = tilde_segment(l);
    let rs = tilde_segment(r);
    assert(ls[0] == c && rs[0] == d);
    assert(lex_order(ls, rs) == -1);
    assert(lex_order(rs, ls) == 1);
}

/// A run of digits that a non-digit (or the end) follows is the run.
proof fn lemma_run_len_prefix(x: Seq<char>, s: Seq<char>)
    requires
        all_digits(x),
        s.len() == 0 || !is_digit(s[0]),
    ensures
        run_len(x + s, true) == x.len(),
    decreases x.len(),
{
    if x.len() == 0 {
        assert(x + s =~= s);
    } else {
        assert((x + s).drop_first() =~= x.drop_first() + s);
        assert(all_digits(x.drop_first())) by {
            assert forall|i: int| 0 <= i < x.drop_first().len() implies is_digit(#[trigger] x.drop_first()[i]) by {
                assert(x.drop_first()[i] == x[i + 1]);
            }
        }
        lemma_run_len_prefix(x.drop_first(), s);
        assert((x + s)[0] == x[0]);
    }
}

/// Parts that start with numbers of different value are ordered by those
/// numbers, whatever follows them (each number small enough to be read as
/// a `u64`): `1.0` sorts before `2.0`, and `9a` before `10`.
pub proof fn lemma_parts_order_leading_number(x: Seq<char>, s: Seq<char>, y: Seq<char>, t: Seq<char>)
    requires
        x.len() > 0,
        y.len() > 0,
        all_digits(x),
        all_digits(y),
        s.len() == 0 || !is_digit(s[0]),
        t.len() == 0 || !is_digit(t[0]),
        digits_value(x) <= u64::MAX,
        digits_value(y) <= u64::MAX,
        digits_value(x) != digits_value(y),
    ensures
        parts_order(x + s, y + t) < 0 <==> digits_value(x) < digits_value(y),
        parts_order(x + s, y + t) != 0,
{
    let l = x + s;
    let r = y + t;
    assert(l[0] == x[0] && is_digit(x[0]));
    assert(r[0] == y[0] && is_digit(y[0]));
    assert(run_len(l, false) == 0);
    assert(run_len(r, false) == 0);
    assert(head_text(l) =~= Seq::<char>::empty());
    assert(head_text(r) =~= Seq::<char>::empty());
    assert(after_text(l) =~= l);
    assert(after_text(r) =~= r);
    lemma_run_len_prefix(x, s);
    lemma_run_len_prefix(y, t);
    assert(l.subrange(0, x.len() as int) =~= x);
    assert(r.subrange(0, y.len() as int) =~= y);
    assert(head_number(l) == digits_value(x));
    assert(head_number(r) == digits_value(y));
    assert(nondigit_order(Seq::<char>::empty(), Seq::<char>::empty()) == 0);
}

pub proof fn lemma_run_len(s: Seq<char>, digits: bool)
    ensures
        run_len(s, digits) <= s.len(),
        forall|i: int| 0 <= i < run_len(s, digits) ==> is_digit(#[trigger] s[i]) == digits,
        run_len(s, digits) < s.len() ==> is_digit(s[run_len(s, digits) as int]) != digits,
    decreases s.len(),
{
    if s.len() > 0 && is_digit(s[0]) == digits {
        lemma_run_len(s.drop_first(), digits);
        assert forall|i: int| 0 <= i < run_len(s, digits) implies is_digit(
            #[trigger] s[i],
        ) == digits by {
            if i > 0 {
                assert(s[i] == s.drop_first()[i - 1]);
            }
        }
        if run_len(s, digits) < s.len() {
            assert(s[run_len(s, digits) as int] == s.drop_first()[run_len(
                s.drop_first(),
                digits,
            ) as int]);
        }
    }
}

/// Each round of `parts_order` consumes at least one character of a
/// non-empty string, and none of an empty one.
pub proof fn lemma_rest_parts_shorter(s: Seq<char>)
    ensures
        rest_parts(s).len() <= s.len(),
        s.len() > 0 ==> rest_parts(s).len() < s.len(),
        s.len() == 0 ==> rest_parts(s) == s && head_text(s) == s && head_number(s) == 0,
{
    lemma_run_len(s, false);
    let t = after_text(s);
    lemma_run_len(t, true);
    if s.len() > 0 && run_len(s, false) == 0 {
        assert(t =~= s);
        assert(is_digit(t[0]));
    }
    if s.len() == 0 {
        assert(t.len() == 0);
        assert(rest_parts(s) =~= s);
        assert(head_text(s) =~= s);
        assert(t.subrange(0, 0) =~= Seq::<char>::empty());
    }
}

// ---------------------------------------------------------------------
// Lexicographic order
// ---------------------------------------------------------------------

pub proof fn lemma_lex_order_basics(a: Seq<char>, b: Seq<char>)
    ensures
        lex_order(a, b) == -lex_order(b, a),
        -1 <= lex_order(a, b) <= 1,
        lex_order(a, b) == 0 <==> a == b,
    decreases a.len(),
{
    if a.len() > 0 && b.len() > 0 {
        lemma_lex_order_basics(a.drop_first(), b.drop_first());
        if a[0] == b[0] && a.drop_first() == b.drop_first() {
            assert(a =~= b) by {
                assert forall|i: int| 0 <= i < a.len() implies a[i] == b[i] by {
                    if i > 0 {
                        assert(a[i] == a.drop_first()[i - 1]);
                        assert(b[i] == b.drop_first()[i - 1]);
                    }
                }
            }
        }
        if a == b {
            assert(a.drop_first() =~= b.drop_first());
        }
    } else if a.len() == 0 && b.len() == 0 {
        assert(a =~= b);
    }
}

pub proof fn lemma_lex_order_trans(a: Seq<char>, b: Seq<char>, c: Seq<char>)
    requires
        lex_order(a, b) <= 0,
        lex_order(b, c) <= 0,
    ensures
        lex_order(a, c) <= 0,
    decreases a.len(),
{
    if a.len() > 0 && b.len() > 0 && c.len() > 0 {
        if a[0] == b[0] && b[0] == c[0] {
            lemma_lex_order_trans(a.drop_first(), b.drop_first(), c.drop_first());
        }
    }
}

// ---------------------------------------------------------------------
// Order on non-digit parts
// ---------------------------------------------------------------------

pub proof fn lemma_tilde_split(s: Seq<char>)
    ensures
        tilde_found(s) ==> s =~= tilde_segment(s) + seq!['~'] + tilde_tail(s),
        !tilde_found(s) ==> s =~= tilde_segment(s),
        tilde_found(s) ==> tilde_tail(s).len() < s.len(),
{
    lemma_first_index(s, '~');
}

pub proof fn lemma_nondigit_order_basics(l: Seq<char>, r: Seq<char>)
    ensures
        nondigit_order(l, r) == -nondigit_order(r, l),
        nondigit_order(l, r) == 0 <==> l == r,
    decreases l.len() + r.len(),
{
    lemma_tilde_split(l);
    lemma_tilde_split(r);
    lemma_lex_order_basics(tilde_segment(l), tilde_segment(r));
    if l.len() == 0 && r.len() == 0 {
        assert(l =~= r);
    } else if tilde_found(l) && tilde_found(r) {
        lemma_nondigit_order_basics(tilde_tail(l), tilde_tail(r));
        if l == r {
            assert(tilde_segment(l) == tilde_segment(r));
            assert(tilde_tail(l) == tilde_tail(r));
        }
    } else if tilde_found(l) && !tilde_found(r) {
        if l == r {
            assert(tilde_found(r));
        }
    } else if !tilde_found(l) && tilde_found(r) {
        if l == r {
            assert(tilde_found(l));
        }
    }
}

/// The non-digit order is transitive.
pub proof fn lemma_nondigit_order_trans(a: Seq<char>, b: Seq<char>, c: Seq<char>)
    requires
        nondigit_order(a, b) <= 0,
        nondigit_order(b, c) <= 0,
    ensures
        nondigit_order(a, c) <= 0,
    decreases a.len() + b.len() + c.len(),
{
    let (sa, sb, sc) = (tilde_segment(a), tilde_segment(b), tilde_segment(c));
    lemma_tilde_split(a);
    lemma_tilde_split(b);
    lemma_tilde_split(c);
    lemma_lex_order_basics(sa, sb);
    lemma_lex_order_basics(sb, sc);
    lemma_lex_order_basics(sa, sc);
    lemma_nondigit_order_basics(a, b);
    lemma_nondigit_order_basics(b, c);
    lemma_nondigit_order_basics(a, c);
    if a.len() == 0 && c.len() == 0 {
        return;
    }
    // the segments are ordered
    assert(lex_order(sa, sb) <= 0) by {
        if a.len() == 0 && b.len() == 0 {
        }
    }
    assert(lex_order(sb, sc) <= 0) by {
        if b.len() == 0 && c.len() == 0 {
        }
    }
    lemma_lex_order_trans(sa, sb, sc);
    if lex_order(sa, sc) < 0 {
        return;
    }
    // all three segments are equal
    assert(sa == sc);
    if lex_order(sa, sb) < 0 {
        lemma_lex_order_trans(sb, sc, sa);
        assert(false);
    }
    assert(sa == sb && sb == sc);
    if tilde_found(a) && tilde_found(b) && tilde_found(c) {
        lemma_nondigit_order_trans(tilde_tail(a), tilde_tail(b), tilde_tail(c));
    }
}

// ---------------------------------------------------------------------
// Order on version parts
// ---------------------------------------------------------------------

/// `parts_order` is the lexicographic combination of the non-digit order,
/// the numeric order and the order on the rest, for empty strings too.
pub proof fn lemma_parts_order_unfold(l: Seq<char>, r: Seq<char>)
    ensures
        parts_order(l, r) == (if nondigit_order(head_text(l), head_text(r)) != 0 {
            nondigit_order(head_text(l), head_text(r))
        } else if head_number(l) < head_number(r) {
            -1
        } else if head_number(l) > head_number(r) {
            1
        } else {
            parts_order(rest_parts(l), rest_parts(r))
        }),
{
    if l.len() == 0 && r.len() == 0 {
        lemma_rest_parts_shorter(l);
        lemma_rest_parts_shorter(r);
        lemma_nondigit_order_basics(head_text(l), head_text(r));
    }
}

pub proof fn lemma_parts_order_antisym(l: Seq<char>, r: Seq<char>)
    ensures
        parts_order(l, r) == -parts_order(r, l),
    decreases l.len() + r.len(),
{
    lemma_parts_order_unfold(l, r);
    lemma_parts_order_unfold(r, l);
    lemma_nondigit_order_basics(head_text(l), head_text(r));
    if !(l.len() == 0 && r.len() == 0) {
        lemma_rest_parts_shorter(l);
        lemma_rest_parts_shorter(r);
        lemma_parts_order_antisym(rest_parts(l), rest_parts(r));
    }
}

pub proof fn lemma_parts_order_refl(l: Seq<char>)
    ensures
        parts_order(l, l) == 0,
{
    lemma_parts_order_antisym(l, l);
}

/// The order on version parts is transitive.
pub proof fn lemma_parts_order_trans(a: Seq<char>, b: Seq<char>, c: Seq<char>)
    requires
        parts_order(a, b) <= 0,
        parts_order(b, c) <= 0,
    ensures
        parts_order(a, c) <= 0,
    decreases a.len() + b.len() + c.len(),
{
    if a.len() == 0 && b.len() == 0 && c.len() == 0 {
        return;
    }
    lemma_parts_order_unfold(a, b);
    lemma_parts_order_unfold(b, c);
    lemma_parts_order_unfold(a, c);
    let (ha, hb, hc) = (head_text(a), head_text(b), head_text(c));
    lemma_nondigit_order_basics(ha, hb);
    lemma_nondigit_order_basics(hb, hc);
    lemma_nondigit_order_basics(ha, hc);
    assert(nondigit_order(ha, hb) <= 0);
    assert(nondigit_order(hb, hc) <= 0);
    lemma_nondigit_order_trans(ha, hb, hc);
    if nondigit_order(ha, hc) < 0 {
        return;
    }
    assert(ha == hc);
    if nondigit_order(ha, hb) < 0 {
        lemma_nondigit_order_trans(hb, hc, ha);
        assert(false);
    }
    assert(ha == hb);
    if head_number(a) < head_number(c) {
        return;
    }
    assert(head_number(a) == head_number(b) && head_number(b) == head_number(c));
    lemma_rest_parts_shorter(a);
    lemma_rest_parts_shorter(b);
    lemma_rest_parts_shorter(c);
    lemma_parts_order_trans(rest_parts(a), rest_parts(b), rest_parts(c));
}


// ---------------------------------------------------------------------
// Executable versions, on ranges of character vectors
// ---------------------------------------------------------------------

/// Whether `a` sorts before `b` in the non-digit parts of a version.
pub fn precedes(a: char, b: char) -> (r: bool)
    ensures
        r == char_before(a, b),
{
    let la = is_alphabetic(a);
    let lb = is_alphabetic(b);
    (!la && lb) || (la == lb && a < b)
}

/// Lexicographic order of `a[af..at]` and `b[bf..bt]`.
pub fn lex_order_of(a: &Vec<char>, af: usize, at: usize, b: &Vec<char>, bf: usize, bt: usize) -> (r: i8)
    requires
        af <= at <= a.len(),
        bf <= bt <= b.len(),
    ensures
        r == lex_order(a@.subrange(af as int, at as int), b@.subrange(bf as int, bt as int)),
{
    let mut i = af;
    let mut j = bf;
    while i < at && j < bt
        invariant
            af <= i <= at <= a.len(),
            bf <= j <= bt <= b.len(),
            i - af == j - bf,
            lex_order(a@.subrange(af as int, at as int), b@.subrange(bf as int, bt as int))
                == lex_order(a@.subrange(i as int, at as int), b@.subrange(j as int, bt as int)),
        decreases at - i,
    {
        let ghost x = a@.subrange(i as int, at as int);
        let ghost y = b@.subrange(j as int, bt as int);
        assert(x[0] == a@[i as int]);
        assert(y[0] == b@[j as int]);
        if precedes(a[i], b[j]) {
            return -1;
        }
        if precedes(b[j], a[i]) {
            return 1;
        }
        assert(x.drop_first() =~= a@.subrange(i + 1, at as int));
        assert(y.drop_first() =~= b@.subrange(j + 1, bt as int));
        i = i + 1;
        j = j + 1;
    }
    if i == at {
        if j == bt {
            0
        } else {
            -1
        }
    } else {
        1
    }
}

/// End of the run of digits (`digits`) or non-digits (`!digits`) that
/// starts at `from` in `v[from..to]`.
pub fn run_end(v: &Vec<char>, from: usize, to: usize, digits: bool) -> (r: usize)
    requires
        from <= to <= v.len(),
    ensures
        from <= r <= to,
        r - from == run_len(v@.subrange(from as int, to as int), digits),
{
    let mut i = from;
    while i < to && (('0' <= v[i] && v[i] <= '9') == digits)
        invariant
            from <= i <= to <= v.len(),
            run_len(v@.subrange(from as int, to as int), digits) == (i - from) + run_len(
                v@.subrange(i as int, to as int),
                digits,
            ),
        decreases to - i,
    {
        let ghost s = v@.subrange(i as int, to as int);
        assert(s[0] == v@[i as int]);
        assert(s.drop_first() =~= v@.subrange(i + 1, to as int));
        i = i + 1;
    }
    i
}

/// Non-digit order of `l[lf..lt]` and `r[rf..rt]`.
pub fn nondigit_order_of(l: &Vec<char>, lf: usize, lt: usize, r: &Vec<char>, rf: usize, rt: usize) -> (o: i8)
    requires
        lf <= lt <= l.len(),
        rf <= rt <= r.len(),
    ensures
        o == nondigit_order(l@.subrange(lf as int, lt as int), r@.subrange(rf as int, rt as int)),
{
    let mut lp = lf;
    let mut rp = rf;
    while lp < lt || rp < rt
        invariant
            lf <= lp <= lt <= l.len(),
            rf <= rp <= rt <= r.len(),
            nondigit_order(l@.subrange(lf as int, lt as int), r@.subrange(rf as int, rt as int))
                == nondigit_order(l@.subrange(lp as int, lt as int), r@.subrange(rp as int, rt as int)),
        decreases (lt - lp) + (rt - rp),
    {
        let ghost x = l@.subrange(lp as int, lt as int);
        let ghost y = r@.subrange(rp as int, rt as int);
        let li = find_in(l, lp, lt, '~');
        let ri = find_in(r, rp, rt, '~');
        assert(tilde_segment(x) =~= l@.subrange(lp as int, li as int));
        assert(tilde_segment(y) =~= r@.subrange(rp as int, ri as int));
        let c = lex_order_of(l, lp, li, r, rp, ri);
        if c != 0 {
            return c;
        }
        if li < lt && ri < rt {
            assert(tilde_tail(x) =~= l@.subrange(li + 1, lt as int));
            assert(tilde_tail(y) =~= r@.subrange(ri + 1, rt as int));
            lp = li + 1;
            rp = ri + 1;
        } else if li < lt {
            return -1;
        } else if ri < rt {
            return 1;
        } else {
            return 0;
        }
    }
    0
}

/// Order of version parts `l[lf..lt]` and `r[rf..rt]`.
pub fn parts_order_of(l: &Vec<char>, lf: usize, lt: usize, r: &Vec<char>, rf: usize, rt: usize) -> (o: i8)
    requires
        lf <= lt <= l.len(),
        rf <= rt <= r.len(),
    ensures
        o == parts_order(l@.subrange(lf as int, lt as int), r@.subrange(rf as int, rt as int)),
{
    let mut lp = lf;
    let mut rp = rf;
    while lp < lt || rp < rt
        invariant
            lf <= lp <= lt <= l.len(),
            rf <= rp <= rt <= r.len(),
            parts_order(l@.subrange(lf as int, lt as int), r@.subrange(rf as int, rt as int))
                == parts_order(l@.subrange(lp as int, lt as int), r@.subrange(rp as int, rt as int)),
        decreases (lt - lp) + (rt - rp),
    {
        let ghost x = l@.subrange(lp as int, lt as int);
        let ghost y = r@.subrange(rp as int, rt as int);
        // leading non-digits
        let lds = run_end(l, lp, lt, false);
        let rds = run_end(r, rp, rt, false);
        assert(head_text(x) =~= l@.subrange(lp as int, lds as int));
        assert(head_text(y) =~= r@.subrange(rp as int, rds as int));
        let c = nondigit_order_of(l, lp, lds, r, rp, rds);
        if c != 0 {
            return c;
        }
        // digits that follow
        let lde = run_end(l, lds, lt, true);
        let rde = run_end(r, rds, rt, true);
        assert(after_text(x) =~= l@.subrange(lds as int, lt as int));
        assert(after_text(y) =~= r@.subrange(rds as int, rt as int));
        let ln = run_number(l, lds, lde, lt);
        let rn = run_number(r, rds, rde, rt);
        if ln < rn {
            return -1;
        }
        if ln > rn {
            return 1;
        }
        assert(rest_parts(x) =~= l@.subrange(lde as int, lt as int));
        assert(rest_parts(y) =~= r@.subrange(rde as int, rt as int));
        proof {
            lemma_rest_parts_shorter(x);
            lemma_rest_parts_shorter(y);
        }
        lp = lde;
        rp = rde;
    }
    0
}

/// Non-digit order of two strings.
pub fn nondigit_order_str(l: &str, r: &str) -> (o: i8)
    ensures
        o == nondigit_order(l@, r@),
{
    let lv = chars_of(l);
    let rv = chars_of(r);
    assert(lv@.subrange(0, lv@.len() as int) =~= lv@);
    assert(rv@.subrange(0, rv@.len() as int) =~= rv@);
    nondigit_order_of(&lv, 0, lv.len(), &rv, 0, rv.len())
}

/// Order of two version parts.
pub fn parts_order_str(l: &str, r: &str) -> (o: i8)
    ensures
        o == parts_order(l@, r@),
{
    let lv = chars_of(l);
    let rv = chars_of(r);
    assert(lv@.subrange(0, lv@.len() as int) =~= lv@);
    assert(rv@.subrange(0, rv@.len() as int) =~= rv@);
    parts_order_of(&lv, 0, lv.len(), &rv, 0, rv.len())
}

/// Numeric value of the run of digits `v[from..end]`, where `end` ends
/// the digit run that starts at `from` in `v[from..to]`.
fn run_number(v: &Vec<char>, from: usize, end: usize, to: usize) -> (n: u64)
    requires
        from <= end <= to <= v.len(),
        end - from == run_len(v@.subrange(from as int, to as int), true),
    ensures
        n == digit_run_value(v@.subrange(from as int, to as int).subrange(0, end - from)),
{
    let ghost t = v@.subrange(from as int, to as int);
    proof {
        lemma_run_len(t, true);
        assert(t.subrange(0, end - from) =~= v@.subrange(from as int, end as int));
        assert(all_digits(v@.subrange(from as int, end as int))) by {
            assert forall|i: int| 0 <= i < end - from implies is_digit(
                #[trigger] v@.subrange(from as int, end as int)[i],
            ) by {
                assert(t[i] == v@.subrange(from as int, end as int)[i]);
            }
        }
    }
    match digits_value_upto(v, from, end, 0xffff_ffff_ffff_ffff) {
        Some(x) => x,
        None => 0,
    }
}

} // verus!
