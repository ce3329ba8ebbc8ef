//! Reading a crucible tree back from its saved form.
//!
//! The reader is forgiving in the way the saved form's writer expects: each
//! field is found by searching for its key, lists keep the entries that
//! parse, and a tree whose lists disagree on the node count reads as empty.
use vstd::prelude::*;
use crate::text::{is_digit, is_ws, nat_of, all_digits, trim, trim_spec, trim_start_spec, trim_end_spec, digits, decimal, lemma_digits_value};
use crate::crucible::{find_char, find_char_exec, lemma_find_first, effect_of_tag, effect_from_tag, CrucibleState, CrucibleNodeDyn, NodeLayout, CrucibleEffect, escaped, joined, quoted, edge_items, edge_list_text,
    name_items, description_items, tag_items, cost_items, flag_items, saved_form, tag_spec, effect_name, lemma_name_plain,
    lemma_tag_round_trip};

verus! {

// ── Searching ────────────────────────────────────────────────────────────────

/// `pat` stands in `s` at `i`.
pub open spec fn occurs_at(s: Seq<char>, pat: Seq<char>, i: int) -> bool {
    0 <= i && i + pat.len() <= s.len() && s.subrange(i, i + pat.len()) == pat
}

/// The first place at or after `i` where `pat` stands in `s`, or -1.
pub open spec fn find_from(s: Seq<char>, pat: Seq<char>, i: int) -> int
    decreases s.len() - i,
{
    if i < 0 || pat.len() == 0 || i + pat.len() > s.len() {
        -1
    } else if occurs_at(s, pat, i) {
        i
    } else {
        find_from(s, pat, i + 1)
    }
}

proof fn lemma_find_from_skip(s: Seq<char>, pat: Seq<char>, j: int, i: int)
    requires
        0 <= j <= i,
        forall|k: int| j <= k < i ==> !occurs_at(s, pat, k),
    ensures
        find_from(s, pat, j) == find_from(s, pat, i),
    decreases i - j,
{
    if j < i {
        lemma_find_from_skip(s, pat, j + 1, i);
    }
}

proof fn lemma_find_from_range(s: Seq<char>, pat: Seq<char>, i: int)
    ensures
        find_from(s, pat, i) < 0 || (i <= find_from(s, pat, i) && occurs_at(s, pat, find_from(s, pat, i))),
    decreases s.len() - i,
{
    if !(i < 0 || pat.len() == 0 || i + pat.len() > s.len()) && !occurs_at(s, pat, i) {
        lemma_find_from_range(s, pat, i + 1);
    }
}

/// Whether `pat` stands in `s` at `i`.
fn occurs_at_exec(s: &str, pat: &str, i: usize) -> (b: bool)
    requires
        i + pat@.len() <= s@.len(),
    ensures
        b == occurs_at(s@, pat@, i as int),
{
    let n = s.unicode_len();
    let m = pat.unicode_len();
    let mut k: usize = 0;
    while k < m
        invariant
            n == s@.len(),
            m == pat@.len(),
            i + m <= s@.len(),
            k <= m,
            forall|j: int| 0 <= j < k ==> s@[i + j] == pat@[j],
        decreases m - k,
    {
        if s.get_char(i + k) != pat.get_char(k) {
            proof {
                assert(s@.subrange(i as int, i + m)[k as int] != pat@[k as int]);
            }
            return false;
        }
        k += 1;
    }
    assert(s@.subrange(i as int, i + m) =~= pat@);
    true
}

/// The first place at or after `from` where `pat` stands in `s`.
fn find_text(s: &str, pat: &str, from: usize) -> (r: Option<usize>)
    requires
        pat@.len() > 0,
    ensures
        match r {
            Some(p) => p == find_from(s@, pat@, from as int),
            None => find_from(s@, pat@, from as int) < 0,
        },
{
    let n = s.unicode_len();
    let m = pat.unicode_len();
    if from > n || m > n - from {
        return None;
    }
    let mut i = from;
    while i <= n - m
        invariant
            n == s@.len(),
            m == pat@.len(),
            m > 0,
            m <= n,
            from <= i,
            i <= n - m + 1,
            find_from(s@, pat@, from as int) == find_from(s@, pat@, i as int),
        decreases n - m + 1 - i,
    {
        if occurs_at_exec(s, pat, i) {
            return Some(i);
        }
        i += 1;
    }
    None
}

// ── Numbers ──────────────────────────────────────────────────────────────────

/// What unsigned integer parsing accepts: an optional `+`, then one or more
/// decimal digits, worth at most `max`.
pub open spec fn unsigned_spec(t: Seq<char>, max: int) -> Option<int> {
    let body = if t.len() > 0 && t[0] == '+' { t.drop_first() } else { t };
    if body.len() == 0 || !all_digits(body) || nat_of(body) > max {
        None
    } else {
        Some(nat_of(body))
    }
}

proof fn lemma_unsigned_nonneg(t: Seq<char>, max: int)
    ensures
        unsigned_spec(t, max) is Some ==> unsigned_spec(t, max)->0 >= 0,
{
    let body = if t.len() > 0 && t[0] == '+' { t.drop_first() } else { t };
    if all_digits(body) {
        lemma_nat_of_nonneg(body);
    }
}

proof fn lemma_nat_of_grows(s: Seq<char>, k: int)
    requires
        all_digits(s),
        0 <= k <= s.len(),
    ensures
        0 <= nat_of(s.subrange(0, k)) <= nat_of(s),
    decreases s.len() - k,
{
    if k < s.len() {
        assert(s.drop_last().subrange(0, k) =~= s.subrange(0, k));
        lemma_nat_of_grows(s.drop_last(), k);
    } else {
        assert(s.subrange(0, k) =~= s);
    }
    lemma_nat_of_nonneg(s);
}

proof fn lemma_nat_of_nonneg(s: Seq<char>)
    requires
        all_digits(s),
    ensures
        nat_of(s) >= 0,
    decreases s.len(),
{
    if s.len() > 0 {
        lemma_nat_of_nonneg(s.drop_last());
    }
}

/// Parses an unsigned number as `str::parse` does for `u32` and `usize`.
fn parse_unsigned(s: &str, max: u64) -> (r: Option<u64>)
    ensures
        match unsigned_spec(s@, max as int) {
            Some(v) => r == Some(v as u64),
            None => r.is_none(),
        },
{
    let n = s.unicode_len();
    let mut i: usize = 0;
    if n > 0 && s.get_char(0) == '+' {
        i = 1;
    }
    let ghost body = if s@.len() > 0 && s@[0] == '+' { s@.drop_first() } else { s@ };
    assert(body =~= s@.subrange(i as int, n as int));
    if i >= n {
        return None;
    }
    let start = i;
    let mut mag: u128 = 0;
    while i < n
        invariant
            n == s@.len(),
            start <= i <= n,
            start < n,
            body =~= s@.subrange(start as int, n as int),
            body == (if s@.len() > 0 && s@[0] == '+' { s@.drop_first() } else { s@ }),
            all_digits(s@.subrange(start as int, i as int)),
            mag == nat_of(s@.subrange(start as int, i as int)),
            mag <= max,
        decreases n - i,
    {
        let c = s.get_char(i);
        if !('0' <= c && c <= '9') {
            proof {
                assert(body[i - start] == s@[i as int]);
                assert(!is_digit(body[i - start]));
                assert(!all_digits(body));
            }
            return None;
        }
        let d = (c as u32 - '0' as u32) as u128;
        proof {
            let p = s@.subrange(start as int, i + 1);
            assert(p.drop_last() =~= s@.subrange(start as int, i as int));
            assert(p.last() == c);
        }
        mag = mag * 10 + d;
        i += 1;
        assert(mag == nat_of(s@.subrange(start as int, i as int)));
        assert(all_digits(s@.subrange(start as int, i as int)));
        if mag > max as u128 {
            proof {
                if all_digits(body) {
                    lemma_nat_of_grows(body, i - start);
                    assert(body.subrange(0, i - start) =~= s@.subrange(start as int, i as int));
                }
            }
            return None;
        }
    }
    assert(s@.subrange(start as int, n as int) =~= body);
    Some(mag as u64)
}

/// Length of the run of decimal digits at the start of `r`.
pub open spec fn digit_run(r: Seq<char>) -> int
    decreases r.len(),
{
    if r.len() == 0 || !is_digit(r[0]) {
        0
    } else {
        1 + digit_run(r.drop_first())
    }
}

proof fn lemma_digit_run(r: Seq<char>, k: int)
    requires
        0 <= k <= r.len(),
        forall|j: int| 0 <= j < k ==> is_digit(#[trigger] r[j]),
    ensures
        k == r.len() || !is_digit(r[k]) ==> digit_run(r) == k,
    decreases k,
{
    if k > 0 {
        assert forall|j: int| 0 <= j < k - 1 implies is_digit(#[trigger] r.drop_first()[j]) by {
            assert(r.drop_first()[j] == r[j + 1]);
        }
        lemma_digit_run(r.drop_first(), k - 1);
    }
}

/// The number written right after the first `needle` in `s`: the run of
/// digits there, parsed as a `u32`; `None` when the needle is missing or
/// the digits do not make a `u32`.
pub open spec fn number_after(s: Seq<char>, needle: Seq<char>) -> Option<int> {
    let p = find_from(s, needle, 0);
    if p < 0 {
        None
    } else {
        let rest = s.skip(p + needle.len());
        unsigned_spec(rest.take(digit_run(rest)), u32::MAX as int)
    }
}

/// The `u32` written right after the first `needle` in `s`.
fn extract_u32(s: &str, needle: &str) -> (r: Option<u32>)
    requires
        needle@.len() > 0,
    ensures
        match r {
            Some(x) => number_after(s@, needle@) == Some(x as int),
            None => number_after(s@, needle@) is None,
        },
{
    let p = match find_text(s, needle, 0) {
        Some(p) => p,
        None => return None,
    };
    proof {
        lemma_find_from_range(s@, needle@, 0);
    }
    let n = s.unicode_len();
    let start = p + needle.unicode_len();
    let mut end = start;
    while end < n && is_digit_exec(s.get_char(end))
        invariant
            n == s@.len(),
            start <= end <= n,
            forall|j: int| start <= j < end ==> is_digit(#[trigger] s@[j]),
        decreases n - end,
    {
        end += 1;
    }
    let ghost rest = s@.skip(start as int);
    proof {
        assert forall|j: int| 0 <= j < end - start implies is_digit(#[trigger] rest[j]) by {
            assert(rest[j] == s@[start + j]);
        }
        if end < n {
            assert(rest[end - start] == s@[end as int]);
        }
        lemma_digit_run(rest, end - start);
        assert(rest.take(end - start) =~= s@.subrange(start as int, end as int));
    }
    let sub = s.substring_char(start, end);
    assert(sub@ =~= rest.take(end - start));
    let r = parse_unsigned(sub, 0xffff_ffff);
    let ghost sv = unsigned_spec(sub@, 0xffff_ffff);
    match r {
        Some(v) => {
            assert(sv is Some);
            assert(sv->0 <= 0xffff_ffff);
            proof { lemma_unsigned_nonneg(sub@, 0xffff_ffffint); }
            assert(number_after(s@, needle@) == sv);
            Some(v as u32)
        },
        None => None,
    }
}

/// Whether `c` is a decimal digit.
fn is_digit_exec(c: char) -> (b: bool)
    ensures
        b == is_digit(c),
{
    '0' <= c && c <= '9'
}

// ── Lists ────────────────────────────────────────────────────────────────────

/// The pieces of `s` between `sep` characters, from the piece that began at
/// `start` with the scan at `i`, as `str::split` yields them.
pub open spec fn split_from(s: Seq<char>, sep: char, start: int, i: int) -> Seq<Seq<char>>
    decreases s.len() - i,
{
    if i >= s.len() {
        seq![s.subrange(start, s.len() as int)]
    } else if s[i] == sep {
        seq![s.subrange(start, i)] + split_from(s, sep, i + 1, i + 1)
    } else {
        split_from(s, sep, start, i + 1)
    }
}

/// The pieces of `s` between `sep` characters; one piece when there is none.
pub open spec fn pieces(s: Seq<char>, sep: char) -> Seq<Seq<char>> {
    split_from(s, sep, 0, 0)
}

/// The text of each string in a list.
pub open spec fn texts_of(v: Seq<&str>) -> Seq<Seq<char>> {
    Seq::new(v.len(), |k: int| v[k]@)
}

/// Splits `s` at every `sep`.
fn split_text<'a>(s: &'a str, sep: char) -> (v: Vec<&'a str>)
    ensures
        texts_of(v@) == pieces(s@, sep),
{
    let n = s.unicode_len();
    let mut v: Vec<&str> = Vec::new();
    let mut start: usize = 0;
    let mut i: usize = 0;
    assert(texts_of(v@) + split_from(s@, sep, 0, 0) =~= pieces(s@, sep));
    while i < n
        invariant
            n == s@.len(),
            start <= i <= n,
            texts_of(v@) + split_from(s@, sep, start as int, i as int) == pieces(s@, sep),
        decreases n - i,
    {
        if s.get_char(i) == sep {
            let piece = s.substring_char(start, i);
            let ghost before = v@;
            v.push(piece);
            proof {
                let rest = split_from(s@, sep, i + 1, i + 1);
                assert(texts_of(v@) =~= texts_of(before).push(piece@));
                assert(texts_of(before) + split_from(s@, sep, start as int, i as int) =~= texts_of(v@) + rest);
            }
            start = i + 1;
        }
        i += 1;
    }
    let piece = s.substring_char(start, n);
    let ghost before = v@;
    v.push(piece);
    proof {
        assert(texts_of(v@) =~= texts_of(before).push(piece@));
        assert(texts_of(before) + split_from(s@, sep, start as int, n as int) =~= texts_of(v@));
    }
    v
}

/// The pieces that, trimmed, parse as unsigned numbers up to `max`, in order.
pub open spec fn numbers_in(toks: Seq<Seq<char>>, max: int) -> Seq<int>
    decreases toks.len(),
{
    if toks.len() == 0 {
        Seq::empty()
    } else {
        let r = numbers_in(toks.drop_last(), max);
        match unsigned_spec(trim_spec(toks.last()), max) {
            Some(v) => r.push(v),
            None => r,
        }
    }
}

proof fn lemma_numbers_bounded(toks: Seq<Seq<char>>, max: int)
    ensures
        forall|k: int| 0 <= k < numbers_in(toks, max).len() ==> 0 <= #[trigger] numbers_in(toks, max)[k] <= max,
    decreases toks.len(),
{
    if toks.len() > 0 {
        lemma_numbers_bounded(toks.drop_last(), max);
        lemma_unsigned_nonneg(trim_spec(toks.last()), max);
        let r = numbers_in(toks.drop_last(), max);
        let all = numbers_in(toks, max);
        assert forall|k: int| 0 <= k < all.len() implies 0 <= #[trigger] all[k] <= max by {
            if k < r.len() {
                assert(all[k] == r[k]);
            }
        }
    }
}

/// The values of the pieces that parse as unsigned numbers up to `max`.
fn parse_numbers(toks: &Vec<&str>, max: u64) -> (v: Vec<u64>)
    ensures
        v@.len() == numbers_in(texts_of(toks@), max as int).len(),
        forall|k: int| 0 <= k < v@.len() ==> v@[k] == #[trigger] numbers_in(texts_of(toks@), max as int)[k],
{
    let mut v: Vec<u64> = Vec::new();
    let mut i: usize = 0;
    while i < toks.len()
        invariant
            i <= toks@.len(),
            v@.len() == numbers_in(texts_of(toks@).take(i as int), max as int).len(),
            forall|k: int| 0 <= k < v@.len() ==> v@[k] == #[trigger] numbers_in(texts_of(toks@).take(i as int), max as int)[k],
        decreases toks@.len() - i,
    {
        let t = trim(toks[i]);
        let ghost prev = texts_of(toks@).take(i as int);
        proof {
            assert(texts_of(toks@).take(i + 1).drop_last() =~= prev);
            assert(texts_of(toks@).take(i + 1).last() == toks@[i as int]@);
            lemma_unsigned_nonneg(t@, max as int);
        }
        match parse_unsigned(t, max) {
            Some(x) => {
                v.push(x);
            },
            None => {},
        }
        i += 1;
    }
    assert(texts_of(toks@).take(i as int) =~= texts_of(toks@));
    v
}

// ── Positions ────────────────────────────────────────────────────────────────

/// The character code of `c` with an ASCII capital made small.
pub open spec fn lower_code(c: char) -> int {
    if 'A' <= c <= 'Z' {
        c as int + 32
    } else {
        c as int
    }
}

/// `b` spells the lower-case word `w`, ignoring case.
pub open spec fn word_is(b: Seq<char>, w: Seq<char>) -> bool {
    b.len() == w.len() && forall|i: int| 0 <= i < b.len() ==> lower_code(#[trigger] b[i]) == w[i] as int
}

/// `t` without one leading `+` or `-`.
pub open spec fn sign_dropped(t: Seq<char>) -> Seq<char> {
    if t.len() > 0 && (t[0] == '+' || t[0] == '-') {
        t.drop_first()
    } else {
        t
    }
}

/// Digits with at most one `.`, and a digit on at least one side of it.
pub open spec fn mantissa_ok(m: Seq<char>) -> bool {
    let d = find_char(m, '.');
    if d < 0 {
        m.len() > 0 && all_digits(m)
    } else {
        all_digits(m.take(d)) && all_digits(m.skip(d + 1)) && (d > 0 || m.len() > d + 1)
    }
}

/// An optional sign, then one or more digits.
pub open spec fn exponent_ok(x: Seq<char>) -> bool {
    sign_dropped(x).len() > 0 && all_digits(sign_dropped(x))
}

/// Index of the first `e` or `E` in `b`, or -1.
pub open spec fn first_e(b: Seq<char>) -> int
    decreases b.len(),
{
    if b.len() == 0 {
        -1
    } else if b[0] == 'e' || b[0] == 'E' {
        0
    } else {
        let r = first_e(b.drop_first());
        if r < 0 {
            -1
        } else {
            r + 1
        }
    }
}

/// A decimal number with an optional exponent.
pub open spec fn number_syntax(b: Seq<char>) -> bool {
    let e = first_e(b);
    if e < 0 {
        mantissa_ok(b)
    } else {
        mantissa_ok(b.take(e)) && exponent_ok(b.skip(e + 1))
    }
}

/// What floating-point parsing accepts, as its documentation gives the
/// grammar: an optional sign, then `inf`, `infinity`, `nan` in any case, or a
/// decimal number with an optional exponent.
pub open spec fn float_syntax(t: Seq<char>) -> bool {
    let b = sign_dropped(t);
    word_is(b, "inf"@) || word_is(b, "infinity"@) || word_is(b, "nan"@) || number_syntax(b)
}

proof fn lemma_first_e(t: Seq<char>, k: int)
    requires
        0 <= k <= t.len(),
        forall|j: int| 0 <= j < k ==> #[trigger] t[j] != 'e' && t[j] != 'E',
        k < t.len() ==> t[k] == 'e' || t[k] == 'E',
    ensures
        first_e(t) == (if k < t.len() { k } else { -1 }),
    decreases k,
{
    if k > 0 {
        lemma_first_e(t.drop_first(), k - 1);
    }
}

/// Whether `s` holds only decimal digits.
fn all_digits_exec(s: &str) -> (b: bool)
    ensures
        b == all_digits(s@),
{
    let n = s.unicode_len();
    let mut i: usize = 0;
    while i < n
        invariant
            n == s@.len(),
            i <= n,
            forall|j: int| 0 <= j < i ==> is_digit(#[trigger] s@[j]),
        decreases n - i,
    {
        if !is_digit_exec(s.get_char(i)) {
            return false;
        }
        i += 1;
    }
    true
}

/// Whether `m` is digits with at most one point, a digit beside it.
fn mantissa_ok_exec(m: &str) -> (b: bool)
    ensures
        b == mantissa_ok(m@),
{
    let n = m.unicode_len();
    match find_char_exec(m, '.') {
        None => n > 0 && all_digits_exec(m),
        Some(d) => {
            let before = m.substring_char(0, d);
            let after = m.substring_char(d + 1, n);
            assert(before@ =~= m@.take(d as int));
            assert(after@ =~= m@.skip(d + 1));
            all_digits_exec(before) && all_digits_exec(after) && (d > 0 || n > d + 1)
        },
    }
}

/// `t` without one leading sign.
fn sign_dropped_exec(t: &str) -> (b: &str)
    ensures
        b@ == sign_dropped(t@),
{
    let n = t.unicode_len();
    if n > 0 && (t.get_char(0) == '+' || t.get_char(0) == '-') {
        let b = t.substring_char(1, n);
        assert(b@ =~= t@.drop_first());
        b
    } else {
        t
    }
}

/// Whether `b` is a decimal number with an optional exponent.
fn number_syntax_exec(b: &str) -> (r: bool)
    ensures
        r == number_syntax(b@),
{
    let n = b.unicode_len();
    let mut i: usize = 0;
    while i < n && b.get_char(i) != 'e' && b.get_char(i) != 'E'
        invariant
            n == b@.len(),
            i <= n,
            forall|j: int| 0 <= j < i ==> #[trigger] b@[j] != 'e' && b@[j] != 'E',
        decreases n - i,
    {
        i += 1;
    }
    proof {
        lemma_first_e(b@, i as int);
    }
    if i == n {
        mantissa_ok_exec(b)
    } else {
        let m = b.substring_char(0, i);
        let x = b.substring_char(i + 1, n);
        assert(m@ =~= b@.take(i as int));
        assert(x@ =~= b@.skip(i + 1));
        let xs = sign_dropped_exec(x);
        mantissa_ok_exec(m) && xs.unicode_len() > 0 && all_digits_exec(xs)
    }
}

/// `c` is `w`, or its capital when `w` is a small letter.
fn same_letter(c: char, w: char) -> (b: bool)
    requires
        'a' <= w <= 'z',
    ensures
        b == (lower_code(c) == w as int),
{
    c == w || ('A' <= c && c <= 'Z' && (c as u32) + 32 == w as u32)
}

/// Whether `b` spells the small-letter word `w`, ignoring case.
fn word_is_exec(b: &str, w: &str) -> (r: bool)
    requires
        forall|i: int| 0 <= i < w@.len() ==> 'a' <= #[trigger] w@[i] <= 'z',
    ensures
        r == word_is(b@, w@),
{
    let n = b.unicode_len();
    let m = w.unicode_len();
    if n != m {
        return false;
    }
    let mut i: usize = 0;
    while i < n
        invariant
            n == b@.len(),
            m == w@.len(),
            n == m,
            i <= n,
            forall|i: int| 0 <= i < w@.len() ==> 'a' <= #[trigger] w@[i] <= 'z',
            forall|j: int| 0 <= j < i ==> lower_code(#[trigger] b@[j]) == w@[j] as int,
        decreases n - i,
    {
        if !same_letter(b.get_char(i), w.get_char(i)) {
            return false;
        }
        i += 1;
    }
    true
}

/// Whether floating-point parsing accepts `t`.
fn float_syntax_exec(t: &str) -> (r: bool)
    ensures
        r == float_syntax(t@),
{
    let b = sign_dropped_exec(t);
    proof {
        reveal_strlit("inf");
        reveal_strlit("infinity");
        reveal_strlit("nan");
    }
    word_is_exec(b, "inf") || word_is_exec(b, "infinity") || word_is_exec(b, "nan") || number_syntax_exec(b)
}

/// The pieces that, trimmed, floating-point parsing accepts, trimmed.
pub open spec fn float_tokens(toks: Seq<Seq<char>>) -> Seq<Seq<char>>
    decreases toks.len(),
{
    if toks.len() == 0 {
        Seq::empty()
    } else {
        let r = float_tokens(toks.drop_last());
        let t = trim_spec(toks.last());
        if float_syntax(t) {
            r.push(t)
        } else {
            r
        }
    }
}

/// The text of each owned string in a list.
pub open spec fn owned_texts(v: Seq<String>) -> Seq<Seq<char>> {
    Seq::new(v.len(), |k: int| v[k]@)
}

/// The trimmed pieces that floating-point parsing accepts.
fn float_pieces(toks: &Vec<&str>) -> (v: Vec<String>)
    ensures
        owned_texts(v@) == float_tokens(texts_of(toks@)),
{
    let mut v: Vec<String> = Vec::new();
    let mut i: usize = 0;
    while i < toks.len()
        invariant
            i <= toks@.len(),
            owned_texts(v@) == float_tokens(texts_of(toks@).take(i as int)),
        decreases toks@.len() - i,
    {
        let t = trim(toks[i]);
        let ghost prev = texts_of(toks@).take(i as int);
        proof {
            assert(texts_of(toks@).take(i + 1).drop_last() =~= prev);
            assert(texts_of(toks@).take(i + 1).last() == toks@[i as int]@);
        }
        if float_syntax_exec(t) {
            let ghost before = v@;
            v.push(String::from_str(t));
            assert(owned_texts(v@) =~= owned_texts(before).push(t@));
        }
        i += 1;
    }
    assert(texts_of(toks@).take(i as int) =~= texts_of(toks@));
    v
}

// ── Quoted text ──────────────────────────────────────────────────────────────

/// Where quoted text that starts at `i` in `r` ends: the first `"` that no
/// backslash escapes, or the end of `r`.
pub open spec fn quote_end_from(r: Seq<char>, i: int) -> int
    decreases r.len() - i,
{
    if i < 0 || i >= r.len() {
        r.len() as int
    } else if r[i] == '\\' {
        if i + 1 >= r.len() {
            r.len() as int
        } else {
            quote_end_from(r, i + 2)
        }
    } else if r[i] == '"' {
        i
    } else {
        quote_end_from(r, i + 1)
    }
}

/// `s` with each backslash that stands before a `b` dropped, scanning left
/// to right without overlap.
pub open spec fn drop_escape(s: Seq<char>, b: char) -> Seq<char>
    decreases s.len(),
{
    if s.len() == 0 {
        Seq::empty()
    } else if s.len() >= 2 && s[0] == '\\' && s[1] == b {
        seq![b] + drop_escape(s.skip(2), b)
    } else {
        seq![s[0]] + drop_escape(s.drop_first(), b)
    }
}

/// Quoted text as read back: escaped quotes first, then escaped backslashes.
pub open spec fn unescaped(raw: Seq<char>) -> Seq<char> {
    drop_escape(drop_escape(raw, '"'), '\\')
}

/// `s` with each backslash before a `b` dropped.
fn drop_escape_exec(s: &str, b: char) -> (out: String)
    ensures
        out@ == drop_escape(s@, b),
{
    let n = s.unicode_len();
    let mut out = String::new();
    let mut i: usize = 0;
    assert(s@.skip(0) =~= s@);
    assert(out@ + drop_escape(s@.skip(0), b) =~= drop_escape(s@, b));
    while i < n
        invariant
            n == s@.len(),
            i <= n,
            out@ + drop_escape(s@.skip(i as int), b) == drop_escape(s@, b),
        decreases n - i,
    {
        let ghost rest = s@.skip(i as int);
        let ghost before = out@;
        if i + 1 < n && s.get_char(i) == '\\' && s.get_char(i + 1) == b {
            out.append(s.substring_char(i + 1, i + 2));
            proof {
                assert(rest.skip(2) =~= s@.skip(i + 2));
                assert(s@.subrange(i + 1, i + 2) =~= seq![b]);
                assert(before + drop_escape(rest, b) =~= out@ + drop_escape(s@.skip(i + 2), b));
            }
            i += 2;
        } else {
            out.append(s.substring_char(i, i + 1));
            proof {
                assert(rest.drop_first() =~= s@.skip(i + 1));
                assert(s@.subrange(i as int, i + 1) =~= seq![rest[0]]);
                assert(before + drop_escape(rest, b) =~= out@ + drop_escape(s@.skip(i + 1), b));
            }
            i += 1;
        }
    }
    assert(s@.skip(n as int) =~= Seq::<char>::empty());
    assert(out@ =~= out@ + drop_escape(s@.skip(n as int), b));
    out
}

/// Quoted text read back: escaped quotes, then escaped backslashes.
fn unescape_exec(raw: &str) -> (out: String)
    ensures
        out@ == unescaped(raw@),
{
    let once = drop_escape_exec(raw, '"');
    drop_escape_exec(once.as_str(), '\\')
}

/// The quoted text right after the first `needle` in `s`, read back; empty
/// when the needle is missing.
pub open spec fn string_after(s: Seq<char>, needle: Seq<char>) -> Seq<char> {
    let p = find_from(s, needle, 0);
    if p < 0 {
        Seq::empty()
    } else {
        let rest = s.skip(p + needle.len());
        unescaped(rest.take(quote_end_from(rest, 0)))
    }
}

/// The quoted text right after the first `needle` in `s`, read back.
fn extract_string(s: &str, needle: &str) -> (out: String)
    requires
        needle@.len() > 0,
    ensures
        out@ == string_after(s@, needle@),
{
    let p = match find_text(s, needle, 0) {
        Some(p) => p,
        None => return String::new(),
    };
    proof {
        lemma_find_from_range(s@, needle@, 0);
    }
    let n = s.unicode_len();
    let rest = s.substring_char(p + needle.unicode_len(), n);
    let m = rest.unicode_len();
    let mut j: usize = 0;
    while j < m
        invariant
            m == rest@.len(),
            j <= m,
            quote_end_from(rest@, 0) == quote_end_from(rest@, j as int),
        ensures
            quote_end_from(rest@, 0) == j,
        decreases m - j,
    {
        let c = rest.get_char(j);
        if c == '\\' {
            if j + 1 >= m {
                j = m;
                break;
            }
            j += 2;
        } else if c == '"' {
            break;
        } else {
            j += 1;
        }
    }
    assert(quote_end_from(rest@, 0) == j);
    let raw = rest.substring_char(0, j);
    assert(raw@ =~= rest@.take(j as int));
    unescape_exec(raw)
}

/// Where the list that opens before `pos` closes: the `]` that brings the
/// bracket depth to 0, skipping brackets inside quoted text, or the end.
pub open spec fn array_end(s: Seq<char>, pos: int, depth: int, in_str: bool, esc: bool) -> int
    decreases s.len() - pos,
{
    if pos < 0 || pos >= s.len() || depth <= 0 {
        pos
    } else if esc {
        array_end(s, pos + 1, depth, in_str, false)
    } else if s[pos] == '\\' && in_str {
        array_end(s, pos + 1, depth, in_str, true)
    } else if s[pos] == '"' {
        array_end(s, pos + 1, depth, !in_str, false)
    } else if s[pos] == '[' && !in_str {
        array_end(s, pos + 1, depth + 1, in_str, false)
    } else if s[pos] == ']' && !in_str {
        if depth == 1 {
            pos
        } else {
            array_end(s, pos + 1, depth - 1, in_str, false)
        }
    } else {
        array_end(s, pos + 1, depth, in_str, false)
    }
}

/// The quoted strings of a list's inside, read back, scanning from `pos`:
/// `mode` 0 is between strings, 1 inside one that began at `start`, 2 just
/// after a backslash inside one. A string left open runs to the end.
pub open spec fn strings_from(t: Seq<char>, pos: int, mode: int, start: int) -> Seq<Seq<char>>
    decreases t.len() - pos,
{
    if pos < 0 || pos >= t.len() {
        if mode == 0 {
            Seq::empty()
        } else {
            seq![unescaped(t.subrange(start, t.len() as int))]
        }
    } else if mode == 0 {
        if t[pos] == '"' {
            strings_from(t, pos + 1, 1, pos + 1)
        } else {
            strings_from(t, pos + 1, 0, start)
        }
    } else if mode == 2 {
        strings_from(t, pos + 1, 1, start)
    } else if t[pos] == '\\' {
        strings_from(t, pos + 1, 2, start)
    } else if t[pos] == '"' {
        seq![unescaped(t.subrange(start, pos))] + strings_from(t, pos + 1, 0, start)
    } else {
        strings_from(t, pos + 1, 1, start)
    }
}

/// The strings of the list right after the first `needle` in `s`.
pub open spec fn string_list_after(s: Seq<char>, needle: Seq<char>) -> Seq<Seq<char>> {
    let p = find_from(s, needle, 0);
    if p < 0 {
        Seq::empty()
    } else {
        let start = p + needle.len();
        strings_from(s.subrange(start, array_end(s, start, 1, false, false)), 0, 0, 0)
    }
}

/// The quoted strings of a list's inside, read back.
fn scan_strings(t: &str) -> (v: Vec<String>)
    ensures
        owned_texts(v@) == strings_from(t@, 0, 0, 0),
{
    let n = t.unicode_len();
    let mut v: Vec<String> = Vec::new();
    let mut pos: usize = 0;
    let mut mode: u8 = 0;
    let mut start: usize = 0;
    assert(owned_texts(v@) + strings_from(t@, 0, 0, 0) =~= strings_from(t@, 0, 0, 0));
    while pos < n
        invariant
            n == t@.len(),
            pos <= n,
            start <= pos,
            mode <= 2,
            owned_texts(v@) + strings_from(t@, pos as int, mode as int, start as int) == strings_from(t@, 0, 0, 0),
        decreases n - pos,
    {
        let c = t.get_char(pos);
        if mode == 0 {
            if c == '"' {
                mode = 1;
                start = pos + 1;
            }
        } else if mode == 2 {
            mode = 1;
        } else if c == '\\' {
            mode = 2;
        } else if c == '"' {
            let text = unescape_exec(t.substring_char(start, pos));
            let ghost before = v@;
            let ghost rest = strings_from(t@, pos + 1, 0, start as int);
            v.push(text);
            proof {
                assert(owned_texts(v@) =~= owned_texts(before).push(text@));
                assert(owned_texts(before) + (seq![text@] + rest) =~= owned_texts(v@) + rest);
            }
            mode = 0;
        }
        pos += 1;
    }
    if mode != 0 {
        let text = unescape_exec(t.substring_char(start, n));
        let ghost before = v@;
        v.push(text);
        assert(owned_texts(v@) =~= owned_texts(before).push(text@));
        assert(owned_texts(before) + seq![text@] =~= owned_texts(v@));
    } else {
        assert(owned_texts(v@) + Seq::<Seq<char>>::empty() =~= owned_texts(v@));
    }
    v
}

/// The strings of the list right after the first `needle` in `s`.
fn extract_string_array(s: &str, needle: &str) -> (v: Vec<String>)
    requires
        needle@.len() > 0,
    ensures
        owned_texts(v@) == string_list_after(s@, needle@),
{
    let p = match find_text(s, needle, 0) {
        Some(p) => p,
        None => {
            let v: Vec<String> = Vec::new();
            assert(owned_texts(v@) =~= Seq::<Seq<char>>::empty());
            return v;
        },
    };
    proof {
        lemma_find_from_range(s@, needle@, 0);
    }
    let n = s.unicode_len();
    let start = p + needle.unicode_len();
    let mut pos = start;
    let mut depth: usize = 1;
    let mut in_str = false;
    let mut esc = false;
    while pos < n && depth > 0
        invariant
            n == s@.len(),
            1 <= start <= pos <= n,
            1 <= depth <= pos - start + 1,
            array_end(s@, start as int, 1, false, false) == array_end(s@, pos as int, depth as int, in_str, esc),
        ensures
            array_end(s@, start as int, 1, false, false) == pos,
        decreases n - pos,
    {
        let c = s.get_char(pos);
        if esc {
            esc = false;
        } else if c == '\\' && in_str {
            esc = true;
        } else if c == '"' {
            in_str = !in_str;
        } else if c == '[' && !in_str {
            depth += 1;
        } else if c == ']' && !in_str {
            if depth == 1 {
                break;
            }
            depth -= 1;
        }
        pos += 1;
    }
    assert(array_end(s@, start as int, 1, false, false) == pos);
    let inner = s.substring_char(start, pos);
    scan_strings(inner)
}

/// The numbers of the list right after the first `needle` in `s`, up to its
/// first `]`: the comma-separated pieces that parse as a `u32`.
pub open spec fn number_list_after(s: Seq<char>, needle: Seq<char>) -> Seq<int> {
    let p = find_from(s, needle, 0);
    if p < 0 {
        Seq::empty()
    } else {
        let start = p + needle.len();
        let q = find_char(s.skip(start), ']');
        if q < 0 {
            Seq::empty()
        } else {
            numbers_in(pieces(s.subrange(start, start + q), ','), u32::MAX as int)
        }
    }
}

/// The positions of the list right after the first `needle` in `s`, up to
/// its first `]`: the trimmed comma-separated pieces that floating-point
/// parsing accepts.
pub open spec fn float_list_after(s: Seq<char>, needle: Seq<char>) -> Seq<Seq<char>> {
    let p = find_from(s, needle, 0);
    if p < 0 {
        Seq::empty()
    } else {
        let start = p + needle.len();
        let q = find_char(s.skip(start), ']');
        if q < 0 {
            Seq::empty()
        } else {
            float_tokens(texts_of_pieces(s.subrange(start, start + q)))
        }
    }
}

/// The comma-separated pieces of `s`.
pub open spec fn texts_of_pieces(s: Seq<char>) -> Seq<Seq<char>> {
    pieces(s, ',')
}

/// The inside of the list right after the first `needle`, up to its first
/// `]`, if both are there.
fn list_inside<'a>(s: &'a str, needle: &str) -> (r: Option<&'a str>)
    requires
        needle@.len() > 0,
    ensures
        match r {
            Some(t) => {
                let p = find_from(s@, needle@, 0);
                let start = p + needle@.len();
                let q = find_char(s@.skip(start), ']');
                p >= 0 && q >= 0 && t@ == s@.subrange(start, start + q)
            },
            None => {
                let p = find_from(s@, needle@, 0);
                p < 0 || find_char(s@.skip(p + needle@.len()), ']') < 0
            },
        },
{
    let p = match find_text(s, needle, 0) {
        Some(p) => p,
        None => return None,
    };
    proof {
        lemma_find_from_range(s@, needle@, 0);
    }
    let n = s.unicode_len();
    let start = p + needle.unicode_len();
    let rest = s.substring_char(start, n);
    assert(rest@ =~= s@.skip(start as int));
    match find_char_exec(rest, ']') {
        Some(q) => {
            let t = s.substring_char(start, start + q);
            Some(t)
        },
        None => None,
    }
}

/// The numbers of the list right after the first `needle` in `s`.
fn extract_u32_array(s: &str, needle: &str) -> (v: Vec<u64>)
    requires
        needle@.len() > 0,
    ensures
        v@.len() == number_list_after(s@, needle@).len(),
        forall|k: int| 0 <= k < v@.len() ==> v@[k] == #[trigger] number_list_after(s@, needle@)[k],
        forall|k: int| 0 <= k < v@.len() ==> #[trigger] v@[k] <= u32::MAX,
{
    match list_inside(s, needle) {
        Some(t) => {
            let toks = split_text(t, ',');
            proof {
                lemma_numbers_bounded(texts_of(toks@), 0xffff_ffff);
            }
            let v = parse_numbers(&toks, 0xffff_ffff);
            assert forall|k: int| 0 <= k < v@.len() implies #[trigger] v@[k] <= u32::MAX by {
                assert(v@[k] == numbers_in(texts_of(toks@), 0xffff_ffff)[k]);
            }
            v
        },
        None => Vec::new(),
    }
}

/// The position texts of the list right after the first `needle` in `s`:
/// the entries that floating-point parsing accepts.
fn extract_f64_array(s: &str, needle: &str) -> (v: Vec<String>)
    requires
        needle@.len() > 0,
    ensures
        owned_texts(v@) == float_list_after(s@, needle@),
{
    match list_inside(s, needle) {
        Some(t) => {
            let toks = split_text(t, ',');
            float_pieces(&toks)
        },
        None => {
            let v: Vec<String> = Vec::new();
            assert(owned_texts(v@) =~= Seq::<Seq<char>>::empty());
            v
        },
    }
}

// ── The whole tree ───────────────────────────────────────────────────────────

/// The numbers of `xs` below `n`, in order.
pub open spec fn below(xs: Seq<int>, n: int) -> Seq<int>
    decreases xs.len(),
{
    if xs.len() == 0 {
        Seq::empty()
    } else {
        let r = below(xs.drop_last(), n);
        if xs.last() < n {
            r.push(xs.last())
        } else {
            r
        }
    }
}

/// The neighbours of node `i` read from adjacency text: the `i`-th of its
/// `;`-separated groups, its comma-separated pieces that parse as `usize`
/// and name one of the `n` nodes; none when the group is missing.
pub open spec fn group_edges(eg: Seq<char>, n: int, i: int) -> Seq<int> {
    let groups = pieces(eg, ';');
    if i < groups.len() {
        below(numbers_in(pieces(groups[i], ','), usize::MAX as int), n)
    } else {
        Seq::empty()
    }
}

/// The node count of a saved tree.
pub open spec fn saved_count(j: Seq<char>) -> Option<int> {
    number_after(j, "\"nc\":"@)
}

/// The node names of a saved tree.
pub open spec fn saved_names(j: Seq<char>) -> Seq<Seq<char>> {
    string_list_after(j, "\"nm\":["@)
}

/// The node descriptions of a saved tree.
pub open spec fn saved_descriptions(j: Seq<char>) -> Seq<Seq<char>> {
    string_list_after(j, "\"ds\":["@)
}

/// The effect tags of a saved tree.
pub open spec fn saved_tags(j: Seq<char>) -> Seq<Seq<char>> {
    string_list_after(j, "\"fx\":["@)
}

/// The node costs of a saved tree.
pub open spec fn saved_costs(j: Seq<char>) -> Seq<int> {
    number_list_after(j, "\"xc\":["@)
}

/// The horizontal positions of a saved tree, as text.
pub open spec fn saved_xs(j: Seq<char>) -> Seq<Seq<char>> {
    float_list_after(j, "\"px\":["@)
}

/// The vertical positions of a saved tree, as text.
pub open spec fn saved_ys(j: Seq<char>) -> Seq<Seq<char>> {
    float_list_after(j, "\"py\":["@)
}

/// The adjacency text of a saved tree.
pub open spec fn saved_adjacency(j: Seq<char>) -> Seq<char> {
    string_after(j, "\"eg\":\""@)
}

/// The unlock flags of a saved tree.
pub open spec fn saved_flags(j: Seq<char>) -> Seq<int> {
    number_list_after(j, "\"al\":["@)
}

/// The banked XP of a saved tree; 0 when it is missing or not a `u32`.
pub open spec fn saved_xp(j: Seq<char>) -> int {
    match number_after(j, "\"xp\":"@) {
        Some(v) => v,
        None => 0,
    }
}

/// A saved tree can be read: it has a positive node count, and every list
/// holds one entry per node.
pub open spec fn readable(j: Seq<char>) -> bool {
    match saved_count(j) {
        Some(n) => {
            &&& n > 0
            &&& saved_names(j).len() == n
            &&& saved_descriptions(j).len() == n
            &&& saved_tags(j).len() == n
            &&& saved_costs(j).len() == n
            &&& saved_xs(j).len() == n
            &&& saved_ys(j).len() == n
            &&& saved_flags(j).len() == n
        },
        None => false,
    }
}

/// Node `i` of `st` is node `i` of the saved tree `j`.
pub open spec fn node_read(st: CrucibleState, j: Seq<char>, i: int) -> bool {
    &&& st.nodes@[i].name@ == saved_names(j)[i]
    &&& st.nodes@[i].description@ == saved_descriptions(j)[i]
    &&& st.nodes@[i].effect == effect_of_tag(saved_tags(j)[i])
    &&& st.nodes@[i].xp_cost == saved_costs(j)[i]
    &&& st.nodes@[i].layout == NodeLayout::Saved
    &&& st.allocated@[i] == (saved_flags(j)[i] != 0)
}

/// The neighbours of node `i` of `st` are those the saved tree `j` gives it.
pub open spec fn edges_read(st: CrucibleState, j: Seq<char>, i: int) -> bool {
    let want = group_edges(saved_adjacency(j), st.nodes@.len() as int, i);
    &&& st.edges@[i]@.len() == want.len()
    &&& forall|k: int| 0 <= k < want.len() ==> st.edges@[i]@[k] == #[trigger] want[k]
}

/// `st` holds the saved tree `j`, with no fight in progress.
pub open spec fn read_from(st: CrucibleState, j: Seq<char>) -> bool {
    &&& st.nodes@.len() == saved_count(j)->0
    &&& forall|i: int| 0 <= i < st.nodes@.len() ==> #[trigger] node_read(st, j, i)
    &&& forall|i: int| 0 <= i < st.nodes@.len() ==> #[trigger] edges_read(st, j, i)
    &&& st.xp == saved_xp(j)
}

/// The values of `xs` as integers.
pub open spec fn as_ints(xs: Seq<u64>) -> Seq<int> {
    xs.map_values(|x: u64| x as int)
}

/// The numbers among `xs` below `n`.
fn keep_below(xs: &Vec<u64>, n: usize) -> (v: Vec<usize>)
    ensures
        v@.len() == below(as_ints(xs@), n as int).len(),
        forall|k: int| 0 <= k < v@.len() ==> v@[k] == #[trigger] below(as_ints(xs@), n as int)[k],
{
    let ghost all = as_ints(xs@);
    let mut v: Vec<usize> = Vec::new();
    let mut i: usize = 0;
    while i < xs.len()
        invariant
            i <= xs@.len(),
            all == as_ints(xs@),
            v@.len() == below(all.take(i as int), n as int).len(),
            forall|k: int| 0 <= k < v@.len() ==> v@[k] == #[trigger] below(all.take(i as int), n as int)[k],
        decreases xs@.len() - i,
    {
        let x = xs[i];
        proof {
            assert(all.take(i + 1).drop_last() =~= all.take(i as int));
            assert(all.take(i + 1).last() == x as int);
        }
        if x < n as u64 {
            v.push(x as usize);
        }
        i += 1;
    }
    assert(all.take(i as int) =~= all);
    v
}

/// The adjacency lists of `n` nodes read from adjacency text.
fn read_edges(eg: &str, n: usize) -> (lists: Vec<Vec<usize>>)
    ensures
        lists@.len() == n,
        forall|i: int| 0 <= i < n ==> (#[trigger] lists@[i])@.len() == group_edges(eg@, n as int, i).len(),
        forall|i: int, k: int| 0 <= i < n && 0 <= k < group_edges(eg@, n as int, i).len() ==>
            lists@[i]@[k] == #[trigger] group_edges(eg@, n as int, i)[k],
{
    let groups = split_text(eg, ';');
    let mut lists: Vec<Vec<usize>> = Vec::new();
    let mut i: usize = 0;
    while i < n
        invariant
            i <= n,
            texts_of(groups@) == pieces(eg@, ';'),
            lists@.len() == i,
            forall|a: int| 0 <= a < i ==> (#[trigger] lists@[a])@.len() == group_edges(eg@, n as int, a).len(),
            forall|a: int, k: int| 0 <= a < i && 0 <= k < group_edges(eg@, n as int, a).len() ==>
                lists@[a]@[k] == #[trigger] group_edges(eg@, n as int, a)[k],
        decreases n - i,
    {
        if i < groups.len() {
            let toks = split_text(groups[i], ',');
            let nums = parse_numbers(&toks, usize::MAX as u64);
            let list = keep_below(&nums, n);
            proof {
                let want = numbers_in(pieces(texts_of(groups@)[i as int], ','), usize::MAX as int);
                assert(as_ints(nums@) =~= want);
            }
            lists.push(list);
        } else {
            lists.push(Vec::new());
        }
        i += 1;
    }
    lists
}

impl CrucibleState {
    /// Reads a tree back from its saved form. A form without a positive
    /// node count, or whose lists do not each hold one entry per node,
    /// reads as the empty state. Nodes keep their saved positions, which
    /// `saved_positions` gives.
    pub fn from_json(json: &str) -> (st: CrucibleState)
        ensures
            st.wf(),
            !st.emergency_used,
            st.kinetic_stored == 0,
            readable(json@) ==> read_from(st, json@),
            !readable(json@) ==> st.nodes@.len() == 0 && st.xp == 0,
    {
        proof {
            reveal_strlit("\"nc\":");
            reveal_strlit("\"nm\":[");
            reveal_strlit("\"ds\":[");
            reveal_strlit("\"fx\":[");
            reveal_strlit("\"xc\":[");
            reveal_strlit("\"px\":[");
            reveal_strlit("\"py\":[");
            reveal_strlit("\"eg\":\"");
            reveal_strlit("\"al\":[");
            reveal_strlit("\"xp\":");
        }
        let nc = match extract_u32(json, "\"nc\":") {
            Some(n) => n as usize,
            None => return Self::empty(),
        };
        if nc == 0 {
            return Self::empty();
        }
        let names = extract_string_array(json, "\"nm\":[");
        let descs = extract_string_array(json, "\"ds\":[");
        let fxs = extract_string_array(json, "\"fx\":[");
        let xcs = extract_u32_array(json, "\"xc\":[");
        let pxs = extract_f64_array(json, "\"px\":[");
        let pys = extract_f64_array(json, "\"py\":[");
        let edges_str = extract_string(json, "\"eg\":\"");
        let als = extract_u32_array(json, "\"al\":[");
        let xp = match extract_u32(json, "\"xp\":") {
            Some(v) => v,
            None => 0,
        };
        if names.len() != nc || descs.len() != nc || fxs.len() != nc || xcs.len() != nc || pxs.len() != nc
            || pys.len() != nc || als.len() != nc {
            proof {
                assert(owned_texts(names@).len() == names@.len());
                assert(owned_texts(descs@).len() == descs@.len());
                assert(owned_texts(fxs@).len() == fxs@.len());
                assert(owned_texts(pxs@).len() == pxs@.len());
                assert(owned_texts(pys@).len() == pys@.len());
            }
            return Self::empty();
        }
        let ghost j = json@;
        let mut nodes: Vec<CrucibleNodeDyn> = Vec::new();
        let mut allocated: Vec<bool> = Vec::new();
        let mut i: usize = 0;
        while i < nc
            invariant
                i <= nc,
                names@.len() == nc,
                descs@.len() == nc,
                fxs@.len() == nc,
                xcs@.len() == nc,
                als@.len() == nc,
                owned_texts(names@) == saved_names(j),
                owned_texts(descs@) == saved_descriptions(j),
                owned_texts(fxs@) == saved_tags(j),
                forall|k: int| 0 <= k < xcs@.len() ==> xcs@[k] == #[trigger] saved_costs(j)[k],
                forall|k: int| 0 <= k < xcs@.len() ==> #[trigger] xcs@[k] <= u32::MAX,
                forall|k: int| 0 <= k < als@.len() ==> als@[k] == #[trigger] saved_flags(j)[k],
                nodes@.len() == i,
                allocated@.len() == i,
                forall|a: int| 0 <= a < i ==> {
                    &&& (#[trigger] nodes@[a]).name@ == saved_names(j)[a]
                    &&& nodes@[a].description@ == saved_descriptions(j)[a]
                    &&& nodes@[a].effect == effect_of_tag(saved_tags(j)[a])
                    &&& nodes@[a].xp_cost == saved_costs(j)[a]
                    &&& nodes@[a].layout == NodeLayout::Saved
                    &&& allocated@[a] == (saved_flags(j)[a] != 0)
                },
            decreases nc - i,
        {
            proof {
                assert(owned_texts(names@)[i as int] == names@[i as int]@);
                assert(owned_texts(descs@)[i as int] == descs@[i as int]@);
                assert(owned_texts(fxs@)[i as int] == fxs@[i as int]@);
                assert(xcs@[i as int] <= u32::MAX);
            }
            let node = CrucibleNodeDyn {
                name: names[i].clone(),
                description: descs[i].clone(),
                effect: effect_from_tag(fxs[i].as_str()),
                xp_cost: xcs[i] as u32,
                layout: NodeLayout::Saved,
            };
            nodes.push(node);
            allocated.push(als[i] != 0);
            i += 1;
        }
        let edges = read_edges(edges_str.as_str(), nc);
        let st = CrucibleState { nodes, edges, allocated, xp, emergency_used: false, kinetic_stored: 0 };
        proof {
            assert forall|a: int| 0 <= a < st.nodes@.len() implies #[trigger] node_read(st, j, a) by {}
            assert forall|a: int| 0 <= a < st.nodes@.len() implies #[trigger] edges_read(st, j, a) by {
                assert(st.edges@[a]@.len() == group_edges(saved_adjacency(j), nc as int, a).len());
            }
            assert forall|a: int, k: int| 0 <= a < st.edges@.len() && 0 <= k < st.edges@[a]@.len() implies (
            #[trigger] st.edges@[a]@[k]) < st.nodes@.len() by {
                let ge = group_edges(saved_adjacency(j), nc as int, a);
                assert(st.edges@[a]@.len() == ge.len());
                assert(st.edges@[a]@[k] == ge[k]);
                let groups = pieces(saved_adjacency(j), ';');
                if a < groups.len() {
                    lemma_below(numbers_in(pieces(groups[a], ','), usize::MAX as int), nc as int);
                }
            }
            assert(owned_texts(names@).len() == names@.len());
            assert(owned_texts(descs@).len() == descs@.len());
            assert(owned_texts(fxs@).len() == fxs@.len());
            assert(owned_texts(pxs@).len() == pxs@.len());
            assert(owned_texts(pys@).len() == pys@.len());
            assert(readable(j));
        }
        st
    }
}

proof fn lemma_below(xs: Seq<int>, n: int)
    ensures
        forall|k: int| 0 <= k < below(xs, n).len() ==> #[trigger] below(xs, n)[k] < n,
    decreases xs.len(),
{
    if xs.len() > 0 {
        lemma_below(xs.drop_last(), n);
        let r = below(xs.drop_last(), n);
        let all = below(xs, n);
        assert forall|k: int| 0 <= k < all.len() implies #[trigger] all[k] < n by {
            if k < r.len() {
                assert(all[k] == r[k]);
            }
        }
    }
}

/// The position texts of a saved tree, horizontal then vertical: the
/// pieces of each list that floating-point parsing accepts. `from_json`
/// reads the tree only when each list holds one per node.
pub fn saved_positions(json: &str) -> (r: (Vec<String>, Vec<String>))
    ensures
        owned_texts(r.0@) == saved_xs(json@),
        owned_texts(r.1@) == saved_ys(json@),
{
    proof {
        reveal_strlit("\"px\":[");
        reveal_strlit("\"py\":[");
    }
    (extract_f64_array(json, "\"px\":["), extract_f64_array(json, "\"py\":["))
}

// ── Reading back what was written ────────────────────────────────────────────

/// What one character becomes when escaped.
pub open spec fn escape_piece(c: char) -> Seq<char> {
    if c == '"' {
        seq!['\\', '"']
    } else if c == '\\' {
        seq!['\\', '\\']
    } else {
        seq![c]
    }
}

proof fn lemma_escaped_front(x: Seq<char>)
    requires
        x.len() > 0,
    ensures
        escaped(x) == escape_piece(x[0]) + escaped(x.drop_first()),
    decreases x.len(),
{
    if x.len() == 1 {
        assert(x.drop_last() =~= Seq::<char>::empty());
        assert(x.drop_first() =~= Seq::<char>::empty());
        assert(escaped(x) =~= escape_piece(x[0]));
        assert(escape_piece(x[0]) + Seq::<char>::empty() =~= escape_piece(x[0]));
    } else {
        lemma_escaped_front(x.drop_last());
        assert(x.drop_last().drop_first() =~= x.drop_first().drop_last());
        assert(x.drop_last()[0] == x[0]);
        assert(x.drop_first().last() == x.last());
        assert(escaped(x.drop_first()) =~= escaped(x.drop_first().drop_last()) + escape_piece(x.last()));
        assert(escaped(x) =~= escaped(x.drop_last()) + escape_piece(x.last()));
        assert(escaped(x) =~= escape_piece(x[0]) + escaped(x.drop_first()));
    }
}

/// `x` with each backslash doubled.
pub open spec fn backslashes_doubled(x: Seq<char>) -> Seq<char>
    decreases x.len(),
{
    if x.len() == 0 {
        Seq::empty()
    } else if x[0] == '\\' {
        seq!['\\', '\\'] + backslashes_doubled(x.drop_first())
    } else {
        seq![x[0]] + backslashes_doubled(x.drop_first())
    }
}

proof fn lemma_drop_quote_escapes(x: Seq<char>)
    ensures
        drop_escape(escaped(x), '"') == backslashes_doubled(x),
    decreases x.len(),
{
    if x.len() > 0 {
        lemma_escaped_front(x);
        let rest = x.drop_first();
        let e = escaped(rest);
        lemma_drop_quote_escapes(rest);
        if rest.len() > 0 {
            lemma_escaped_front(rest);
        }
        let s = escaped(x);
        if x[0] == '"' {
            assert(s.skip(2) =~= e);
        } else if x[0] == '\\' {
            let t = s.drop_first();
            assert(t =~= seq!['\\'] + e);
            if e.len() > 0 {
                assert(t[1] == e[0]);
                assert(t.drop_first() =~= e);
            } else {
                assert(t.drop_first() =~= e);
            }
            assert(drop_escape(t, '"') =~= seq!['\\'] + drop_escape(e, '"'));
            assert(drop_escape(s, '"') =~= seq!['\\', '\\'] + drop_escape(e, '"'));
        } else {
            assert(s.drop_first() =~= e);
            assert(drop_escape(s, '"') =~= seq![x[0]] + drop_escape(e, '"'));
        }
    } else {
        assert(escaped(x) =~= Seq::<char>::empty());
    }
}

proof fn lemma_drop_backslash_escapes(x: Seq<char>)
    ensures
        drop_escape(backslashes_doubled(x), '\\') == x,
    decreases x.len(),
{
    if x.len() > 0 {
        let rest = x.drop_first();
        lemma_drop_backslash_escapes(rest);
        let s = backslashes_doubled(x);
        if x[0] == '\\' {
            assert(s.skip(2) =~= backslashes_doubled(rest));
        } else {
            assert(s.drop_first() =~= backslashes_doubled(rest));
        }
        assert(drop_escape(s, '\\') =~= seq![x[0]] + rest);
        assert(seq![x[0]] + rest =~= x);
    }
}

/// Text written quoted into the saved form reads back as it was: undoing the
/// escapes gives back the text that was escaped, quotes and backslashes
/// included.
pub proof fn lemma_unescape_escaped(x: Seq<char>)
    ensures
        unescaped(escaped(x)) == x,
{
    lemma_drop_quote_escapes(x);
    lemma_drop_backslash_escapes(x);
}

proof fn lemma_split_plain(s: Seq<char>, sep: char, start: int, i: int)
    requires
        0 <= start <= i <= s.len(),
        forall|k: int| i <= k < s.len() ==> s[k] != sep,
    ensures
        split_from(s, sep, start, i) == seq![s.subrange(start, s.len() as int)],
    decreases s.len() - i,
{
    if i < s.len() {
        lemma_split_plain(s, sep, start, i + 1);
    }
}

proof fn lemma_split_append(a: Seq<char>, sep: char, b: Seq<char>, start: int, i: int)
    requires
        0 <= start <= i <= a.len(),
        forall|k: int| 0 <= k < b.len() ==> b[k] != sep,
    ensures
        split_from(a + seq![sep] + b, sep, start, i) == split_from(a, sep, start, i) + seq![b],
    decreases a.len() - i,
{
    let s = a + seq![sep] + b;
    if i == a.len() {
        assert(s[i] == sep);
        assert forall|k: int| i + 1 <= k < s.len() implies s[k] != sep by {
            assert(s[k] == b[k - i - 1]);
        }
        lemma_split_plain(s, sep, i + 1, i + 1);
        assert(s.subrange(i + 1, s.len() as int) =~= b);
        assert(s.subrange(start, i) =~= a.subrange(start, a.len() as int));
    } else {
        assert(s[i] == a[i]);
        if a[i] == sep {
            lemma_split_append(a, sep, b, i + 1, i + 1);
            assert(s.subrange(start, i) =~= a.subrange(start, i));
            assert(split_from(s, sep, start, i) =~= seq![a.subrange(start, i)] + (split_from(a, sep, i + 1, i + 1)
                + seq![b]));
        } else {
            lemma_split_append(a, sep, b, start, i + 1);
        }
    }
}

/// Splitting a list joined with `sep` gives back its items, when none of
/// them holds `sep`.
pub proof fn lemma_pieces_joined(items: Seq<Seq<char>>, sep: char)
    requires
        items.len() > 0,
        forall|i: int, k: int| 0 <= i < items.len() && 0 <= k < items[i].len() ==> #[trigger] items[i][k] != sep,
    ensures
        pieces(joined(items, seq![sep]), sep) == items,
    decreases items.len(),
{
    if items.len() == 1 {
        assert forall|k: int| 0 <= k < items[0].len() implies items[0][k] != sep by {}
        lemma_split_plain(items[0], sep, 0, 0);
        assert(items[0].subrange(0, items[0].len() as int) =~= items[0]);
        assert(seq![items[0]] =~= items);
    } else {
        let init = items.drop_last();
        lemma_pieces_joined(init, sep);
        assert forall|k: int| 0 <= k < items.last().len() implies items.last()[k] != sep by {
            assert(items.last()[k] == items[items.len() - 1][k]);
        }
        lemma_split_append(joined(init, seq![sep]), sep, items.last(), 0, 0);
        assert(init.push(items.last()) =~= items);
    }
}

/// A number written in decimal reads back as itself, when it is no larger
/// than the reader allows.
pub proof fn lemma_unsigned_digits(v: nat, max: int)
    requires
        v <= max,
    ensures
        unsigned_spec(digits(v), max) == Some(v as int),
        trim_spec(digits(v)) == digits(v),
{
    lemma_digits_value(v);
    let d = digits(v);
    assert(d[0] != '+');
    assert(trim_start_spec(d) == d);
    assert(trim_end_spec(d) == d);
}

proof fn lemma_joined_front(items: Seq<Seq<char>>, sep: Seq<char>)
    requires
        items.len() >= 2,
    ensures
        joined(items, sep) == items[0] + sep + joined(items.drop_first(), sep),
    decreases items.len(),
{
    if items.len() == 2 {
        let rest = items.drop_first();
        assert(rest.len() == 1);
        assert(joined(rest, sep) == rest[0]);
        assert(items.drop_last().len() == 1);
        assert(joined(items.drop_last(), sep) == items[0]);
    } else {
        lemma_joined_front(items.drop_last(), sep);
        assert(items.drop_last().drop_first() =~= items.drop_first().drop_last());
        assert(items.drop_first().last() == items.last());
        assert(joined(items, sep) =~= items[0] + sep + joined(items.drop_first(), sep));
    }
}

/// Each text quoted and escaped, as the saved form writes string lists.
pub open spec fn quoted_items(xs: Seq<Seq<char>>) -> Seq<Seq<char>> {
    Seq::new(xs.len(), |i: int| quoted(escaped(xs[i])))
}

proof fn lemma_escaped_scan(s: Seq<char>, p: int, x: Seq<char>, depth: int, mode_start: int)
    requires
        0 <= p,
        depth >= 1,
        p + escaped(x).len() < s.len(),
        s.subrange(p, p + escaped(x).len()) == escaped(x),
    ensures
        array_end(s, p, depth, true, false) == array_end(s, p + escaped(x).len(), depth, true, false),
        strings_from(s, p, 1, mode_start) == strings_from(s, p + escaped(x).len(), 1, mode_start),
    decreases x.len(),
{
    if x.len() > 0 {
        lemma_escaped_front(x);
        let rest = x.drop_first();
        let pc = escape_piece(x[0]);
        let e = escaped(x);
        assert(e =~= pc + escaped(rest));
        assert(s[p] == e[0]);
        assert(e[0] == pc[0]);
        if x[0] == '"' || x[0] == '\\' {
            assert(e[1] == pc[1]);
            assert(s[p + 1] == e[1]);
            assert(s[p] == '\\');
            assert(array_end(s, p, depth, true, false) == array_end(s, p + 1, depth, true, true));
            assert(array_end(s, p + 1, depth, true, true) == array_end(s, p + 2, depth, true, false));
            assert(strings_from(s, p, 1, mode_start) == strings_from(s, p + 1, 2, mode_start));
            assert(strings_from(s, p + 1, 2, mode_start) == strings_from(s, p + 2, 1, mode_start));
            assert(s.subrange(p + 2, p + 2 + escaped(rest).len()) =~= escaped(rest)) by {
                assert forall|k: int| 0 <= k < escaped(rest).len() implies s.subrange(p + 2, p + 2 + escaped(rest).len())[k]
                    == escaped(rest)[k] by {
                    assert(s[p + 2 + k] == e[2 + k]);
                }
            }
            lemma_escaped_scan(s, p + 2, rest, depth, mode_start);
        } else {
            assert(s[p] == x[0]);
            assert(array_end(s, p, depth, true, false) == array_end(s, p + 1, depth, true, false));
            assert(strings_from(s, p, 1, mode_start) == strings_from(s, p + 1, 1, mode_start));
            assert(s.subrange(p + 1, p + 1 + escaped(rest).len()) =~= escaped(rest)) by {
                assert forall|k: int| 0 <= k < escaped(rest).len() implies s.subrange(p + 1, p + 1 + escaped(rest).len())[k]
                    == escaped(rest)[k] by {
                    assert(s[p + 1 + k] == e[1 + k]);
                }
            }
            lemma_escaped_scan(s, p + 1, rest, depth, mode_start);
        }
    } else {
        assert(escaped(x) =~= Seq::<char>::empty());
    }
}

proof fn lemma_list_scan(s: Seq<char>, p: int, xs: Seq<Seq<char>>, start: int)
    requires
        0 <= p,
        xs.len() > 0,
        p + joined(quoted_items(xs), ","@).len() < s.len(),
        s.subrange(p, p + joined(quoted_items(xs), ","@).len()) == joined(quoted_items(xs), ","@),
        s[p + joined(quoted_items(xs), ","@).len()] == ']',
    ensures
        array_end(s, p, 1, false, false) == p + joined(quoted_items(xs), ","@).len(),
        strings_from(s.subrange(0, p + joined(quoted_items(xs), ","@).len()), p, 0, start) == xs,
    decreases xs.len(),
{
    reveal_strlit(",");
    let qs = quoted_items(xs);
    let j = joined(qs, ","@);
    let e = escaped(xs[0]);
    let q = qs[0];
    assert(q == quoted(e));
    let t = s.subrange(0, p + j.len());
    let ghost j_first: Seq<char> = if xs.len() == 1 { q } else { q + ","@ + joined(qs.drop_first(), ","@) };
    if xs.len() >= 2 {
        lemma_joined_front(qs, ","@);
    } else {
        assert(j == q);
    }
    assert(j == j_first);
    assert forall|m: int| p <= m < p + q.len() implies #[trigger] s[m] == q[m - p] by {
        assert(s.subrange(p, p + j.len())[m - p] == j[m - p]);
        assert(j[m - p] == q[m - p]);
    }
    assert forall|m: int| p <= m < p + q.len() implies #[trigger] t[m] == q[m - p] by {
        assert(t[m] == s[m]);
    }
    assert(q[0] == '"');
    assert(q[q.len() - 1] == '"');
    assert(forall|k: int| 0 <= k < e.len() ==> q[1 + k] == #[trigger] e[k]);
    assert(s[p] == '"');
    assert(s.subrange(p + 1, p + 1 + e.len()) =~= e) by {
        assert forall|k: int| 0 <= k < e.len() implies s.subrange(p + 1, p + 1 + e.len())[k] == e[k] by {
            assert(s[p + 1 + k] == q[1 + k]);
        }
    }
    assert(t.subrange(p + 1, p + 1 + e.len()) =~= e) by {
        assert forall|k: int| 0 <= k < e.len() implies t.subrange(p + 1, p + 1 + e.len())[k] == e[k] by {
            assert(t[p + 1 + k] == q[1 + k]);
        }
    }
    let close = p + 1 + e.len();
    assert(s[close] == '"');
    assert(t[close] == '"');
    lemma_escaped_scan(s, p + 1, xs[0], 1, 0);
    lemma_escaped_scan(t, p + 1, xs[0], 1, p + 1);
    lemma_unescape_escaped(xs[0]);
    assert(array_end(s, p, 1, false, false) == array_end(s, p + 1, 1, true, false));
    assert(array_end(s, close, 1, true, false) == array_end(s, close + 1, 1, false, false));
    assert(strings_from(t, p, 0, start) == strings_from(t, p + 1, 1, p + 1));
    assert(t.subrange(p + 1, close) =~= e);
    assert(strings_from(t, close, 1, p + 1) == seq![unescaped(t.subrange(p + 1, close))] + strings_from(t, close + 1, 0, p + 1));
    if xs.len() == 1 {
        assert(close + 1 == p + j.len());
        assert(s[close + 1] == ']');
        assert(array_end(s, close + 1, 1, false, false) == close + 1);
        assert(strings_from(t, close + 1, 0, p + 1) =~= Seq::<Seq<char>>::empty());
        assert(seq![xs[0]] =~= xs);
        assert(seq![xs[0]] + Seq::<Seq<char>>::empty() =~= xs);
    } else {
        let rest = xs.drop_first();
        assert(qs.drop_first() =~= quoted_items(rest));
        let jr = joined(quoted_items(rest), ","@);
        assert(jr == joined(qs.drop_first(), ","@));
        let p2 = close + 2;
        assert(j.len() == q.len() + 1 + jr.len());
        assert(s[close + 1] == ',') by {
            assert(s.subrange(p, p + j.len())[q.len() as int] == j[q.len() as int]);
        }
        assert(s.subrange(p2, p2 + jr.len()) =~= jr) by {
            assert forall|k: int| 0 <= k < jr.len() implies s.subrange(p2, p2 + jr.len())[k] == jr[k] by {
                assert(s.subrange(p, p + j.len())[q.len() + 1 + k] == j[q.len() + 1 + k]);
            }
        }
        lemma_list_scan(s, p2, rest, p + 1);
        assert(array_end(s, close + 1, 1, false, false) == array_end(s, p2, 1, false, false));
        assert(t[close + 1] == ',') by {
            assert(t[close + 1] == s[close + 1]);
        }
        assert(strings_from(t, close + 1, 0, p + 1) == strings_from(t, p2, 0, p + 1));
        assert(s.subrange(0, p2 + jr.len()) == t);
        assert(xs =~= seq![xs[0]] + rest);
    }
}

proof fn lemma_joined_chars(items: Seq<Seq<char>>, sep: Seq<char>, ok: spec_fn(char) -> bool)
    requires
        forall|i: int, k: int| 0 <= i < items.len() && 0 <= k < items[i].len() ==> ok(#[trigger] items[i][k]),
        forall|k: int| 0 <= k < sep.len() ==> ok(#[trigger] sep[k]),
    ensures
        forall|k: int| 0 <= k < joined(items, sep).len() ==> ok(#[trigger] joined(items, sep)[k]),
    decreases items.len(),
{
    if items.len() > 1 {
        let init = items.drop_last();
        assert forall|i: int, k: int| 0 <= i < init.len() && 0 <= k < init[i].len() implies ok(#[trigger] init[i][k]) by {
            assert(init[i] == items[i]);
        }
        lemma_joined_chars(init, sep, ok);
        let a = joined(init, sep);
        let j = joined(items, sep);
        assert(j == a + sep + items.last());
        assert forall|k: int| 0 <= k < j.len() implies ok(#[trigger] j[k]) by {
            if k < a.len() {
                assert(j[k] == a[k]);
            } else if k < a.len() + sep.len() {
                assert(j[k] == sep[k - a.len()]);
            } else {
                assert(j[k] == items[items.len() - 1][k - a.len() - sep.len()]);
            }
        }
    } else if items.len() == 1 {
        assert forall|k: int| 0 <= k < items[0].len() implies ok(#[trigger] items[0][k]) by {}
    }
}

/// Decimal numerals of `vals`.
pub open spec fn numerals(vals: Seq<int>) -> Seq<Seq<char>> {
    Seq::new(vals.len(), |i: int| digits(vals[i] as nat))
}

proof fn lemma_numbers_of_numerals(vals: Seq<int>, max: int)
    requires
        forall|i: int| 0 <= i < vals.len() ==> 0 <= #[trigger] vals[i] <= max,
    ensures
        numbers_in(numerals(vals), max) == vals,
    decreases vals.len(),
{
    if vals.len() > 0 {
        let init = vals.drop_last();
        assert(numerals(vals).drop_last() =~= numerals(init));
        lemma_numbers_of_numerals(init, max);
        lemma_unsigned_digits(vals.last() as nat, max);
        assert(vals.last() == vals[vals.len() - 1]);
        assert(init.push(vals.last()) =~= vals);
    } else {
        assert(numerals(vals) =~= Seq::<Seq<char>>::empty());
    }
}

proof fn lemma_first_after(s: Seq<char>, start: int, len: int, c: char)
    requires
        0 <= start,
        start + len < s.len(),
        0 <= len,
        forall|k: int| start <= k < start + len ==> #[trigger] s[k] != c,
        s[start + len] == c,
    ensures
        find_char(s.skip(start), c) == len,
{
    let r = s.skip(start);
    assert forall|j: int| 0 <= j < len implies #[trigger] r[j] != c by {
        assert(r[j] == s[start + j]);
    }
    lemma_find_first(r, c, len);
}

/// A list of decimal numbers written into the saved form reads back as
/// the numbers, when none is larger than the reader allows.
proof fn lemma_number_list_read(s: Seq<char>, start: int, vals: Seq<int>, max: int)
    requires
        vals.len() > 0,
        forall|i: int| 0 <= i < vals.len() ==> 0 <= #[trigger] vals[i] <= max,
        0 <= start,
        start + joined(numerals(vals), ","@).len() < s.len(),
        s.subrange(start, start + joined(numerals(vals), ","@).len()) == joined(numerals(vals), ","@),
        s[start + joined(numerals(vals), ","@).len()] == ']',
    ensures
        find_char(s.skip(start), ']') == joined(numerals(vals), ","@).len(),
        numbers_in(pieces(s.subrange(start, start + joined(numerals(vals), ","@).len()), ','), max) == vals,
{
    reveal_strlit(",");
    let items = numerals(vals);
    let j = joined(items, ","@);
    let ok = |c: char| is_digit(c) || c == ',';
    assert forall|i: int, k: int| 0 <= i < items.len() && 0 <= k < items[i].len() implies ok(#[trigger] items[i][k]) by {
        lemma_digits_value(vals[i] as nat);
    }
    lemma_joined_chars(items, ","@, ok);
    assert forall|k: int| start <= k < start + j.len() implies #[trigger] s[k] != ']' by {
        assert(s[k] == j[k - start]);
        assert(ok(j[k - start]));
    }
    lemma_first_after(s, start, j.len() as int, ']');
    assert forall|i: int, k: int| 0 <= i < items.len() && 0 <= k < items[i].len() implies #[trigger] items[i][k] != ',' by {
        lemma_digits_value(vals[i] as nat);
    }
    lemma_pieces_joined(items, ',');
    assert(seq![','] =~= ","@);
    lemma_numbers_of_numerals(vals, max);
}

/// A character floating-point text can hold.
pub open spec fn float_char(c: char) -> bool {
    is_digit(c) || c == '+' || c == '-' || c == '.' || ('a' <= c <= 'z') || ('A' <= c <= 'Z')
}

proof fn lemma_first_e_found(b: Seq<char>)
    ensures
        first_e(b) < b.len(),
        first_e(b) >= 0 ==> (b[first_e(b)] == 'e' || b[first_e(b)] == 'E'),
    decreases b.len(),
{
    if b.len() > 0 && !(b[0] == 'e' || b[0] == 'E') {
        lemma_first_e_found(b.drop_first());
    }
}

proof fn lemma_find_char_found(t: Seq<char>, c: char)
    ensures
        find_char(t, c) < t.len(),
        find_char(t, c) >= 0 ==> t[find_char(t, c)] == c,
    decreases t.len(),
{
    if t.len() > 0 && t[0] != c {
        lemma_find_char_found(t.drop_first(), c);
    }
}

proof fn lemma_mantissa_chars(m: Seq<char>)
    requires
        mantissa_ok(m),
    ensures
        forall|k: int| 0 <= k < m.len() ==> is_digit(#[trigger] m[k]) || m[k] == '.',
{
    let d = find_char(m, '.');
    lemma_find_char_found(m, '.');
    if d >= 0 {
        assert forall|k: int| 0 <= k < m.len() implies is_digit(#[trigger] m[k]) || m[k] == '.' by {
            if k < d {
                assert(m.take(d)[k] == m[k]);
            } else if k > d {
                assert(m.skip(d + 1)[k - d - 1] == m[k]);
            }
        }
    }
}

/// Text that floating-point parsing accepts is not empty and holds only
/// digits, signs, points and letters.
proof fn lemma_float_chars(t: Seq<char>)
    requires
        float_syntax(t),
    ensures
        t.len() > 0,
        forall|k: int| 0 <= k < t.len() ==> float_char(#[trigger] t[k]),
{
    reveal_strlit("inf");
    reveal_strlit("infinity");
    reveal_strlit("nan");
    let b = sign_dropped(t);
    let off: int = if t.len() > 0 && (t[0] == '+' || t[0] == '-') { 1 } else { 0 };
    assert(forall|k: int| 0 <= k < b.len() ==> b[k] == t[k + off]);
    assert(b.len() > 0 ==> t.len() > 0);
    if word_is(b, "inf"@) || word_is(b, "infinity"@) || word_is(b, "nan"@) {
        assert forall|k: int| 0 <= k < b.len() implies float_char(#[trigger] b[k]) by {
            assert(lower_code(b[k]) >= 'a' as int && lower_code(b[k]) <= 'z' as int);
        }
    } else {
        let e = first_e(b);
        lemma_first_e_found(b);
        if e < 0 {
            lemma_mantissa_chars(b);
            if b.len() == 0 {
                assert(false);
            }
        } else {
            lemma_mantissa_chars(b.take(e));
            let x = b.skip(e + 1);
            let y = sign_dropped(x);
            assert forall|k: int| 0 <= k < b.len() implies float_char(#[trigger] b[k]) by {
                if k < e {
                    assert(b.take(e)[k] == b[k]);
                } else if k > e {
                    assert(x[k - e - 1] == b[k]);
                    if x.len() > 0 && (x[0] == '+' || x[0] == '-') {
                        if k - e - 1 > 0 {
                            assert(y[k - e - 2] == x[k - e - 1]);
                        }
                    } else {
                        assert(y[k - e - 1] == x[k - e - 1]);
                    }
                }
            }
        }
    }
    assert forall|k: int| 0 <= k < t.len() implies float_char(#[trigger] t[k]) by {
        if off == 1 && k == 0 {
        } else {
            assert(t[k] == b[k - off]);
        }
    }
}

proof fn lemma_float_tokens_plain(toks: Seq<Seq<char>>)
    requires
        forall|i: int| 0 <= i < toks.len() ==> float_syntax(#[trigger] toks[i]),
    ensures
        float_tokens(toks) == toks,
    decreases toks.len(),
{
    if toks.len() > 0 {
        let init = toks.drop_last();
        lemma_float_tokens_plain(init);
        let t = toks.last();
        assert(float_syntax(toks[toks.len() - 1]));
        lemma_float_chars(t);
        assert(!is_ws(t[0]));
        assert(!is_ws(t.last())) by {
            assert(float_char(t[t.len() - 1]));
        }
        assert(trim_start_spec(t) == t);
        assert(trim_end_spec(t) == t);
        assert(init.push(t) =~= toks);
    }
}

/// A list of position texts written into the saved form reads back as the
/// same texts, when floating-point parsing accepts each of them.
proof fn lemma_float_list_read(s: Seq<char>, start: int, toks: Seq<Seq<char>>)
    requires
        toks.len() > 0,
        forall|i: int| 0 <= i < toks.len() ==> float_syntax(#[trigger] toks[i]),
        0 <= start,
        start + joined(toks, ","@).len() < s.len(),
        s.subrange(start, start + joined(toks, ","@).len()) == joined(toks, ","@),
        s[start + joined(toks, ","@).len()] == ']',
    ensures
        find_char(s.skip(start), ']') == joined(toks, ","@).len(),
        float_tokens(pieces(s.subrange(start, start + joined(toks, ","@).len()), ',')) == toks,
{
    reveal_strlit(",");
    let j = joined(toks, ","@);
    let ok = |c: char| float_char(c) || c == ',';
    assert forall|i: int, k: int| 0 <= i < toks.len() && 0 <= k < toks[i].len() implies ok(#[trigger] toks[i][k]) by {
        lemma_float_chars(toks[i]);
    }
    lemma_joined_chars(toks, ","@, ok);
    assert forall|k: int| start <= k < start + j.len() implies #[trigger] s[k] != ']' by {
        assert(s[k] == j[k - start]);
        assert(ok(j[k - start]));
    }
    lemma_first_after(s, start, j.len() as int, ']');
    assert forall|i: int, k: int| 0 <= i < toks.len() && 0 <= k < toks[i].len() implies #[trigger] toks[i][k] != ',' by {
        lemma_float_chars(toks[i]);
        assert(float_char(toks[i][k]));
    }
    lemma_pieces_joined(toks, ',');
    assert(seq![','] =~= ","@);
    lemma_float_tokens_plain(toks);
}

proof fn lemma_quote_end_plain(r: Seq<char>, i: int, k: int)
    requires
        0 <= i <= k < r.len(),
        r[k] == '"',
        forall|m: int| i <= m < k ==> #[trigger] r[m] != '"' && r[m] != '\\',
    ensures
        quote_end_from(r, i) == k,
    decreases k - i,
{
    if i < k {
        lemma_quote_end_plain(r, i + 1, k);
    }
}

proof fn lemma_drop_escape_plain(x: Seq<char>, b: char)
    requires
        forall|m: int| 0 <= m < x.len() ==> #[trigger] x[m] != '\\',
    ensures
        drop_escape(x, b) == x,
    decreases x.len(),
{
    if x.len() > 0 {
        assert forall|m: int| 0 <= m < x.drop_first().len() implies #[trigger] x.drop_first()[m] != '\\' by {
            assert(x.drop_first()[m] == x[m + 1]);
        }
        lemma_drop_escape_plain(x.drop_first(), b);
        assert(seq![x[0]] + x.drop_first() =~= x);
    }
}

proof fn lemma_below_all(xs: Seq<int>, n: int)
    requires
        forall|k: int| 0 <= k < xs.len() ==> #[trigger] xs[k] < n,
    ensures
        below(xs, n) == xs,
    decreases xs.len(),
{
    if xs.len() > 0 {
        lemma_below_all(xs.drop_last(), n);
        assert(xs[xs.len() - 1] < n);
        assert(xs.drop_last().push(xs.last()) =~= xs);
    }
}

/// The neighbours of a node as integers.
pub open spec fn list_ints(list: Seq<usize>) -> Seq<int> {
    Seq::new(list.len(), |k: int| list[k] as int)
}

proof fn lemma_group_read(list: Seq<usize>, n: int)
    requires
        forall|k: int| 0 <= k < list.len() ==> #[trigger] list[k] < n,
    ensures
        below(numbers_in(pieces(edge_list_text(list), ','), usize::MAX as int), n) == list_ints(list),
{
    reveal_strlit(",");
    let vals = list_ints(list);
    if list.len() == 0 {
        assert(edge_list_text(list) =~= Seq::<char>::empty());
        let e = Seq::<char>::empty();
        assert(e.subrange(0, 0) =~= e);
        assert(pieces(e, ',') =~= seq![e]);
        assert(trim_start_spec(e) == e);
        assert(trim_end_spec(e) == e);
        assert(trim_spec(e) == e);
        assert(unsigned_spec(e, usize::MAX as int) is None);
        assert(seq![e].last() == e);
        assert(seq![e].drop_last() =~= Seq::<Seq<char>>::empty());
        assert(numbers_in(Seq::<Seq<char>>::empty(), usize::MAX as int) =~= Seq::<int>::empty());
        assert(numbers_in(seq![e], usize::MAX as int) =~= Seq::<int>::empty());
        assert(vals =~= Seq::<int>::empty());
    } else {
        assert(Seq::new(list.len(), |k: int| decimal(list[k] as int)) =~= numerals(vals));
        assert forall|i: int, k: int| 0 <= i < numerals(vals).len() && 0 <= k < numerals(vals)[i].len() implies #[trigger] numerals(vals)[i][k] != ',' by {
            lemma_digits_value(vals[i] as nat);
        }
        lemma_pieces_joined(numerals(vals), ',');
        assert(seq![','] =~= ","@);
        lemma_numbers_of_numerals(vals, usize::MAX as int);
        lemma_below_all(vals, n);
    }
}

/// Adjacency lists written into the saved form read back as the same lists.
proof fn lemma_edges_read(s: Seq<char>, start: int, st: CrucibleState)
    requires
        st.wf(),
        st.nodes@.len() > 0,
        0 <= start,
        start + joined(edge_items(st), ";"@).len() < s.len(),
        s.subrange(start, start + joined(edge_items(st), ";"@).len()) == joined(edge_items(st), ";"@),
        s[start + joined(edge_items(st), ";"@).len()] == '"',
    ensures
        ({
            let e = joined(edge_items(st), ";"@);
            let rest = s.skip(start);
            &&& quote_end_from(rest, 0) == e.len()
            &&& unescaped(rest.take(e.len() as int)) == e
            &&& forall|i: int| 0 <= i < st.nodes@.len() ==> #[trigger] group_edges(e, st.nodes@.len() as int, i)
                == list_ints(st.edges@[i]@)
        }),
{
    reveal_strlit(",");
    reveal_strlit(";");
    let e = joined(edge_items(st), ";"@);
    let n = st.nodes@.len() as int;
    let items = edge_items(st);
    let ok_in = |c: char| is_digit(c) || c == ',';
    assert forall|i: int, k: int| 0 <= i < items.len() && 0 <= k < items[i].len() implies ok_in(#[trigger] items[i][k]) by {
        let list = st.edges@[i]@;
        let nums = Seq::new(list.len(), |m: int| decimal(list[m] as int));
        assert forall|a: int, b: int| 0 <= a < nums.len() && 0 <= b < nums[a].len() implies ok_in(#[trigger] nums[a][b]) by {
            lemma_digits_value(list[a] as nat);
        }
        lemma_joined_chars(nums, ","@, ok_in);
    }
    let ok = |c: char| is_digit(c) || c == ',' || c == ';';
    assert forall|i: int, k: int| 0 <= i < items.len() && 0 <= k < items[i].len() implies ok(#[trigger] items[i][k]) by {
        assert(ok_in(items[i][k]));
    }
    lemma_joined_chars(items, ";"@, ok);
    let rest = s.skip(start);
    assert forall|m: int| 0 <= m < e.len() implies #[trigger] rest[m] != '"' && rest[m] != '\\' by {
        assert(rest[m] == s[start + m]);
        assert(s[start + m] == e[m]);
        assert(ok(e[m]));
    }
    assert(rest[e.len() as int] == '"');
    lemma_quote_end_plain(rest, 0, e.len() as int);
    assert(rest.take(e.len() as int) =~= e);
    assert forall|m: int| 0 <= m < e.len() implies #[trigger] e[m] != '\\' by {
        assert(ok(e[m]));
    }
    lemma_drop_escape_plain(e, '"');
    lemma_drop_escape_plain(e, '\\');
    assert forall|i: int, k: int| 0 <= i < items.len() && 0 <= k < items[i].len() implies #[trigger] items[i][k] != ';' by {
        assert(ok_in(items[i][k]));
    }
    lemma_pieces_joined(items, ';');
    assert(seq![';'] =~= ";"@);
    assert forall|i: int| 0 <= i < n implies #[trigger] group_edges(e, n, i) == list_ints(st.edges@[i]@) by {
        assert(pieces(e, ';')[i] == edge_list_text(st.edges@[i]@));
        assert forall|k: int| 0 <= k < st.edges@[i]@.len() implies #[trigger] st.edges@[i]@[k] < n by {}
        lemma_group_read(st.edges@[i]@, n);
    }
}

/// A number written in decimal into the saved form, followed by something
/// other than a digit, reads back as itself.
proof fn lemma_number_read(s: Seq<char>, start: int, v: nat)
    requires
        v <= u32::MAX,
        0 <= start,
        start + digits(v).len() < s.len(),
        s.subrange(start, start + digits(v).len()) == digits(v),
        !is_digit(s[start + digits(v).len()]),
    ensures
        ({
            let rest = s.skip(start);
            unsigned_spec(rest.take(digit_run(rest)), u32::MAX as int) == Some(v as int)
        }),
{
    let d = digits(v);
    let rest = s.skip(start);
    lemma_digits_value(v);
    assert forall|j: int| 0 <= j < d.len() implies is_digit(#[trigger] rest[j]) by {
        assert(rest[j] == s[start + j]);
        assert(s[start + j] == d[j]);
    }
    assert(rest[d.len() as int] == s[start + d.len()]);
    lemma_digit_run(rest, d.len() as int);
    assert(rest.take(d.len() as int) =~= d);
    lemma_unsigned_digits(v, u32::MAX as int);
}

// ── Where keys stand in the saved form ───────────────────────────────────────

/// The parts laid end to end.
pub open spec fn concat(parts: Seq<Seq<char>>) -> Seq<char>
    decreases parts.len(),
{
    if parts.len() == 0 {
        Seq::empty()
    } else {
        concat(parts.drop_last()) + parts.last()
    }
}

/// Where part `k` begins.
pub open spec fn offset(parts: Seq<Seq<char>>, k: int) -> int {
    concat(parts.take(k)).len() as int
}

proof fn lemma_concat_append(a: Seq<Seq<char>>, b: Seq<Seq<char>>)
    ensures
        concat(a + b) == concat(a) + concat(b),
    decreases b.len(),
{
    if b.len() == 0 {
        assert(a + b =~= a);
        assert(concat(a) + Seq::<char>::empty() =~= concat(a));
    } else {
        lemma_concat_append(a, b.drop_last());
        assert((a + b).drop_last() =~= a + b.drop_last());
        assert((a + b).last() == b.last());
        assert(concat(a + b) =~= concat(a) + concat(b));
    }
}

proof fn lemma_part_at(parts: Seq<Seq<char>>, k: int)
    requires
        0 <= k < parts.len(),
    ensures
        offset(parts, k) + parts[k].len() <= concat(parts).len(),
        concat(parts).subrange(offset(parts, k), offset(parts, k) + parts[k].len()) == parts[k],
        offset(parts, k + 1) == offset(parts, k) + parts[k].len(),
{
    let a = parts.take(k);
    let b = parts.skip(k);
    assert(a + b =~= parts);
    lemma_concat_append(a, b);
    let b1 = seq![parts[k]];
    let b2 = parts.skip(k + 1);
    assert(b1 + b2 =~= b);
    lemma_concat_append(b1, b2);
    assert(b1.drop_last() =~= Seq::<Seq<char>>::empty());
    assert(concat(b1.drop_last()) =~= Seq::<char>::empty());
    assert(b1.last() == parts[k]);
    assert(concat(b1) =~= parts[k]);
    assert(parts.take(k + 1) =~= a + b1);
    lemma_concat_append(a, b1);
    let c = concat(parts);
    assert(c =~= concat(a) + (parts[k] + concat(b2)));
    assert(c.subrange(concat(a).len() as int, (concat(a).len() + parts[k].len()) as int) =~= parts[k]);
}

/// A lower-case letter, a quote and a colon start at `j`: the end of a key.
pub open spec fn key_end(t: Seq<char>, j: int) -> bool {
    &&& 0 <= j
    &&& j + 2 < t.len()
    &&& 'a' <= t[j] <= 'z'
    &&& t[j + 1] == '"'
    &&& t[j + 2] == ':'
}

/// No key end straddles the seam between `a` and `b`.
pub open spec fn seam_ok(a: Seq<char>, b: Seq<char>) -> bool {
    &&& (a.len() >= 1 && b.len() >= 2 ==> !('a' <= a.last() <= 'z' && b[0] == '"' && b[1] == ':'))
    &&& (a.len() >= 2 && b.len() >= 1 ==> !('a' <= a[a.len() - 2] <= 'z' && a.last() == '"' && b[0] == ':'))
}

proof fn lemma_key_end_in_part(parts: Seq<Seq<char>>, j: int)
    requires
        forall|k: int| 1 <= k < parts.len() ==> seam_ok(concat(#[trigger] parts.take(k)), parts[k]),
        key_end(concat(parts), j),
    ensures
        exists|k: int| 0 <= k < parts.len() && #[trigger] key_end(parts[k], j - offset(parts, k)),
    decreases parts.len(),
{
    let init = parts.drop_last();
    let a = concat(init);
    let b = parts.last();
    let n = parts.len() - 1;
    assert(parts.take(n) =~= init);
    assert(concat(parts) == a + b);
    if j + 2 < a.len() {
        assert forall|k: int| 1 <= k < init.len() implies seam_ok(concat(#[trigger] init.take(k)), init[k]) by {
            assert(init.take(k) =~= parts.take(k));
            assert(seam_ok(concat(parts.take(k)), parts[k]));
        }
        assert(key_end(a, j));
        lemma_key_end_in_part(init, j);
        let k = choose|k: int| 0 <= k < init.len() && #[trigger] key_end(init[k], j - offset(init, k));
        assert(init.take(k) =~= parts.take(k));
        assert(key_end(parts[k], j - offset(parts, k)));
    } else if j >= a.len() {
        assert(offset(parts, n) == a.len());
        assert(key_end(b, j - a.len())) by {
            assert(b[j - a.len()] == concat(parts)[j]);
            assert(b[j - a.len() + 1] == concat(parts)[j + 1]);
            assert(b[j - a.len() + 2] == concat(parts)[j + 2]);
        }
        assert(key_end(parts[n], j - offset(parts, n)));
    } else {
        assert(n >= 1);
        assert(seam_ok(concat(parts.take(n)), parts[n]));
        let c = concat(parts);
        if j == a.len() - 1 {
            assert(c[j] == a.last());
            assert(c[j + 1] == b[0]);
            assert(c[j + 2] == b[1]);
        } else {
            assert(j == a.len() - 2);
            assert(c[j] == a[a.len() - 2]);
            assert(c[j + 1] == a.last());
            assert(c[j + 2] == b[0]);
        }
    }
}

/// No key end inside `t`.
pub open spec fn keyless(t: Seq<char>) -> bool {
    forall|j: int| !#[trigger] key_end(t, j)
}

proof fn lemma_keyless_without_quote(t: Seq<char>)
    requires
        forall|k: int| 0 <= k < t.len() ==> #[trigger] t[k] != '"',
    ensures
        keyless(t),
{
    assert forall|j: int| !#[trigger] key_end(t, j) by {
        if 0 <= j && j + 2 < t.len() {
            assert(t[j + 1] != '"');
        }
    }
}

proof fn lemma_escaped_quotes(x: Seq<char>)
    ensures
        forall|m: int| 0 <= m < escaped(x).len() && #[trigger] escaped(x)[m] == '"' ==> m >= 1 && escaped(x)[m - 1] == '\\',
    decreases x.len(),
{
    if x.len() > 0 {
        let init = x.drop_last();
        lemma_escaped_quotes(init);
        let a = escaped(init);
        let pc = escape_piece(x.last());
        let e = escaped(x);
        assert(e =~= a + pc);
        assert forall|m: int| 0 <= m < e.len() && #[trigger] e[m] == '"' implies m >= 1 && e[m - 1] == '\\' by {
            if m < a.len() {
                assert(e[m] == a[m]);
                assert(e[m - 1] == a[m - 1]);
            } else {
                assert(e[m] == pc[m - a.len()]);
                if x.last() == '"' {
                    assert(m - a.len() == 1);
                    assert(e[m - 1] == pc[0]);
                }
            }
        }
    }
}

proof fn lemma_quoted_list_keyless(xs: Seq<Seq<char>>)
    ensures
        keyless(joined(quoted_items(xs), ","@)),
        xs.len() > 0 ==> joined(quoted_items(xs), ","@).len() > 0 && joined(quoted_items(xs), ","@)[0] == '"',
    decreases xs.len(),
{
    reveal_strlit(",");
    let j = joined(quoted_items(xs), ","@);
    if xs.len() == 0 {
        assert forall|i: int| !#[trigger] key_end(j, i) by {}
    } else {
        let x = xs.last();
        let e = escaped(x);
        let q = quoted(e);
        lemma_escaped_quotes(x);
        assert(quoted_items(xs).last() == q);
        let init = xs.drop_last();
        assert(quoted_items(xs).drop_last() =~= quoted_items(init));
        lemma_quoted_list_keyless(init);
        let a = if xs.len() == 1 { Seq::<char>::empty() } else { joined(quoted_items(init), ","@) + ","@ };
        assert(j =~= a + q);
        assert(a.len() > 0 ==> a.last() == ',');
        assert forall|i: int| !#[trigger] key_end(j, i) by {
            if key_end(j, i) {
                if i + 2 < a.len() {
                    let ji = joined(quoted_items(init), ","@);
                    assert(i + 2 < ji.len());
                    assert(j[i] == ji[i] && j[i + 1] == ji[i + 1] && j[i + 2] == ji[i + 2]);
                    assert(key_end(ji, i));
                } else if i >= a.len() {
                    let m = i - a.len();
                    assert(q[m + 1] == '"');
                    assert(m + 2 < q.len());
                    assert(q[m + 1] == e[m]);
                    assert(m >= 1 && e[m - 1] == '\\');
                    assert(q[m] == e[m - 1]);
                } else if i == a.len() - 1 {
                    assert(j[i] == ',');
                } else {
                    assert(j[i + 1] == ',');
                }
            }
        }
        if xs.len() >= 2 {
            let ji = joined(quoted_items(init), ","@);
            assert(j[0] == ji[0]);
        }
    }
}

/// The saved form of a tree in its parts: each key with the character
/// before it, each field's text, and the closing brackets between them.
pub open spec fn saved_parts(st: CrucibleState, px: Seq<Seq<char>>, py: Seq<Seq<char>>) -> Seq<Seq<char>> {
    seq![
        "{\"nc\":"@, decimal(st.nodes@.len() as int),
        ",\"nm\":["@, joined(name_items(st), ","@), "]"@,
        ",\"ds\":["@, joined(description_items(st), ","@), "]"@,
        ",\"fx\":["@, joined(tag_items(st), ","@), "]"@,
        ",\"xc\":["@, joined(cost_items(st), ","@), "]"@,
        ",\"px\":["@, joined(px, ","@), "]"@,
        ",\"py\":["@, joined(py, ","@), "]"@,
        ",\"eg\":\""@, joined(edge_items(st), ";"@), "\""@,
        ",\"al\":["@, joined(flag_items(st), ","@), "]"@,
        ",\"xp\":"@, decimal(st.xp as int), "}"@
    ]
}

proof fn lemma_saved_concat(st: CrucibleState, px: Seq<Seq<char>>, py: Seq<Seq<char>>)
    ensures
        saved_form(st, px, py) == concat(saved_parts(st, px, py)),
        saved_parts(st, px, py).len() == 29,
{
    let parts = saved_parts(st, px, py);
    assert(concat(parts.take(0)) =~= Seq::<char>::empty()) by {
        assert(parts.take(0) =~= Seq::<Seq<char>>::empty());
    }
    assert(parts.take(29) =~= parts);
    assert(concat(parts.take(1)) == concat(parts.take(0)) + parts[0]) by {
        assert(parts.take(1).drop_last() =~= parts.take(0));
    }
    assert(concat(parts.take(2)) == concat(parts.take(1)) + parts[1]) by {
        assert(parts.take(2).drop_last() =~= parts.take(1));
    }
    assert(concat(parts.take(3)) == concat(parts.take(2)) + parts[2]) by {
        assert(parts.take(3).drop_last() =~= parts.take(2));
    }
    assert(concat(parts.take(4)) == concat(parts.take(3)) + parts[3]) by {
        assert(parts.take(4).drop_last() =~= parts.take(3));
    }
    assert(concat(parts.take(5)) == concat(parts.take(4)) + parts[4]) by {
        assert(parts.take(5).drop_last() =~= parts.take(4));
    }
    assert(concat(parts.take(6)) == concat(parts.take(5)) + parts[5]) by {
        assert(parts.take(6).drop_last() =~= parts.take(5));
    }
    assert(concat(parts.take(7)) == concat(parts.take(6)) + parts[6]) by {
        assert(parts.take(7).drop_last() =~= parts.take(6));
    }
    assert(concat(parts.take(8)) == concat(parts.take(7)) + parts[7]) by {
        assert(parts.take(8).drop_last() =~= parts.take(7));
    }
    assert(concat(parts.take(9)) == concat(parts.take(8)) + parts[8]) by {
        assert(parts.take(9).drop_last() =~= parts.take(8));
    }
    assert(concat(parts.take(10)) == concat(parts.take(9)) + parts[9]) by {
        assert(parts.take(10).drop_last() =~= parts.take(9));
    }
    assert(concat(parts.take(11)) == concat(parts.take(10)) + parts[10]) by {
        assert(parts.take(11).drop_last() =~= parts.take(10));
    }
    assert(concat(parts.take(12)) == concat(parts.take(11)) + parts[11]) by {
        assert(parts.take(12).drop_last() =~= parts.take(11));
    }
    assert(concat(parts.take(13)) == concat(parts.take(12)) + parts[12]) by {
        assert(parts.take(13).drop_last() =~= parts.take(12));
    }
    assert(concat(parts.take(14)) == concat(parts.take(13)) + parts[13]) by {
        assert(parts.take(14).drop_last() =~= parts.take(13));
    }
    assert(concat(parts.take(15)) == concat(parts.take(14)) + parts[14]) by {
        assert(parts.take(15).drop_last() =~= parts.take(14));
    }
    assert(concat(parts.take(16)) == concat(parts.take(15)) + parts[15]) by {
        assert(parts.take(16).drop_last() =~= parts.take(15));
    }
    assert(concat(parts.take(17)) == concat(parts.take(16)) + parts[16]) by {
        assert(parts.take(17).drop_last() =~= parts.take(16));
    }
    assert(concat(parts.take(18)) == concat(parts.take(17)) + parts[17]) by {
        assert(parts.take(18).drop_last() =~= parts.take(17));
    }
    assert(concat(parts.take(19)) == concat(parts.take(18)) + parts[18]) by {
        assert(parts.take(19).drop_last() =~= parts.take(18));
    }
    assert(concat(parts.take(20)) == concat(parts.take(19)) + parts[19]) by {
        assert(parts.take(20).drop_last() =~= parts.take(19));
    }
    assert(concat(parts.take(21)) == concat(parts.take(20)) + parts[20]) by {
        assert(parts.take(21).drop_last() =~= parts.take(20));
    }
    assert(concat(parts.take(22)) == concat(parts.take(21)) + parts[21]) by {
        assert(parts.take(22).drop_last() =~= parts.take(21));
    }
    assert(concat(parts.take(23)) == concat(parts.take(22)) + parts[22]) by {
        assert(parts.take(23).drop_last() =~= parts.take(22));
    }
    assert(concat(parts.take(24)) == concat(parts.take(23)) + parts[23]) by {
        assert(parts.take(24).drop_last() =~= parts.take(23));
    }
    assert(concat(parts.take(25)) == concat(parts.take(24)) + parts[24]) by {
        assert(parts.take(25).drop_last() =~= parts.take(24));
    }
    assert(concat(parts.take(26)) == concat(parts.take(25)) + parts[25]) by {
        assert(parts.take(26).drop_last() =~= parts.take(25));
    }
    assert(concat(parts.take(27)) == concat(parts.take(26)) + parts[26]) by {
        assert(parts.take(27).drop_last() =~= parts.take(26));
    }
    assert(concat(parts.take(28)) == concat(parts.take(27)) + parts[27]) by {
        assert(parts.take(28).drop_last() =~= parts.take(27));
    }
    assert(concat(parts.take(29)) == concat(parts.take(28)) + parts[28]) by {
        assert(parts.take(29).drop_last() =~= parts.take(28));
    }
    assert(saved_form(st, px, py) =~= concat(parts));
}

/// The saved form can be read back: a well-formed tree with at least one
/// node and no more than a `u32` counts, and one position text per node in
/// each list, each accepted by floating-point parsing.
pub open spec fn saved_ok(st: CrucibleState, px: Seq<Seq<char>>, py: Seq<Seq<char>>) -> bool {
    &&& st.wf()
    &&& 0 < st.nodes@.len() <= u32::MAX
    &&& px.len() == st.nodes@.len()
    &&& py.len() == st.nodes@.len()
    &&& forall|i: int| 0 <= i < px.len() ==> float_syntax(#[trigger] px[i])
    &&& forall|i: int| 0 <= i < py.len() ==> float_syntax(#[trigger] py[i])
}

/// Text without quotes or colons.
pub open spec fn calm(t: Seq<char>) -> bool {
    forall|k: int| 0 <= k < t.len() ==> #[trigger] t[k] != '"' && t[k] != ':'
}

proof fn lemma_calm_digits(v: nat)
    ensures
        calm(digits(v)),
        digits(v).len() > 0,
{
    lemma_digits_value(v);
    assert forall|k: int| 0 <= k < digits(v).len() implies #[trigger] digits(v)[k] != '"' && digits(v)[k] != ':' by {
        assert(is_digit(digits(v)[k]));
    }
}

proof fn lemma_calm_joined(items: Seq<Seq<char>>, sep: Seq<char>)
    requires
        forall|i: int| 0 <= i < items.len() ==> calm(#[trigger] items[i]),
        calm(sep),
    ensures
        calm(joined(items, sep)),
{
    let ok = |c: char| c != '"' && c != ':';
    assert forall|i: int, k: int| 0 <= i < items.len() && 0 <= k < items[i].len() implies ok(#[trigger] items[i][k]) by {
        assert(calm(items[i]));
    }
    assert forall|k: int| 0 <= k < sep.len() implies ok(#[trigger] sep[k]) by {}
    lemma_joined_chars(items, sep, ok);
}

proof fn lemma_calm_floats(toks: Seq<Seq<char>>)
    requires
        forall|i: int| 0 <= i < toks.len() ==> float_syntax(#[trigger] toks[i]),
    ensures
        calm(joined(toks, ","@)),
{
    reveal_strlit(",");
    assert forall|i: int| 0 <= i < toks.len() implies calm(#[trigger] toks[i]) by {
        lemma_float_chars(toks[i]);
        assert forall|k: int| 0 <= k < toks[i].len() implies #[trigger] toks[i][k] != '"' && toks[i][k] != ':' by {
            assert(float_char(toks[i][k]));
        }
    }
    lemma_calm_joined(toks, ","@);
}

proof fn lemma_calm_parts(st: CrucibleState, px: Seq<Seq<char>>, py: Seq<Seq<char>>)
    requires
        saved_ok(st, px, py),
    ensures
        calm(saved_parts(st, px, py)[1]),
        calm(saved_parts(st, px, py)[12]),
        calm(saved_parts(st, px, py)[15]),
        calm(saved_parts(st, px, py)[18]),
        calm(saved_parts(st, px, py)[21]),
        calm(saved_parts(st, px, py)[24]),
        calm(saved_parts(st, px, py)[27]),
{
    reveal_strlit(",");
    reveal_strlit(";");
    reveal_strlit("1");
    reveal_strlit("0");
    let parts = saved_parts(st, px, py);
    lemma_calm_digits(st.nodes@.len());
    lemma_calm_digits(st.xp as nat);
    let costs = cost_items(st);
    assert forall|i: int| 0 <= i < costs.len() implies calm(#[trigger] costs[i]) by {
        lemma_calm_digits(st.nodes@[i].xp_cost as nat);
    }
    lemma_calm_joined(costs, ","@);
    lemma_calm_floats(px);
    lemma_calm_floats(py);
    let edges = edge_items(st);
    assert forall|i: int| 0 <= i < edges.len() implies calm(#[trigger] edges[i]) by {
        let list = st.edges@[i]@;
        let nums = Seq::new(list.len(), |m: int| decimal(list[m] as int));
        assert forall|a: int| 0 <= a < nums.len() implies calm(#[trigger] nums[a]) by {
            lemma_calm_digits(list[a] as nat);
        }
        lemma_calm_joined(nums, ","@);
    }
    lemma_calm_joined(edges, ";"@);
    let flags = flag_items(st);
    assert forall|i: int| 0 <= i < flags.len() implies calm(#[trigger] flags[i]) by {}
    lemma_calm_joined(flags, ","@);
}

/// A key with the character before it: a non-letter, a quote, two
/// lower-case letters, a quote and a colon, then at most one more character.
pub open spec fn key_shape(l: Seq<char>) -> bool {
    &&& 6 <= l.len() <= 7
    &&& (l[0] == ',' || l[0] == '{')
    &&& l[1] == '"'
    &&& 'a' <= l[2] <= 'z'
    &&& 'a' <= l[3] <= 'z'
    &&& l[4] == '"'
    &&& l[5] == ':'
}

proof fn lemma_key_shape(l: Seq<char>)
    requires
        key_shape(l),
    ensures
        forall|j: int| #[trigger] key_end(l, j) <==> j == 3,
{
    assert forall|j: int| #[trigger] key_end(l, j) <==> j == 3 by {
        if key_end(l, j) {
            if j == 0 {
            } else if j == 1 {
            } else if j == 2 {
            } else if j == 4 {
            }
        }
    }
}

/// The parts of the saved form that are keys.
pub open spec fn is_key_part(k: int) -> bool {
    k == 0 || k == 2 || k == 5 || k == 8 || k == 11 || k == 14 || k == 17 || k == 20 || k == 23 || k == 26
}

proof fn lemma_key_parts(st: CrucibleState, px: Seq<Seq<char>>, py: Seq<Seq<char>>)
    ensures
        forall|k: int| 0 <= k < 29 && is_key_part(k) ==> key_shape(#[trigger] saved_parts(st, px, py)[k]),
{
    reveal_strlit("{\"nc\":");
    reveal_strlit(",\"nm\":[");
    reveal_strlit(",\"ds\":[");
    reveal_strlit(",\"fx\":[");
    reveal_strlit(",\"xc\":[");
    reveal_strlit(",\"px\":[");
    reveal_strlit(",\"py\":[");
    reveal_strlit(",\"eg\":\"");
    reveal_strlit(",\"al\":[");
    reveal_strlit(",\"xp\":");
}

proof fn lemma_escaped_plain(x: Seq<char>)
    requires
        forall|k: int| 0 <= k < x.len() ==> #[trigger] x[k] != '"' && x[k] != '\\',
    ensures
        escaped(x) == x,
    decreases x.len(),
{
    if x.len() > 0 {
        assert forall|k: int| 0 <= k < x.drop_last().len() implies #[trigger] x.drop_last()[k] != '"' && x.drop_last()[k]
            != '\\' by {
            assert(x.drop_last()[k] == x[k]);
        }
        lemma_escaped_plain(x.drop_last());
        assert(x[x.len() - 1] != '"' && x[x.len() - 1] != '\\');
        assert(x.drop_last().push(x.last()) =~= x);
        assert(x.drop_last() + seq![x.last()] =~= x);
    } else {
        assert(x =~= Seq::<char>::empty());
    }
}

/// Text without quotes or backslashes.
pub open spec fn plain(t: Seq<char>) -> bool {
    forall|k: int| 0 <= k < t.len() ==> #[trigger] t[k] != '"' && t[k] != '\\'
}

proof fn lemma_plain_concat(a: Seq<char>, b: Seq<char>)
    requires
        plain(a),
        plain(b),
    ensures
        plain(a + b),
{
    assert forall|k: int| 0 <= k < (a + b).len() implies #[trigger] (a + b)[k] != '"' && (a + b)[k] != '\\' by {
        if k < a.len() {
            assert((a + b)[k] == a[k]);
        } else {
            assert((a + b)[k] == b[k - a.len()]);
        }
    }
}

proof fn lemma_plain_decimal(v: int)
    ensures
        plain(decimal(v)),
{
    let m: nat = if v < 0 { (-v) as nat } else { v as nat };
    lemma_digits_value(m);
    assert(plain(digits(m))) by {
        assert forall|k: int| 0 <= k < digits(m).len() implies #[trigger] digits(m)[k] != '"' && digits(m)[k] != '\\' by {
            assert(is_digit(digits(m)[k]));
        }
    }
    if v < 0 {
        assert(plain(seq!['-']));
        lemma_plain_concat(seq!['-'], digits(m));
    }
}

proof fn lemma_tag_plain(e: CrucibleEffect)
    ensures
        plain(tag_spec(e)),
{
    lemma_name_plain(e);
    let name = effect_name(e);
    assert(plain(name));
    assert(plain(seq![':']));
    assert(plain(seq![',']));
    match e {
        CrucibleEffect::BurnOnHit { damage, turns } | CrucibleEffect::PoisonOnHit { damage, turns } => {
            lemma_plain_decimal(damage as int);
            lemma_plain_decimal(turns as int);
            lemma_plain_concat(name, seq![':']);
            lemma_plain_concat(name + seq![':'], decimal(damage as int));
            lemma_plain_concat(name + seq![':'] + decimal(damage as int), seq![',']);
            lemma_plain_concat(name + seq![':'] + decimal(damage as int) + seq![','], decimal(turns as int));
        },
        CrucibleEffect::BonusDamage(n) | CrucibleEffect::BonusArmor(n) | CrucibleEffect::MaxHp(n)
        | CrucibleEffect::CritChance(n) | CrucibleEffect::LifeSteal(n) | CrucibleEffect::SpellPower(n)
        | CrucibleEffect::FocusRegen(n) | CrucibleEffect::GoldFind(n) | CrucibleEffect::RadicalFind(n)
        | CrucibleEffect::DodgeChance(n) | CrucibleEffect::MovementBonus(n) | CrucibleEffect::HealOnKill(n)
        | CrucibleEffect::FocusOnKill(n) | CrucibleEffect::HardAnswerDamage(n) | CrucibleEffect::HardAnswerHeal(n)
        | CrucibleEffect::DoubleStrike(n) | CrucibleEffect::ArmorPierce(n) | CrucibleEffect::EmergencyRepair(n) => {
            lemma_plain_decimal(n as int);
            lemma_plain_concat(name, seq![':']);
            lemma_plain_concat(name + seq![':'], decimal(n as int));
        },
        _ => {},
    }
}

/// The names of the nodes.
pub open spec fn node_names(st: CrucibleState) -> Seq<Seq<char>> {
    Seq::new(st.nodes@.len(), |i: int| st.nodes@[i].name@)
}

/// The descriptions of the nodes.
pub open spec fn node_descriptions(st: CrucibleState) -> Seq<Seq<char>> {
    Seq::new(st.nodes@.len(), |i: int| st.nodes@[i].description@)
}

/// The effect tags of the nodes.
pub open spec fn node_tags(st: CrucibleState) -> Seq<Seq<char>> {
    Seq::new(st.nodes@.len(), |i: int| tag_spec(st.nodes@[i].effect))
}

proof fn lemma_list_items(st: CrucibleState)
    ensures
        name_items(st) == quoted_items(node_names(st)),
        description_items(st) == quoted_items(node_descriptions(st)),
        tag_items(st) == quoted_items(node_tags(st)),
{
    assert(name_items(st) =~= quoted_items(node_names(st)));
    assert(description_items(st) =~= quoted_items(node_descriptions(st)));
    assert forall|i: int| 0 <= i < st.nodes@.len() implies escaped(#[trigger] node_tags(st)[i]) == node_tags(st)[i] by {
        lemma_tag_plain(st.nodes@[i].effect);
        lemma_escaped_plain(tag_spec(st.nodes@[i].effect));
    }
    assert(tag_items(st) =~= quoted_items(node_tags(st)));
}

proof fn lemma_parts_keyless(st: CrucibleState, px: Seq<Seq<char>>, py: Seq<Seq<char>>)
    requires
        saved_ok(st, px, py),
    ensures
        forall|k: int| 0 <= k < 29 && !is_key_part(k) ==> keyless(#[trigger] saved_parts(st, px, py)[k]),
{
    reveal_strlit("]");
    reveal_strlit("}");
    reveal_strlit("\"");
    let parts = saved_parts(st, px, py);
    lemma_calm_parts(st, px, py);
    lemma_list_items(st);
    lemma_quoted_list_keyless(node_names(st));
    lemma_quoted_list_keyless(node_descriptions(st));
    lemma_quoted_list_keyless(node_tags(st));
    assert forall|k: int| 0 <= k < 29 && !is_key_part(k) implies keyless(#[trigger] parts[k]) by {
        if k == 3 || k == 6 || k == 9 {
        } else if parts[k].len() < 3 {
            assert forall|j: int| !#[trigger] key_end(parts[k], j) by {}
        } else {
            assert(calm(parts[k]));
            lemma_keyless_without_quote(parts[k]);
        }
    }
}

proof fn lemma_parts_seams(st: CrucibleState, px: Seq<Seq<char>>, py: Seq<Seq<char>>)
    requires
        saved_ok(st, px, py),
    ensures
        forall|k: int| 1 <= k < 29 ==> seam_ok(concat(#[trigger] saved_parts(st, px, py).take(k)), saved_parts(st, px, py)[k]),
{
    reveal_strlit("]");
    reveal_strlit("}");
    reveal_strlit("\"");
    reveal_strlit(",\"nm\":[");
    reveal_strlit(",\"ds\":[");
    reveal_strlit(",\"fx\":[");
    let parts = saved_parts(st, px, py);
    lemma_calm_parts(st, px, py);
    lemma_key_parts(st, px, py);
    lemma_list_items(st);
    lemma_quoted_list_keyless(node_names(st));
    lemma_quoted_list_keyless(node_descriptions(st));
    lemma_quoted_list_keyless(node_tags(st));
    assert forall|k: int| 1 <= k < 29 implies seam_ok(concat(#[trigger] parts.take(k)), parts[k]) by {
        let a = concat(parts.take(k));
        let b = parts[k];
        if k == 3 || k == 6 || k == 9 {
            assert(parts.take(k).drop_last() =~= parts.take(k - 1));
            assert(a == concat(parts.take(k - 1)) + parts[k - 1]);
            assert(key_shape(parts[k - 1]));
            assert(parts[k - 1].last() == '[');
            assert(a.last() == '[');
            assert(b[0] == '"');
        } else if is_key_part(k) {
            assert(key_shape(b));
        } else if k == 22 || b.len() == 1 {
        } else {
            assert(calm(b));
            if b.len() > 0 {
                assert(b[0] != '"' && b[0] != ':');
            }
        }
    }
}

proof fn lemma_key_letters(st: CrucibleState, px: Seq<Seq<char>>, py: Seq<Seq<char>>)
    ensures
        forall|a: int, b: int|
            0 <= a < 29 && 0 <= b < 29 && is_key_part(a) && is_key_part(b) && #[trigger] saved_parts(st, px, py)[a][2]
                == #[trigger] saved_parts(st, px, py)[b][2] && saved_parts(st, px, py)[a][3] == saved_parts(st, px, py)[b][3]
                ==> a == b,
{
    reveal_strlit("{\"nc\":");
    reveal_strlit(",\"nm\":[");
    reveal_strlit(",\"ds\":[");
    reveal_strlit(",\"fx\":[");
    reveal_strlit(",\"xc\":[");
    reveal_strlit(",\"px\":[");
    reveal_strlit(",\"py\":[");
    reveal_strlit(",\"eg\":\"");
    reveal_strlit(",\"al\":[");
    reveal_strlit(",\"xp\":");
}

/// Each key of the saved form is first found where it was written.
#[verifier::rlimit(60)]
#[verifier::spinoff_prover]
proof fn lemma_key_found(st: CrucibleState, px: Seq<Seq<char>>, py: Seq<Seq<char>>, kp: int)
    requires
        saved_ok(st, px, py),
        0 <= kp < 29,
        is_key_part(kp),
    ensures
        find_from(saved_form(st, px, py), saved_parts(st, px, py)[kp].drop_first(), 0) == offset(saved_parts(st, px, py), kp) + 1,
{
    let parts = saved_parts(st, px, py);
    let s = saved_form(st, px, py);
    lemma_saved_concat(st, px, py);
    lemma_key_parts(st, px, py);
    lemma_parts_keyless(st, px, py);
    lemma_parts_seams(st, px, py);
    lemma_key_letters(st, px, py);
    let l = parts[kp];
    assert(key_shape(l));
    let n = l.drop_first();
    let p = offset(parts, kp) + 1;
    lemma_part_at(parts, kp);
    assert(s.subrange(p, p + n.len()) =~= n) by {
        assert forall|m: int| 0 <= m < n.len() implies s.subrange(p, p + n.len())[m] == n[m] by {
            assert(s.subrange(offset(parts, kp), offset(parts, kp) + l.len())[m + 1] == l[m + 1]);
        }
    }
    assert(occurs_at(s, n, p));
    assert forall|i: int| 0 <= i < p implies !occurs_at(s, n, i) by {
        if occurs_at(s, n, i) {
            assert(s[i + 1] == n[1]) by {
                assert(s.subrange(i, i + n.len())[1] == n[1]);
            }
            assert(s[i + 2] == n[2]) by {
                assert(s.subrange(i, i + n.len())[2] == n[2]);
            }
            assert(s[i + 3] == n[3]) by {
                assert(s.subrange(i, i + n.len())[3] == n[3]);
            }
            assert(s[i + 4] == n[4]) by {
                assert(s.subrange(i, i + n.len())[4] == n[4]);
            }
            assert(key_end(concat(parts), i + 2));
            lemma_key_end_in_part(parts, i + 2);
            let k = choose|k: int| 0 <= k < parts.len() && #[trigger] key_end(parts[k], i + 2 - offset(parts, k));
            if !is_key_part(k) {
                assert(keyless(parts[k]));
            } else {
                lemma_key_shape(parts[k]);
                assert(i + 2 - offset(parts, k) == 3);
                lemma_part_at(parts, k);
                assert(s[i + 1] == parts[k][2]) by {
                    assert(s.subrange(offset(parts, k), offset(parts, k) + parts[k].len())[2] == parts[k][2]);
                }
                assert(s[i + 2] == parts[k][3]) by {
                    assert(s.subrange(offset(parts, k), offset(parts, k) + parts[k].len())[3] == parts[k][3]);
                }
                assert(parts[k][2] == parts[kp][2] && parts[k][3] == parts[kp][3]);
                assert(k == kp);
            }
        }
    }
    lemma_find_from_skip(s, n, 0, p);
}

proof fn lemma_field_place(st: CrucibleState, px: Seq<Seq<char>>, py: Seq<Seq<char>>, k: int)
    requires
        1 <= k < 28,
        saved_parts(st, px, py)[k + 1].len() > 0,
    ensures
        ({
            let parts = saved_parts(st, px, py);
            let s = saved_form(st, px, py);
            &&& offset(parts, k) >= 0
            &&& offset(parts, k) + parts[k].len() < s.len()
            &&& s.subrange(offset(parts, k), offset(parts, k) + parts[k].len()) == parts[k]
            &&& offset(parts, k + 1) == offset(parts, k) + parts[k].len()
            &&& s[offset(parts, k + 1)] == parts[k + 1][0]
        }),
{
    let parts = saved_parts(st, px, py);
    let s = saved_form(st, px, py);
    lemma_saved_concat(st, px, py);
    lemma_part_at(parts, k);
    lemma_part_at(parts, k + 1);
    assert(s[offset(parts, k + 1)] == s.subrange(offset(parts, k + 1), offset(parts, k + 1) + parts[k + 1].len())[0]);
}

proof fn lemma_key_start(st: CrucibleState, px: Seq<Seq<char>>, py: Seq<Seq<char>>, kp: int)
    requires
        saved_ok(st, px, py),
        0 <= kp < 28,
        is_key_part(kp),
    ensures
        ({
            let parts = saved_parts(st, px, py);
            let n = parts[kp].drop_first();
            &&& find_from(saved_form(st, px, py), n, 0) == offset(parts, kp) + 1
            &&& offset(parts, kp) + 1 + n.len() == offset(parts, kp + 1)
        }),
{
    let parts = saved_parts(st, px, py);
    lemma_saved_concat(st, px, py);
    lemma_key_parts(st, px, py);
    lemma_key_found(st, px, py, kp);
    lemma_part_at(parts, kp);
}

/// The node costs.
pub open spec fn node_costs(st: CrucibleState) -> Seq<int> {
    Seq::new(st.nodes@.len(), |i: int| st.nodes@[i].xp_cost as int)
}

/// The unlock flags as 1 and 0.
pub open spec fn node_flags(st: CrucibleState) -> Seq<int> {
    Seq::new(st.allocated@.len(), |i: int| if st.allocated@[i] { 1int } else { 0int })
}

#[verifier::spinoff_prover]
proof fn lemma_read_count(st: CrucibleState, px: Seq<Seq<char>>, py: Seq<Seq<char>>)
    requires
        saved_ok(st, px, py),
    ensures
        ({
            let j = saved_form(st, px, py);
            &&& saved_count(j) == Some(st.nodes@.len() as int)
            &&& saved_xp(j) == st.xp
        }),
{
    reveal_strlit("{\"nc\":");
    reveal_strlit(",\"nm\":[");
    reveal_strlit(",\"ds\":[");
    reveal_strlit(",\"fx\":[");
    reveal_strlit(",\"xc\":[");
    reveal_strlit(",\"px\":[");
    reveal_strlit(",\"py\":[");
    reveal_strlit(",\"eg\":\"");
    reveal_strlit(",\"al\":[");
    reveal_strlit(",\"xp\":");
    reveal_strlit("]");
    reveal_strlit("}");
    reveal_strlit("\"");
    reveal_strlit(",");
    reveal_strlit("\"nc\":");
    reveal_strlit("\"xp\":");
    let parts = saved_parts(st, px, py);
    let j = saved_form(st, px, py);
    let n = st.nodes@.len();
    lemma_saved_concat(st, px, py);
    lemma_key_start(st, px, py, 0);
    assert("\"nc\":"@ =~= parts[0].drop_first());
    lemma_field_place(st, px, py, 1);
    lemma_digits_value(n);
    lemma_number_read(j, offset(parts, 1), n);
    lemma_key_start(st, px, py, 26);
    assert("\"xp\":"@ =~= parts[26].drop_first());
    lemma_field_place(st, px, py, 27);
    lemma_digits_value(st.xp as nat);
    lemma_number_read(j, offset(parts, 27), st.xp as nat);
}

#[verifier::spinoff_prover]
proof fn lemma_read_texts(st: CrucibleState, px: Seq<Seq<char>>, py: Seq<Seq<char>>)
    requires
        saved_ok(st, px, py),
    ensures
        ({
            let j = saved_form(st, px, py);
            &&& saved_names(j) == node_names(st)
            &&& saved_descriptions(j) == node_descriptions(st)
            &&& saved_tags(j) == node_tags(st)
        }),
{
    reveal_strlit("{\"nc\":");
    reveal_strlit(",\"nm\":[");
    reveal_strlit(",\"ds\":[");
    reveal_strlit(",\"fx\":[");
    reveal_strlit(",\"xc\":[");
    reveal_strlit(",\"px\":[");
    reveal_strlit(",\"py\":[");
    reveal_strlit(",\"eg\":\"");
    reveal_strlit(",\"al\":[");
    reveal_strlit(",\"xp\":");
    reveal_strlit("]");
    reveal_strlit("}");
    reveal_strlit("\"");
    reveal_strlit(",");
    reveal_strlit("\"nm\":[");
    reveal_strlit("\"ds\":[");
    reveal_strlit("\"fx\":[");
    let parts = saved_parts(st, px, py);
    let j = saved_form(st, px, py);
    let n = st.nodes@.len();
    lemma_saved_concat(st, px, py);
    lemma_list_items(st);
    lemma_key_start(st, px, py, 2);
    assert("\"nm\":["@ =~= parts[2].drop_first());
    lemma_field_place(st, px, py, 3);
    lemma_list_scan(j, offset(parts, 3), node_names(st), 0);
    let s3 = j.subrange(offset(parts, 3), offset(parts, 4) + 1);
    assert(s3.subrange(0, parts[3].len() as int) =~= parts[3]);
    lemma_list_scan(s3, 0, node_names(st), 0);
    assert(s3.subrange(0, parts[3].len() as int) =~= j.subrange(offset(parts, 3), offset(parts, 4)));
    lemma_key_start(st, px, py, 5);
    assert("\"ds\":["@ =~= parts[5].drop_first());
    lemma_field_place(st, px, py, 6);
    lemma_list_scan(j, offset(parts, 6), node_descriptions(st), 0);
    let s6 = j.subrange(offset(parts, 6), offset(parts, 7) + 1);
    assert(s6.subrange(0, parts[6].len() as int) =~= parts[6]);
    lemma_list_scan(s6, 0, node_descriptions(st), 0);
    assert(s6.subrange(0, parts[6].len() as int) =~= j.subrange(offset(parts, 6), offset(parts, 7)));
    lemma_key_start(st, px, py, 8);
    assert("\"fx\":["@ =~= parts[8].drop_first());
    lemma_field_place(st, px, py, 9);
    lemma_list_scan(j, offset(parts, 9), node_tags(st), 0);
    let s9 = j.subrange(offset(parts, 9), offset(parts, 10) + 1);
    assert(s9.subrange(0, parts[9].len() as int) =~= parts[9]);
    lemma_list_scan(s9, 0, node_tags(st), 0);
    assert(s9.subrange(0, parts[9].len() as int) =~= j.subrange(offset(parts, 9), offset(parts, 10)));
}

#[verifier::spinoff_prover]
proof fn lemma_read_numbers(st: CrucibleState, px: Seq<Seq<char>>, py: Seq<Seq<char>>)
    requires
        saved_ok(st, px, py),
    ensures
        ({
            let j = saved_form(st, px, py);
            &&& saved_costs(j) == node_costs(st)
            &&& saved_flags(j) == node_flags(st)
        }),
{
    reveal_strlit("{\"nc\":");
    reveal_strlit(",\"nm\":[");
    reveal_strlit(",\"ds\":[");
    reveal_strlit(",\"fx\":[");
    reveal_strlit(",\"xc\":[");
    reveal_strlit(",\"px\":[");
    reveal_strlit(",\"py\":[");
    reveal_strlit(",\"eg\":\"");
    reveal_strlit(",\"al\":[");
    reveal_strlit(",\"xp\":");
    reveal_strlit("]");
    reveal_strlit("}");
    reveal_strlit("\"");
    reveal_strlit(",");
    reveal_strlit("\"xc\":[");
    reveal_strlit("\"al\":[");
    reveal_strlit("1");
    reveal_strlit("0");
    let parts = saved_parts(st, px, py);
    let j = saved_form(st, px, py);
    let n = st.nodes@.len();
    lemma_saved_concat(st, px, py);
    lemma_key_start(st, px, py, 11);
    assert("\"xc\":["@ =~= parts[11].drop_first());
    lemma_field_place(st, px, py, 12);
    assert(cost_items(st) =~= numerals(node_costs(st)));
    lemma_number_list_read(j, offset(parts, 12), node_costs(st), u32::MAX as int);
    lemma_key_start(st, px, py, 23);
    assert("\"al\":["@ =~= parts[23].drop_first());
    lemma_field_place(st, px, py, 24);
    assert(digits(1) =~= "1"@);
    assert(digits(0) =~= "0"@);
    assert(flag_items(st) =~= numerals(node_flags(st)));
    lemma_number_list_read(j, offset(parts, 24), node_flags(st), u32::MAX as int);
}

#[verifier::spinoff_prover]
proof fn lemma_read_positions(st: CrucibleState, px: Seq<Seq<char>>, py: Seq<Seq<char>>)
    requires
        saved_ok(st, px, py),
    ensures
        ({
            let j = saved_form(st, px, py);
            &&& saved_xs(j) == px
            &&& saved_ys(j) == py
        }),
{
    reveal_strlit("{\"nc\":");
    reveal_strlit(",\"nm\":[");
    reveal_strlit(",\"ds\":[");
    reveal_strlit(",\"fx\":[");
    reveal_strlit(",\"xc\":[");
    reveal_strlit(",\"px\":[");
    reveal_strlit(",\"py\":[");
    reveal_strlit(",\"eg\":\"");
    reveal_strlit(",\"al\":[");
    reveal_strlit(",\"xp\":");
    reveal_strlit("]");
    reveal_strlit("}");
    reveal_strlit("\"");
    reveal_strlit(",");
    reveal_strlit("\"px\":[");
    reveal_strlit("\"py\":[");
    let parts = saved_parts(st, px, py);
    let j = saved_form(st, px, py);
    let n = st.nodes@.len();
    lemma_saved_concat(st, px, py);
    lemma_key_start(st, px, py, 14);
    assert("\"px\":["@ =~= parts[14].drop_first());
    lemma_field_place(st, px, py, 15);
    lemma_float_list_read(j, offset(parts, 15), px);
    lemma_key_start(st, px, py, 17);
    assert("\"py\":["@ =~= parts[17].drop_first());
    lemma_field_place(st, px, py, 18);
    lemma_float_list_read(j, offset(parts, 18), py);
}

#[verifier::spinoff_prover]
proof fn lemma_read_adjacency(st: CrucibleState, px: Seq<Seq<char>>, py: Seq<Seq<char>>)
    requires
        saved_ok(st, px, py),
    ensures
        forall|i: int| 0 <= i < st.nodes@.len() ==> #[trigger] group_edges(saved_adjacency(saved_form(st, px, py)),
            st.nodes@.len() as int, i) == list_ints(st.edges@[i]@),
{
    reveal_strlit(",\"eg\":\"");
    reveal_strlit("\"eg\":\"");
    reveal_strlit("\"");
    let parts = saved_parts(st, px, py);
    let j = saved_form(st, px, py);
    lemma_saved_concat(st, px, py);
    lemma_key_start(st, px, py, 20);
    assert("\"eg\":\""@ =~= parts[20].drop_first());
    lemma_field_place(st, px, py, 21);
    lemma_edges_read(j, offset(parts, 21), st);
}

/// Node `i` of `a` and of `b` agree on name, description, effect, cost,
/// neighbours and unlock flag.
pub open spec fn same_node(a: CrucibleState, b: CrucibleState, i: int) -> bool {
    &&& a.nodes@[i].name@ == b.nodes@[i].name@
    &&& a.nodes@[i].description@ == b.nodes@[i].description@
    &&& a.nodes@[i].effect == b.nodes@[i].effect
    &&& a.nodes@[i].xp_cost == b.nodes@[i].xp_cost
    &&& a.edges@[i]@ == b.edges@[i]@
    &&& a.allocated@[i] == b.allocated@[i]
}

/// `a` and `b` hold the same tree and the same banked XP; the drawing of
/// the nodes and the per-fight state may differ.
pub open spec fn same_tree(a: CrucibleState, b: CrucibleState) -> bool {
    &&& a.nodes@.len() == b.nodes@.len()
    &&& forall|i: int| 0 <= i < a.nodes@.len() ==> #[trigger] same_node(a, b, i)
    &&& a.xp == b.xp
}

/// What `to_json` writes, `from_json` reads back: for a well-formed tree
/// with at least one node, a node count that fits a `u32`, and position
/// texts that floating-point parsing accepts, one per node, the saved form
/// is readable, its positions are the texts written, and any state read
/// from it holds the same tree — names, descriptions, effects, costs,
/// neighbours, unlock flags — and the same banked XP.
pub proof fn lemma_json_round_trip(st: CrucibleState, px: Seq<Seq<char>>, py: Seq<Seq<char>>, back: CrucibleState)
    requires
        st.wf(),
        0 < st.nodes@.len() <= u32::MAX,
        px.len() == st.nodes@.len(),
        py.len() == st.nodes@.len(),
        forall|i: int| 0 <= i < px.len() ==> float_syntax(#[trigger] px[i]),
        forall|i: int| 0 <= i < py.len() ==> float_syntax(#[trigger] py[i]),
    ensures
        readable(saved_form(st, px, py)),
        saved_xs(saved_form(st, px, py)) == px,
        saved_ys(saved_form(st, px, py)) == py,
        read_from(back, saved_form(st, px, py)) ==> same_tree(back, st),
{
    let j = saved_form(st, px, py);
    let n = st.nodes@.len();
    lemma_read_count(st, px, py);
    lemma_read_texts(st, px, py);
    lemma_read_numbers(st, px, py);
    lemma_read_positions(st, px, py);
    lemma_read_adjacency(st, px, py);
    assert(readable(j));
    if read_from(back, j) {
        assert forall|i: int| 0 <= i < back.nodes@.len() implies #[trigger] same_node(back, st, i) by {
            assert(node_read(back, j, i));
            assert(edges_read(back, j, i));
            lemma_tag_round_trip(st.nodes@[i].effect);
            let want = group_edges(saved_adjacency(j), n as int, i);
            assert(want == list_ints(st.edges@[i]@));
            assert(back.edges@[i]@ =~= st.edges@[i]@) by {
                assert forall|k: int| 0 <= k < want.len() implies back.edges@[i]@[k] == st.edges@[i]@[k] by {
                    assert(back.edges@[i]@[k] == want[k]);
                }
            }
        }
    }
}

} // verus!
