//! Building message text: decimal rendering of integers and concatenation.

use vstd::prelude::*;
use vstd::string::StringExecFns;
use vstd::string::StrSliceExecFns;

verus! {

pub open spec fn digit_char(d: int) -> char {
    if d == 0 {
        '0'
    } else if d == 1 {
        '1'
    } else if d == 2 {
        '2'
    } else if d == 3 {
        '3'
    } else if d == 4 {
        '4'
    } else if d == 5 {
        '5'
    } else if d == 6 {
        '6'
    } else if d == 7 {
        '7'
    } else if d == 8 {
        '8'
    } else {
        '9'
    }
}

/// Decimal digits of a natural number, most significant first, no leading zeros.
pub open spec fn digits(n: nat) -> Seq<char>
    decreases n,
{
    if n < 10 {
        seq![digit_char(n as int)]
    } else {
        digits(n / 10).push(digit_char((n % 10) as int))
    }
}

/// Decimal rendering of an integer, with a leading `-` when negative.
pub open spec fn decimal(n: int) -> Seq<char> {
    if n < 0 {
        seq!['-'] + digits((-n) as nat)
    } else {
        digits(n as nat)
    }
}

fn digit_str(d: u64) -> (s: &'static str)
    requires
        d < 10,
    ensures
        s@ == seq![digit_char(d as int)],
{
    proof {
        reveal_strlit("0");
        reveal_strlit("1");
        reveal_strlit("2");
        reveal_strlit("3");
        reveal_strlit("4");
        reveal_strlit("5");
        reveal_strlit("6");
        reveal_strlit("7");
        reveal_strlit("8");
        reveal_strlit("9");
    }
    match d {
        0 => "0",
        1 => "1",
        2 => "2",
        3 => "3",
        4 => "4",
        5 => "5",
        6 => "6",
        7 => "7",
        8 => "8",
        _ => "9",
    }
}

/// Appends the decimal digits of `n`.
fn push_digits(s: &mut String, n: u64)
    ensures
        final(s)@ == old(s)@ + digits(n as nat),
    decreases n,
{
    if n >= 10 {
        push_digits(s, n / 10);
        let d = digit_str(n % 10);
        s.append(d);
        proof {
            assert(old(s)@ + digits((n / 10) as nat) + seq![digit_char((n % 10) as int)] =~= old(s)@ + digits(
                n as nat,
            ));
        }
    } else {
        let d = digit_str(n);
        s.append(d);
    }
}

/// Appends the decimal rendering of `n`.
pub fn push_int(s: &mut String, n: i64)
    ensures
        final(s)@ == old(s)@ + decimal(n as int),
{
    if n < 0 {
        proof {
            reveal_strlit("-");
        }
        s.append("-");
        let m: u64 = if n == i64::MIN {
            9223372036854775808u64
        } else {
            (-n) as u64
        };
        push_digits(s, m);
        proof {
            assert(old(s)@ + seq!['-'] + digits(m as nat) =~= old(s)@ + (seq!['-'] + digits(m as nat)));
        }
    } else {
        push_digits(s, n as u64);
    }
}

/// The decimal rendering of `n` as a new string.
pub fn int_text(n: i64) -> (s: String)
    ensures
        s@ == decimal(n as int),
{
    let mut s = String::new();
    push_int(&mut s, n);
    proof {
        assert(Seq::<char>::empty() + decimal(n as int) =~= decimal(n as int));
    }
    s
}

/// `a` followed by `b`.
pub fn cat(a: &str, b: &str) -> (s: String)
    ensures
        s@ == a@ + b@,
{
    let mut s = String::from_str(a);
    s.append(b);
    s
}

/// `a`, then the decimal rendering of `n`, then `b`.
pub fn with_int(a: &str, n: i64, b: &str) -> (s: String)
    ensures
        s@ == a@ + decimal(n as int) + b@,
{
    let mut s = String::from_str(a);
    push_int(&mut s, n);
    s.append(b);
    s
}

/// Whether two strings hold the same characters.
pub fn str_eq(a: &str, b: &str) -> (r: bool)
    ensures
        r == (a@ == b@),
{
    let n = a.unicode_len();
    let m = b.unicode_len();
    if n != m {
        return false;
    }
    let mut i: usize = 0;
    while i < n
        invariant
            n == a@.len(),
            m == b@.len(),
            n == m,
            i <= n,
            forall|j: int| 0 <= j < i ==> a@[j] == b@[j],
        decreases n - i,
    {
        if a.get_char(i) != b.get_char(i) {
            return false;
        }
        i += 1;
    }
    assert(a@ =~= b@);
    true
}

pub open spec fn is_digit(c: char) -> bool {
    '0' <= c <= '9'
}

pub open spec fn digit_val(c: char) -> int {
    c as int - '0' as int
}

/// Value of a string of decimal digits.
pub open spec fn nat_of(s: Seq<char>) -> int
    decreases s.len(),
{
    if s.len() == 0 {
        0
    } else {
        nat_of(s.drop_last()) * 10 + digit_val(s.last())
    }
}

pub open spec fn all_digits(s: Seq<char>) -> bool {
    forall|i: int| 0 <= i < s.len() ==> is_digit(#[trigger] s[i])
}

/// What `i32` parsing accepts: an optional sign, then one or more decimal
/// digits, with a value inside the range of `i32`.
pub open spec fn parse_i32_spec(s: Seq<char>) -> Option<i32> {
    let neg = s.len() > 0 && s[0] == '-';
    let body = if s.len() > 0 && (s[0] == '-' || s[0] == '+') { s.drop_first() } else { s };
    if body.len() == 0 || !all_digits(body) {
        None
    } else {
        let v = if neg { -nat_of(body) } else { nat_of(body) };
        if i32::MIN <= v <= i32::MAX { Some(v as i32) } else { None }
    }
}

/// Unicode white space, as trimming removes it.
pub open spec fn is_ws(c: char) -> bool {
    ||| '\u{9}' <= c <= '\u{d}'
    ||| c == ' '
    ||| c == '\u{85}'
    ||| c == '\u{a0}'
    ||| c == '\u{1680}'
    ||| '\u{2000}' <= c <= '\u{200a}'
    ||| c == '\u{2028}'
    ||| c == '\u{2029}'
    ||| c == '\u{202f}'
    ||| c == '\u{205f}'
    ||| c == '\u{3000}'
}

pub open spec fn trim_start_spec(s: Seq<char>) -> Seq<char>
    decreases s.len(),
{
    if s.len() > 0 && is_ws(s[0]) {
        trim_start_spec(s.drop_first())
    } else {
        s
    }
}

pub open spec fn trim_end_spec(s: Seq<char>) -> Seq<char>
    decreases s.len(),
{
    if s.len() > 0 && is_ws(s.last()) {
        trim_end_spec(s.drop_last())
    } else {
        s
    }
}

/// The string without leading and trailing white space.
pub open spec fn trim_spec(s: Seq<char>) -> Seq<char> {
    trim_end_spec(trim_start_spec(s))
}

fn is_ws_exec(c: char) -> (b: bool)
    ensures
        b == is_ws(c),
{
    ('\u{9}' <= c && c <= '\u{d}') || c == ' ' || c == '\u{85}' || c == '\u{a0}' || c == '\u{1680}' || ('\u{2000}' <= c
        && c <= '\u{200a}') || c == '\u{2028}' || c == '\u{2029}' || c == '\u{202f}' || c == '\u{205f}' || c == '\u{3000}'
}

proof fn lemma_trim_start_skip(s: Seq<char>, k: int)
    requires
        0 <= k <= s.len(),
        forall|j: int| 0 <= j < k ==> is_ws(#[trigger] s[j]),
    ensures
        trim_start_spec(s) == trim_start_spec(s.subrange(k, s.len() as int)),
    decreases k,
{
    if k > 0 {
        assert(s.drop_first().subrange(k - 1, s.drop_first().len() as int) =~= s.subrange(k, s.len() as int));
        lemma_trim_start_skip(s.drop_first(), k - 1);
    } else {
        assert(s.subrange(0, s.len() as int) =~= s);
    }
}

proof fn lemma_trim_end_skip(s: Seq<char>, k: int)
    requires
        0 <= k <= s.len(),
        forall|j: int| k <= j < s.len() ==> is_ws(#[trigger] s[j]),
    ensures
        trim_end_spec(s) == trim_end_spec(s.subrange(0, k)),
    decreases s.len() - k,
{
    if k < s.len() {
        assert(s.drop_last().subrange(0, k) =~= s.subrange(0, k));
        lemma_trim_end_skip(s.drop_last(), k);
    } else {
        assert(s.subrange(0, k) =~= s);
    }
}

/// The string without leading and trailing white space.
pub fn trim(s: &str) -> (t: &str)
    ensures
        t@ == trim_spec(s@),
{
    let n = s.unicode_len();
    let mut a: usize = 0;
    while a < n && is_ws_exec(s.get_char(a))
        invariant
            n == s@.len(),
            a <= n,
            forall|j: int| 0 <= j < a ==> is_ws(#[trigger] s@[j]),
        decreases n - a,
    {
        a += 1;
    }
    proof {
        lemma_trim_start_skip(s@, a as int);
    }
    let ghost mid = s@.subrange(a as int, n as int);
    let mut b: usize = n;
    while b > a && is_ws_exec(s.get_char(b - 1))
        invariant
            n == s@.len(),
            a <= b <= n,
            forall|j: int| b <= j < n ==> is_ws(#[trigger] s@[j]),
        decreases b,
    {
        b -= 1;
    }
    proof {
        let m = s@.subrange(a as int, n as int);
        assert forall|j: int| (b - a) <= j < m.len() implies is_ws(#[trigger] m[j]) by {
            assert(m[j] == s@[a + j]);
        }
        lemma_trim_end_skip(m, (b - a) as int);
        assert(m.subrange(0, (b - a) as int) =~= s@.subrange(a as int, b as int));
        if a < n {
            assert(!is_ws(s@[a as int]));
            assert(trim_start_spec(m) == m);
        } else {
            assert(m.len() == 0);
        }
    }
    s.substring_char(a, b)
}

proof fn lemma_nat_of_nonneg(s: Seq<char>)
    requires
        all_digits(s),
    ensures
        nat_of(s) >= 0,
    decreases s.len(),
{
    if s.len() > 0 {
        lemma_nat_of_nonneg(s.drop_last());
    }
}

/// A prefix of a digit string is worth no more than the whole.
proof fn lemma_nat_of_prefix(s: Seq<char>, k: int)
    requires
        all_digits(s),
        0 <= k <= s.len(),
    ensures
        nat_of(s.subrange(0, k)) <= nat_of(s),
    decreases s.len() - k,
{
    if k < s.len() {
        assert(s.drop_last().subrange(0, k) =~= s.subrange(0, k));
        lemma_nat_of_prefix(s.drop_last(), k);
        lemma_nat_of_nonneg(s.drop_last());
    } else {
        assert(s.subrange(0, k) =~= s);
    }
}

/// Parses an `i32` as `str::parse` does: optional sign, then decimal digits,
/// in range.
pub fn parse_i32(s: &str) -> (r: Option<i32>)
    ensures
        r == parse_i32_spec(s@),
{
    let n = s.unicode_len();
    let mut i: usize = 0;
    let mut neg = false;
    if n > 0 {
        let c = s.get_char(0);
        if c == '-' {
            neg = true;
            i = 1;
        } else if c == '+' {
            i = 1;
        }
    }
    let ghost body = if s@.len() > 0 && (s@[0] == '-' || s@[0] == '+') { s@.drop_first() } else { s@ };
    assert(body =~= s@.subrange(i as int, n as int));
    if i >= n {
        return None;
    }
    let start = i;
    let mut mag: u64 = 0;
    while i < n
        invariant
            n == s@.len(),
            start <= i <= n,
            body =~= s@.subrange(start as int, n as int),
            body == (if s@.len() > 0 && (s@[0] == '-' || s@[0] == '+') { s@.drop_first() } else { s@ }),
            neg == (s@.len() > 0 && s@[0] == '-'),
            all_digits(s@.subrange(start as int, i as int)),
            mag == nat_of(s@.subrange(start as int, i as int)),
            mag <= 2147483648,
        decreases n - i,
    {
        let c = s.get_char(i);
        if !('0' <= c && c <= '9') {
            proof {
                assert(body[i - start] == s@[i as int]);
                assert(!is_digit(body[i - start]));
            }
            return None;
        }
        let d = (c as u32 - '0' as u32) as u64;
        proof {
            let p = s@.subrange(start as int, i + 1);
            assert(p.drop_last() =~= s@.subrange(start as int, i as int));
            assert(p.last() == c);
        }
        mag = mag * 10 + d;
        i += 1;
        if mag > 2147483648 {
            proof {
                assert(all_digits(s@.subrange(start as int, i as int)));
                if all_digits(body) {
                    lemma_nat_of_prefix(body, i - start);
                    assert(body.subrange(0, i - start) =~= s@.subrange(start as int, i as int));
                }
            }
            return None;
        }
    }
    assert(s@.subrange(start as int, n as int) =~= body);
    if neg {
        if mag == 2147483648 {
            Some(i32::MIN)
        } else {
            Some(-(mag as i32))
        }
    } else if mag > 2147483647 {
        None
    } else {
        Some(mag as i32)
    }
}

proof fn lemma_digit_char(d: int)
    requires
        0 <= d < 10,
    ensures
        is_digit(digit_char(d)),
        digit_val(digit_char(d)) == d,
        !is_ws(digit_char(d)),
{
}

/// The decimal digits of `n` read back as `n`.
pub proof fn lemma_digits_value(n: nat)
    ensures
        all_digits(digits(n)),
        nat_of(digits(n)) == n,
        digits(n).len() > 0,
        is_digit(digits(n)[0]),
        !is_ws(digits(n)[0]) && !is_ws(digits(n).last()),
    decreases n,
{
    if n < 10 {
        lemma_digit_char(n as int);
        assert(digits(n).drop_last() =~= Seq::<char>::empty());
        assert(nat_of(digits(n)) == nat_of(Seq::<char>::empty()) * 10 + digit_val(digit_char(n as int)));
    } else {
        lemma_digits_value(n / 10);
        let d = (n % 10) as int;
        lemma_digit_char(d);
        assert(digits(n).drop_last() =~= digits(n / 10));
        assert(forall|i: int| 0 <= i < digits(n / 10).len() ==> digits(n)[i] == digits(n / 10)[i]);
        assert(digits(n).last() == digit_char(d));
        assert(nat_of(digits(n)) == nat_of(digits(n / 10)) * 10 + d);
        assert((n / 10) * 10 + n % 10 == n);
    }
}

/// Every `i32` written in decimal parses back to itself.
pub proof fn lemma_parse_decimal(n: i32)
    ensures
        parse_i32_spec(decimal(n as int)) == Some(n),
        trim_spec(decimal(n as int)) == decimal(n as int),
{
    let m: nat = if n < 0 { (-n) as nat } else { n as nat };
    lemma_digits_value(m);
    let s = decimal(n as int);
    if n < 0 {
        assert(s[0] == '-');
        assert(s.drop_first() =~= digits(m));
    } else {
        assert(s =~= digits(m));
    }
    assert(!is_ws(s[0]));
    assert(!is_ws(s.last()));
    assert(trim_start_spec(s) == s);
    assert(trim_end_spec(s) == s);
}

} // verus!
