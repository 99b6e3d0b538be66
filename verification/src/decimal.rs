//! Fixed-point decimal text: formatting and parsing of numbers written with a
//! whole part, a point and a fixed count of fraction digits.
//!
//! The library stores every quantity as an integer count of small units
//! (millionths of a degree, millimeters).  Where an outside computation is
//! consulted, the value crosses the boundary as decimal text, so the exact
//! shape of that text is specified and proved here.

use vstd::math::abs;
use vstd::prelude::*;

verus! {

/// The character that writes a single decimal digit.
pub open spec fn digit_char(d: int) -> char {
    if d == 0 {
        '0'
    } else if d == 1 {
        '1'
    } else if d == 2 {
        '2'
    } else if d == 3 {
        '3'
    } else if d == 4 {
        '4'
    } else if d == 5 {
        '5'
    } else if d == 6 {
        '6'
    } else if d == 7 {
        '7'
    } else if d == 8 {
        '8'
    } else {
        '9'
    }
}

/// The digit a character stands for, or -1 where it is no digit.
pub open spec fn char_digit(c: char) -> int {
    if c == '0' {
        0
    } else if c == '1' {
        1
    } else if c == '2' {
        2
    } else if c == '3' {
        3
    } else if c == '4' {
        4
    } else if c == '5' {
        5
    } else if c == '6' {
        6
    } else if c == '7' {
        7
    } else if c == '8' {
        8
    } else if c == '9' {
        9
    } else {
        -1
    }
}

/// The usual decimal writing of `n`, without leading zeros (except "0").
pub open spec fn dec_digits(n: nat) -> Seq<char>
    decreases n,
{
    if n < 10 {
        seq![digit_char(n as int)]
    } else {
        dec_digits(n / 10).push(digit_char((n % 10) as int))
    }
}

/// The lowest `width` decimal digits of `n`, zero-padded on the left.
pub open spec fn dec_digits_padded(n: nat, width: nat) -> Seq<char>
    decreases width,
{
    if width == 0 {
        Seq::empty()
    } else {
        dec_digits_padded(n / 10, (width - 1) as nat).push(digit_char((n % 10) as int))
    }
}

/// The number a digit sequence stands for (junk digits count as -1 and are
/// excluded by `all_digits` wherever this is applied).
pub open spec fn digits_value(s: Seq<char>) -> int
    decreases s.len(),
{
    if s.len() == 0 {
        0
    } else {
        digits_value(s.drop_last()) * 10 + char_digit(s.last())
    }
}

pub open spec fn all_digits(s: Seq<char>) -> bool {
    forall|i: int| 0 <= i < s.len() ==> #[trigger] char_digit(s[i]) >= 0
}

pub open spec fn pow10(k: nat) -> nat
    decreases k,
{
    if k == 0 {
        1
    } else {
        10 * pow10((k - 1) as nat)
    }
}

/// The text of `v` counts of `10^-k` units: an optional minus sign, the whole
/// part, a point, and exactly `k` fraction digits.
pub open spec fn spec_format_scaled(v: int, k: nat) -> Seq<char> {
    let a = abs(v);
    let sign: Seq<char> = if v < 0 {
        seq!['-']
    } else {
        Seq::empty()
    };
    sign + dec_digits(((a as int) / (pow10(k) as int)) as nat) + seq!['.'] + dec_digits_padded(
        ((a as int) % (pow10(k) as int)) as nat,
        k,
    )
}

/// What a fixed-point text of `k` fraction digits stands for, in `10^-k`
/// units; `None` where the text has another shape, or a whole part so long
/// that the value could not count anything this library measures.
pub open spec fn spec_parse_scaled(s: Seq<char>, k: nat) -> Option<int> {
    let neg = s.len() > 0 && s[0] == '-';
    let b = if neg {
        s.subrange(1, s.len() as int)
    } else {
        s
    };
    if b.len() >= k + 2 && b.len() <= 19 && b[b.len() - k - 1] == '.' {
        let ip = b.subrange(0, b.len() - k - 1);
        let fp = b.subrange(b.len() - k as int, b.len() as int);
        if all_digits(ip) && all_digits(fp) {
            let v = digits_value(ip) * pow10(k) as int + digits_value(fp);
            Some(
                if neg {
                    -v
                } else {
                    v
                },
            )
        } else {
            None
        }
    } else {
        None
    }
}

fn digit_str(d: u64) -> (r: &'static str)
    requires
        d < 10,
    ensures
        r@ == seq![digit_char(d as int)],
{
    proof {
        reveal_strlit("0");
        reveal_strlit("1");
        reveal_strlit("2");
        reveal_strlit("3");
        reveal_strlit("4");
        reveal_strlit("5");
        reveal_strlit("6");
        reveal_strlit("7");
        reveal_strlit("8");
        reveal_strlit("9");
    }
    match d {
        0 => "0",
        1 => "1",
        2 => "2",
        3 => "3",
        4 => "4",
        5 => "5",
        6 => "6",
        7 => "7",
        8 => "8",
        _ => "9",
    }
}

/// Writes `n` in decimal.
pub fn format_u64(n: u64) -> (s: String)
    ensures
        s@ == dec_digits(n as nat),
    decreases n,
{
    if n < 10 {
        String::from_str(digit_str(n))
    } else {
        let mut s = format_u64(n / 10);
        s.append(digit_str(n % 10));
        proof {
            assert(s@ =~= dec_digits(n as nat));
        }
        s
    }
}

/// Writes the lowest `width` digits of `n`, zero-padded.
pub fn format_u64_padded(n: u64, width: usize) -> (s: String)
    ensures
        s@ == dec_digits_padded(n as nat, width as nat),
    decreases width,
{
    if width == 0 {
        String::new()
    } else {
        let mut s = format_u64_padded(n / 10, width - 1);
        s.append(digit_str(n % 10));
        proof {
            assert(s@ =~= dec_digits_padded(n as nat, width as nat));
        }
        s
    }
}

/// Raises ten to a small power.
pub fn pow10_u64(k: usize) -> (r: u64)
    requires
        k <= 9,
    ensures
        r == pow10(k as nat),
{
    let mut r: u64 = 1;
    let mut i: usize = 0;
    proof {
        lemma_pow10_bound(k as nat);
    }
    while i < k
        invariant
            i <= k <= 9,
            r == pow10(i as nat),
            pow10(k as nat) <= 1000000000,
        decreases k - i,
    {
        proof {
            lemma_pow10_mono(i as nat + 1, k as nat);
        }
        r = r * 10;
        i = i + 1;
    }
    r
}

proof fn lemma_pow10_pos(i: nat)
    ensures
        0 < pow10(i),
    decreases i,
{
    if i > 0 {
        lemma_pow10_pos((i - 1) as nat);
    }
}

proof fn lemma_pow10_mono(i: nat, j: nat)
    requires
        i <= j,
    ensures
        0 < pow10(i) <= pow10(j),
    decreases j,
{
    lemma_pow10_pos(i);
    if i < j {
        lemma_pow10_mono(i, (j - 1) as nat);
    }
}

proof fn lemma_pow10_bound(k: nat)
    requires
        k <= 9,
    ensures
        pow10(k) <= 1000000000,
{
    lemma_pow10_mono(k, 9);
    assert(pow10(9) == 1000000000) by {
        reveal_with_fuel(pow10, 10);
    }
}

/// Writes `v` counts of `10^-k` units as fixed-point decimal text.
pub fn format_scaled(v: i64, k: usize) -> (s: String)
    requires
        v != i64::MIN,
        1 <= k <= 9,
    ensures
        s@ == spec_format_scaled(v as int, k as nat),
{
    proof {
        reveal_strlit("-");
        reveal_strlit(".");
    }
    let a: u64 = if v < 0 {
        (-v) as u64
    } else {
        v as u64
    };
    let p = pow10_u64(k);
    proof {
        lemma_pow10_mono(0, k as nat);
        assert(a == abs(v as int));
    }
    let mut s = if v < 0 {
        String::from_str("-")
    } else {
        String::new()
    };
    let whole = format_u64(a / p);
    s.append(whole.as_str());
    s.append(".");
    let frac = format_u64_padded(a % p, k);
    s.append(frac.as_str());
    proof {
        assert(s@ =~= spec_format_scaled(v as int, k as nat));
    }
    s
}

/// Reads fixed-point decimal text with exactly `k` fraction digits back into
/// an integer count of `10^-k` units.  Returns `Some` exactly where the text
/// has the shape that `spec_parse_scaled` admits.
#[verifier::loop_isolation(false)]
#[verifier::rlimit(50)]
pub fn parse_scaled(s: &str, k: usize) -> (r: Option<i64>)
    requires
        1 <= k <= 9,
    ensures
        match spec_parse_scaled(s@, k as nat) {
            Some(v) => r == Some(v as i64) && -1000000000000000000 <= v <= 1000000000000000000,
            None => r is None,
        },
{
    let n = s.unicode_len();
    let neg = n > 0 && s.get_char(0) == '-';
    let start: usize = if neg {
        1
    } else {
        0
    };
    let ghost b = if neg {
        s@.subrange(1, s@.len() as int)
    } else {
        s@
    };
    proof {
        assert(b.len() == n - start);
    }
    if n - start < k + 2 || n - start > 19 {
        return None;
    }
    let dot = n - k - 1;
    proof {
        assert(b[b.len() - k - 1] == s@[dot as int]);
        assert(b.subrange(0, b.len() - k - 1) =~= s@.subrange(start as int, dot as int));
        assert(b.subrange(b.len() - k as int, b.len() as int) =~= s@.subrange(
            dot as int + 1,
            n as int,
        ));
    }
    if s.get_char(dot) != '.' {
        return None;
    }
    let ghost ip = s@.subrange(start as int, dot as int);
    let ghost fp = s@.subrange(dot as int + 1, n as int);
    let mut acc: u64 = 0;
    let mut i: usize = start;
    while i < dot
        invariant
            start <= i <= dot < n == s@.len(),
            dot - start <= 18,
            ip == s@.subrange(start as int, dot as int),
            all_digits(s@.subrange(start as int, i as int)),
            acc == digits_value(s@.subrange(start as int, i as int)),
            acc < pow10((i - start) as nat),
        decreases dot - i,
    {
        let c = s.get_char(i);
        let d = digit_of_char(c);
        if d >= 10 {
            proof {
                assert(char_digit(ip[i - start]) < 0);
            }
            return None;
        }
        proof {
            lemma_pow10_18_bound((i + 1 - start) as nat);
        }
        acc = acc * 10 + d;
        i = i + 1;
        proof {
            assert(s@.subrange(start as int, i as int).drop_last() =~= s@.subrange(
                start as int,
                i - 1,
            ));
        }
    }
    proof {
        assert(s@.subrange(start as int, dot as int) =~= ip);
    }
    let ip_value = acc;
    let mut acc: u64 = 0;
    let mut i: usize = dot + 1;
    while i < n
        invariant
            dot + 1 <= i <= n == s@.len(),
            fp == s@.subrange(dot as int + 1, n as int),
            n - dot - 1 == k <= 9,
            all_digits(s@.subrange(dot as int + 1, i as int)),
            acc == digits_value(s@.subrange(dot as int + 1, i as int)),
            acc < pow10((i - dot - 1) as nat),
        decreases n - i,
    {
        let c = s.get_char(i);
        let d = digit_of_char(c);
        if d >= 10 {
            proof {
                assert(char_digit(fp[i - dot - 1]) < 0);
            }
            return None;
        }
        proof {
            lemma_pow10_18_bound((i - dot) as nat);
        }
        acc = acc * 10 + d;
        i = i + 1;
        proof {
            assert(s@.subrange(dot as int + 1, i as int).drop_last() =~= s@.subrange(
                dot as int + 1,
                i - 1,
            ));
        }
    }
    proof {
        assert(s@.subrange(dot as int + 1, n as int) =~= fp);
        lemma_pow10_18_bound(k as nat);
        lemma_pow10_mono((dot - start) as nat + k as nat, 18);
        lemma_pow10_mul((dot - start) as nat, k as nat);
    }
    let fp_value = acc;
    let p = pow10_u64(k);
    proof {
        lemma_pow10_mono(0, k as nat);
        assert(ip_value * p + fp_value < pow10((dot - start) as nat + k as nat)) by (nonlinear_arith)
            requires
                ip_value < pow10((dot - start) as nat),
                fp_value < pow10(k as nat),
                p == pow10(k as nat),
                pow10((dot - start) as nat) * pow10(k as nat) == pow10((dot - start) as nat + k as nat),
                p >= 1,
        ;
        lemma_pow10_18_bound((dot - start) as nat + k as nat);
    }
    let magnitude = ip_value * p + fp_value;
    if neg {
        Some(-(magnitude as i64))
    } else {
        Some(magnitude as i64)
    }
}

proof fn lemma_pow10_mul(i: nat, j: nat)
    ensures
        pow10(i) * pow10(j) == pow10(i + j),
    decreases i,
{
    if i == 0 {
        assert(pow10(0) == 1);
    } else {
        let i1 = (i - 1) as nat;
        lemma_pow10_mul(i1, j);
        assert(pow10(i) == 10 * pow10(i1));
        assert(i1 + j == (i + j - 1) as nat);
        assert(pow10(i + j) == 10 * pow10(i1 + j));
        assert((10 * pow10(i1)) * pow10(j) == 10 * (pow10(i1) * pow10(j))) by (nonlinear_arith);
    }
}

proof fn lemma_pow10_18_bound(k: nat)
    requires
        k <= 18,
    ensures
        pow10(k) <= 1000000000000000000,
{
    lemma_pow10_mono(k, 18);
    assert(pow10(18) == 1000000000000000000) by {
        reveal_with_fuel(pow10, 19);
    }
}

fn digit_of_char(c: char) -> (d: u64)
    ensures
        char_digit(c) >= 0 ==> d == char_digit(c),
        char_digit(c) < 0 ==> d >= 10,
{
    match c {
        '0' => 0,
        '1' => 1,
        '2' => 2,
        '3' => 3,
        '4' => 4,
        '5' => 5,
        '6' => 6,
        '7' => 7,
        '8' => 8,
        '9' => 9,
        _ => 10,
    }
}

} // verus!
