//! Exact decimal numbers, as the readings carry them, and the parsers that
//! read them from text.
use vstd::prelude::*;
use crate::text::first_where;

verus! {

/// The number `mantissa / 10^scale`.
#[derive(Debug, Clone, Copy, PartialEq, Eq, Structural)]
pub struct Decimal {
    pub mantissa: i64,
    pub scale: u32,
}

/// Largest magnitude a parsed mantissa may have.
pub const MANTISSA_LIMIT: u64 = 9223372036854775807;

pub open spec fn is_digit(c: char) -> bool {
    '0' <= c && c <= '9'
}

pub open spec fn all_digits(s: Seq<char>) -> bool {
    forall|i: int| 0 <= i < s.len() ==> is_digit(#[trigger] s[i])
}

/// The number that a string of decimal digits denotes.
pub open spec fn digits_value(s: Seq<char>) -> nat
    decreases s.len(),
{
    if s.len() == 0 {
        0
    } else {
        digits_value(s.drop_last()) * 10 + (s.last() as nat - '0' as nat) as nat
    }
}

pub open spec fn pow10(k: nat) -> nat
    decreases k,
{
    if k == 0 {
        1
    } else {
        10 * pow10((k - 1) as nat)
    }
}

/// Length of a leading `+` or `-`.
pub open spec fn sign_len(s: Seq<char>) -> int {
    if s.len() > 0 && (s[0] == '-' || s[0] == '+') {
        1
    } else {
        0
    }
}

pub open spec fn is_negative(s: Seq<char>) -> bool {
    s.len() > 0 && s[0] == '-'
}

/// `s` without a leading sign.
pub open spec fn unsigned_body(s: Seq<char>) -> Seq<char> {
    s.subrange(sign_len(s), s.len() as int)
}

/// Index of the first `.` in `b`, or its length.
pub open spec fn dot_pos(b: Seq<char>) -> int {
    first_where(b, |c: char| c == '.', 0, b.len() as int)
}

/// The digits before the point.
pub open spec fn int_digits(s: Seq<char>) -> Seq<char> {
    unsigned_body(s).subrange(0, dot_pos(unsigned_body(s)))
}

/// The digits after the point, if there is one.
pub open spec fn frac_digits(s: Seq<char>) -> Seq<char> {
    let b = unsigned_body(s);
    if dot_pos(b) < b.len() {
        b.subrange(dot_pos(b) + 1, b.len() as int)
    } else {
        Seq::empty()
    }
}

pub open spec fn signed(s: Seq<char>, m: nat) -> int {
    if is_negative(s) {
        -m
    } else {
        m as int
    }
}

/// The decimal that `s` writes, as `(mantissa, scale)`: an optional sign, then
/// digits with at most one `.` among them, and at least one digit.
pub open spec fn decimal_value(s: Seq<char>) -> Option<(int, nat)> {
    let ip = int_digits(s);
    let fp = frac_digits(s);
    if all_digits(ip) && all_digits(fp) && ip.len() + fp.len() > 0 {
        Some((signed(s, digits_value(ip + fp)), fp.len()))
    } else {
        None
    }
}

/// The integer that `s` writes: an optional sign, then one or more digits.
pub open spec fn integer_value(s: Seq<char>) -> Option<int> {
    let body = s.subrange(sign_len(s), s.len() as int);
    if all_digits(body) && body.len() > 0 {
        Some(if is_negative(s) { -digits_value(body) } else { digits_value(body) as int })
    } else {
        None
    }
}

/// What `parse_decimal` returns for `s`: the decimal it writes, where its
/// mantissa's magnitude is at most `MANTISSA_LIMIT`.
pub open spec fn parsed_decimal(s: Seq<char>) -> Option<Decimal> {
    match decimal_value(s) {
        Some((m, sc)) => if -(MANTISSA_LIMIT as int) <= m <= MANTISSA_LIMIT && sc <= u32::MAX {
            Some(Decimal { mantissa: m as i64, scale: sc as u32 })
        } else {
            None
        },
        None => None,
    }
}

/// What `parse_i32` returns for `s`: the integer it writes, where it fits.
pub open spec fn parsed_i32(s: Seq<char>) -> Option<i32> {
    match integer_value(s) {
        Some(v) => if i32::MIN <= v <= i32::MAX {
            Some(v as i32)
        } else {
            None
        },
        None => None,
    }
}

/// Whether `d` lies in `[lo, hi]`.
pub open spec fn decimal_within(d: Decimal, lo: int, hi: int) -> bool {
    lo * pow10(d.scale as nat) <= d.mantissa && d.mantissa <= hi * pow10(d.scale as nat)
}

/// Reads the digits of `t[lo..hi]` onto an accumulated value: `r.0` tells
/// whether they are all digits; then `r.2` whether the value passed
/// `MANTISSA_LIMIT`, and otherwise `r.1` is the value of `pre` followed by them.
fn digits_into(t: &Vec<char>, lo: usize, hi: usize, acc: u64, over: bool, Ghost(pre): Ghost<Seq<char>>) -> (r: (bool, u64, bool))
    requires
        lo <= hi <= t@.len(),
        acc <= MANTISSA_LIMIT,
        !over ==> acc == digits_value(pre),
        over ==> digits_value(pre) > MANTISSA_LIMIT,
    ensures
        r.0 == all_digits(t@.subrange(lo as int, hi as int)),
        r.1 <= MANTISSA_LIMIT,
        r.0 && !r.2 ==> r.1 == digits_value(pre + t@.subrange(lo as int, hi as int)),
        r.0 && r.2 ==> digits_value(pre + t@.subrange(lo as int, hi as int)) > MANTISSA_LIMIT,
{
    let mut acc = acc;
    let mut over = over;
    let mut i: usize = lo;
    while i < hi
        invariant
            lo <= i <= hi <= t@.len(),
            acc <= MANTISSA_LIMIT,
            all_digits(t@.subrange(lo as int, i as int)),
            !over ==> acc == digits_value(pre + t@.subrange(lo as int, i as int)),
            over ==> digits_value(pre + t@.subrange(lo as int, i as int)) > MANTISSA_LIMIT,
        decreases hi - i,
    {
        let c = t[i];
        if !('0' <= c && c <= '9') {
            assert(!is_digit(t@.subrange(lo as int, hi as int)[i - lo]));
            return (false, acc, over);
        }
        let ghost prev = pre + t@.subrange(lo as int, i as int);
        assert((pre + t@.subrange(lo as int, i + 1)).drop_last() =~= prev);
        assert((pre + t@.subrange(lo as int, i + 1)).last() == c);
        let d = (c as u32 - '0' as u32) as u64;
        if !over {
            if acc > (MANTISSA_LIMIT - d) / 10 {
                over = true;
            } else {
                acc = acc * 10 + d;
            }
        }
        assert(all_digits(t@.subrange(lo as int, i + 1)));
        i = i + 1;
    }
    (true, acc, over)
}

fn dot_index(t: &Vec<char>, lo: usize, hi: usize) -> (r: usize)
    requires
        lo <= hi <= t@.len(),
    ensures
        lo <= r <= hi,
        r - lo == first_where(t@.subrange(lo as int, hi as int), |c: char| c == '.', 0, hi - lo),
{
    let ghost s = t@.subrange(lo as int, hi as int);
    let mut i: usize = lo;
    while i < hi
        invariant
            lo <= i <= hi <= t@.len(),
            s == t@.subrange(lo as int, hi as int),
            first_where(s, |c: char| c == '.', i - lo, hi - lo) == first_where(
                s,
                |c: char| c == '.',
                0,
                hi - lo,
            ),
        decreases hi - i,
    {
        assert(s[i - lo] == t@[i as int]);
        if t[i] == '.' {
            return i;
        }
        i = i + 1;
    }
    hi
}

/// Reads the decimal that `t[lo..hi]` writes.
pub fn parse_decimal(t: &Vec<char>, lo: usize, hi: usize) -> (r: Option<Decimal>)
    requires
        lo <= hi <= t@.len(),
    ensures
        r == parsed_decimal(t@.subrange(lo as int, hi as int)),
{
    let ghost s = t@.subrange(lo as int, hi as int);
    let neg = lo < hi && t[lo] == '-';
    let k: usize = if lo < hi && (t[lo] == '-' || t[lo] == '+') {
        1
    } else {
        0
    };
    assert(k == sign_len(s));
    assert(neg == is_negative(s));
    let b0 = lo + k;
    assert(unsigned_body(s) =~= t@.subrange(b0 as int, hi as int));
    let d = dot_index(t, b0, hi);
    assert(dot_pos(unsigned_body(s)) == d - b0);
    let f0 = if d < hi {
        d + 1
    } else {
        hi
    };
    assert(int_digits(s) =~= t@.subrange(b0 as int, d as int));
    assert(frac_digits(s) =~= t@.subrange(f0 as int, hi as int));
    let (ok1, a1, o1) = digits_into(t, b0, d, 0, false, Ghost(Seq::empty()));
    assert(Seq::<char>::empty() + t@.subrange(b0 as int, d as int) =~= int_digits(s));
    if !ok1 {
        return None;
    }
    let (ok2, a2, o2) = digits_into(t, f0, hi, a1, o1, Ghost(int_digits(s)));
    if !ok2 || d - b0 + (hi - f0) == 0 {
        return None;
    }
    if o2 || hi - f0 > u32::MAX as usize {
        return None;
    }
    let m: i64 = if neg {
        -(a2 as i64)
    } else {
        a2 as i64
    };
    Some(Decimal { mantissa: m, scale: (hi - f0) as u32 })
}

/// Reads the integer that `t[lo..hi]` writes, where it fits in an `i32`.
pub fn parse_i32(t: &Vec<char>, lo: usize, hi: usize) -> (r: Option<i32>)
    requires
        lo <= hi <= t@.len(),
    ensures
        r == parsed_i32(t@.subrange(lo as int, hi as int)),
{
    let ghost s = t@.subrange(lo as int, hi as int);
    let neg = lo < hi && t[lo] == '-';
    let k: usize = if lo < hi && (t[lo] == '-' || t[lo] == '+') {
        1
    } else {
        0
    };
    assert(k == sign_len(s));
    let b0 = lo + k;
    let ghost body = s.subrange(k as int, s.len() as int);
    assert(body =~= t@.subrange(b0 as int, hi as int));
    let (ok, a, over) = digits_into(t, b0, hi, 0, false, Ghost(Seq::empty()));
    assert(Seq::<char>::empty() + t@.subrange(b0 as int, hi as int) =~= body);
    if !ok || b0 == hi || over {
        return None;
    }
    if neg {
        if a > 2147483648 {
            None
        } else {
            Some((-(a as i64)) as i32)
        }
    } else {
        if a > 2147483647 {
            None
        } else {
            Some(a as i32)
        }
    }
}

proof fn lemma_pow10_monotone(a: nat, b: nat)
    requires
        a <= b,
    ensures
        pow10(a) <= pow10(b),
    decreases b - a,
{
    if a < b {
        lemma_pow10_monotone(a, (b - 1) as nat);
    }
}

proof fn lemma_pow10_19()
    ensures
        pow10(19) == 10000000000000000000,
        pow10(20) == 100000000000000000000,
{
    reveal_with_fuel(pow10, 21);
}

/// Whether `d` lies in `[lo, hi]`.
pub fn decimal_in_range(d: Decimal, lo: i64, hi: i64) -> (r: bool)
    ensures
        r == decimal_within(d, lo as int, hi as int),
{
    let m = d.mantissa as i128;
    if d.scale <= 19 {
        let mut p: i128 = 1;
        let mut k: u32 = 0;
        while k < d.scale
            invariant
                k <= d.scale <= 19,
                p == pow10(k as nat),
                1 <= p <= pow10(k as nat),
            decreases d.scale - k,
        {
            proof {
                lemma_pow10_monotone((k + 1) as nat, 19);
                lemma_pow10_19();
            }
            p = p * 10;
            k = k + 1;
        }
        proof {
            lemma_pow10_monotone(d.scale as nat, 19);
            lemma_pow10_19();
            assert(-9223372036854775808 * 10000000000000000000 <= lo * p <= 9223372036854775807
                * 10000000000000000000) by (nonlinear_arith)
                requires
                    -9223372036854775808 <= lo <= 9223372036854775807,
                    1 <= p <= 10000000000000000000,
            ;
            assert(-9223372036854775808 * 10000000000000000000 <= hi * p <= 9223372036854775807
                * 10000000000000000000) by (nonlinear_arith)
                requires
                    -9223372036854775808 <= hi <= 9223372036854775807,
                    1 <= p <= 10000000000000000000,
            ;
        }
        assert(p == pow10(d.scale as nat));
        let r = (lo as i128) * p <= m && m <= (hi as i128) * p;
        assert(r == decimal_within(d, lo as int, hi as int));
        r
    } else {
        let ghost p = pow10(d.scale as nat);
        proof {
            lemma_pow10_monotone(20, d.scale as nat);
            lemma_pow10_19();
            assert(lo >= 1 ==> lo * p > m) by (nonlinear_arith)
                requires
                    p >= 100000000000000000000,
                    m <= 9223372036854775807,
            ;
            assert(lo <= -1 ==> lo * p < m) by (nonlinear_arith)
                requires
                    p >= 100000000000000000000,
                    m >= -9223372036854775808,
            ;
            assert(hi >= 1 ==> hi * p > m) by (nonlinear_arith)
                requires
                    p >= 100000000000000000000,
                    m <= 9223372036854775807,
            ;
            assert(hi <= -1 ==> hi * p < m) by (nonlinear_arith)
                requires
                    p >= 100000000000000000000,
                    m >= -9223372036854775808,
            ;
        }
        let lower = if lo > 0 {
            false
        } else if lo < 0 {
            true
        } else {
            m >= 0
        };
        let upper = if hi < 0 {
            false
        } else if hi > 0 {
            true
        } else {
            m <= 0
        };
        assert(lower == (lo * p <= m));
        assert(upper == (m <= hi * p));
        lower && upper
    }
}

} // verus!

verus! {

pub open spec fn is_exponent_mark(c: char) -> bool {
    c == 'e' || c == 'E'
}

/// Index of the first `e` or `E` of `s`, or its length.
pub open spec fn exponent_pos(s: Seq<char>) -> int {
    first_where(s, |c: char| is_exponent_mark(c), 0, s.len() as int)
}

/// `d` times `10^e`, where it is representable: a non-negative scale that fits
/// a `u32`, or else a mantissa of magnitude at most `MANTISSA_LIMIT`.
pub open spec fn scaled(d: Decimal, e: int) -> Option<Decimal> {
    if e <= d.scale {
        if d.scale - e <= u32::MAX {
            Some(Decimal { mantissa: d.mantissa, scale: (d.scale - e) as u32 })
        } else {
            None
        }
    } else {
        let m = d.mantissa * pow10((e - d.scale) as nat);
        if -(MANTISSA_LIMIT as int) <= m <= MANTISSA_LIMIT {
            Some(Decimal { mantissa: m as i64, scale: 0 })
        } else {
            None
        }
    }
}

/// The number that `s` writes: a decimal, then optionally `e` or `E` and an
/// integer exponent.
pub open spec fn parsed_number(s: Seq<char>) -> Option<Decimal> {
    let k = exponent_pos(s);
    if k >= s.len() {
        parsed_decimal(s)
    } else {
        match (parsed_decimal(s.subrange(0, k)), parsed_i32(s.subrange(k + 1, s.len() as int))) {
            (Some(d), Some(e)) => scaled(d, e as int),
            _ => None,
        }
    }
}

proof fn lemma_scaled_grows(m: int, a: nat, b: nat)
    requires
        m != 0,
        a <= b,
    ensures
        -(m * pow10(b)) <= m * pow10(a) <= m * pow10(b) || m * pow10(b) <= m * pow10(a) <= -(m
            * pow10(b)),
        (m * pow10(a) > MANTISSA_LIMIT || m * pow10(a) < -(MANTISSA_LIMIT as int)) ==> (m * pow10(b)
            > MANTISSA_LIMIT || m * pow10(b) < -(MANTISSA_LIMIT as int)),
{
    lemma_pow10_monotone(a, b);
    let pa = pow10(a);
    let pb = pow10(b);
    assert(pa >= 0);
    if m > 0 {
        assert(m * pa <= m * pb) by (nonlinear_arith)
            requires
                m > 0,
                pa <= pb,
        ;
        assert(m * pa >= 0) by (nonlinear_arith)
            requires
                m > 0,
                pa >= 0,
        ;
    } else {
        assert(m * pa >= m * pb) by (nonlinear_arith)
            requires
                m < 0,
                pa <= pb,
        ;
        assert(m * pa <= 0) by (nonlinear_arith)
            requires
                m < 0,
                pa >= 0,
        ;
    }
}

/// `d` times `10^e`, where it is representable.
pub fn scale_by(d: Decimal, e: i32) -> (r: Option<Decimal>)
    ensures
        r == scaled(d, e as int),
{
    let ns: i64 = d.scale as i64 - e as i64;
    if ns >= 0 {
        if ns <= u32::MAX as i64 {
            return Some(Decimal { mantissa: d.mantissa, scale: ns as u32 });
        }
        return None;
    }
    let k: u64 = (-ns) as u64;
    let ghost kn = k as nat;
    if d.mantissa == 0 {
        assert(0 * pow10(kn) == 0);
        return Some(Decimal { mantissa: 0, scale: 0 });
    }
    if d.mantissa > MANTISSA_LIMIT as i64 || d.mantissa < -(MANTISSA_LIMIT as i64) {
        proof {
            assert(pow10(0) == 1);
            lemma_scaled_grows(d.mantissa as int, 0, kn);
            assert(d.mantissa * pow10(0) == d.mantissa * 1);
        }
        return None;
    }
    let mut m: i64 = d.mantissa;
    let mut j: u64 = 0;
    proof {
        assert(pow10(0) == 1);
    }
    while j < k
        invariant
            j <= k,
            kn == k as nat,
            kn == e - d.scale,
            e > d.scale,
            d.mantissa != 0,
            m == d.mantissa * pow10(j as nat),
            -(MANTISSA_LIMIT as int) <= m <= MANTISSA_LIMIT,
        decreases k - j,
    {
        if m > (MANTISSA_LIMIT / 10) as i64 || m < -((MANTISSA_LIMIT / 10) as i64) {
            proof {
                assert(pow10((j + 1) as nat) == 10 * pow10(j as nat));
                assert(d.mantissa * pow10((j + 1) as nat) == 10 * m) by (nonlinear_arith)
                    requires
                        pow10((j + 1) as nat) == 10 * pow10(j as nat),
                        m == d.mantissa * pow10(j as nat),
                ;
                lemma_scaled_grows(d.mantissa as int, (j + 1) as nat, kn);
            }
            return None;
        }
        proof {
            assert(pow10((j + 1) as nat) == 10 * pow10(j as nat));
            assert(d.mantissa * pow10((j + 1) as nat) == 10 * m) by (nonlinear_arith)
                requires
                    pow10((j + 1) as nat) == 10 * pow10(j as nat),
                    m == d.mantissa * pow10(j as nat),
            ;
        }
        m = m * 10;
        j = j + 1;
    }
    Some(Decimal { mantissa: m, scale: 0 })
}

/// Reads the number that `t[lo..hi]` writes, exponent included.
pub fn parse_number(t: &Vec<char>, lo: usize, hi: usize) -> (r: Option<Decimal>)
    requires
        lo <= hi <= t@.len(),
    ensures
        r == parsed_number(t@.subrange(lo as int, hi as int)),
{
    let ghost s = t@.subrange(lo as int, hi as int);
    let mut k: usize = lo;
    while k < hi && t[k] != 'e' && t[k] != 'E'
        invariant
            lo <= k <= hi <= t@.len(),
            s == t@.subrange(lo as int, hi as int),
            first_where(s, |c: char| is_exponent_mark(c), k - lo, s.len() as int) == exponent_pos(s),
        decreases hi - k,
    {
        assert(s[k - lo] == t@[k as int]);
        k = k + 1;
    }
    proof {
        if k < hi {
            assert(s[k - lo] == t@[k as int]);
        }
    }
    if k == hi {
        return parse_decimal(t, lo, hi);
    }
    assert(s.subrange(0, k - lo) =~= t@.subrange(lo as int, k as int));
    assert(s.subrange(k - lo + 1, s.len() as int) =~= t@.subrange(k + 1, hi as int));
    match (parse_decimal(t, lo, k), parse_i32(t, k + 1, hi)) {
        (Some(d), Some(e)) => scale_by(d, e),
        _ => None,
    }
}

} // verus!
