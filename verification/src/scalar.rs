//! Exact fixed-point scalars.
//!
//! A [`Scalar`] holds an `i64` numerator `raw`; the value it stands for is
//! `raw / SCALE`.  Addition, subtraction and negation are exact up to
//! saturation at the ends of the `i64` range; multiplication and division
//! truncate the exact quotient toward zero at the fixed grid, and the square
//! root is the largest grid value whose square does not exceed the argument.
//! Every operation's result is an exact integer function of the operands'
//! numerators, stated by the spec functions below.

use vstd::prelude::*;

verus! {

/// Denominator shared by every scalar: ten to the ninth.
pub const SCALE: i64 = 1_000_000_000;

/// Numerator of the offset that keeps secondary rays off the surface
/// they start on; it stands for one millionth: comfortably above the
/// grid step, far below anything a scene resolves.
pub const EPSILON: i64 = 1_000;

/// A fixed-point number standing for `raw / SCALE`.
#[derive(Debug, Clone, Copy, PartialEq, Eq, Structural)]
pub struct Scalar {
    pub raw: i64,
}

impl View for Scalar {
    type V = int;

    open spec fn view(&self) -> int {
        self.raw as int
    }
}

/// Absolute value of a mathematical integer.
pub open spec fn iabs(a: int) -> int {
    if a >= 0 {
        a
    } else {
        -a
    }
}

/// Clamp to the symmetric range `[-i64::MAX, i64::MAX]`.
pub open spec fn sat(a: int) -> int {
    if a > i64::MAX as int {
        i64::MAX as int
    } else if a < -(i64::MAX as int) {
        -(i64::MAX as int)
    } else {
        a
    }
}

/// Quotient truncated toward zero, as Rust's integer division rounds.
pub open spec fn tdiv(a: int, b: int) -> int {
    if (a >= 0) == (b >= 0) {
        iabs(a) / iabs(b)
    } else {
        -(iabs(a) / iabs(b))
    }
}

/// Numerator of the sum of two scalars.
pub open spec fn fadd(a: int, b: int) -> int {
    sat(a + b)
}

/// Numerator of the difference of two scalars.
pub open spec fn fsub(a: int, b: int) -> int {
    sat(a - b)
}

/// Numerator of a negated scalar.
pub open spec fn fneg(a: int) -> int {
    sat(-a)
}

/// Numerator of the product of two scalars: the exact product truncated
/// toward zero at the grid.
pub open spec fn fmul(a: int, b: int) -> int {
    sat(tdiv(a * b, SCALE as int))
}

/// Numerator of the quotient of two scalars, `b != 0`: the exact quotient
/// truncated toward zero at the grid.
pub open spec fn fdiv(a: int, b: int) -> int {
    sat(tdiv(a * SCALE, b))
}

/// Largest natural number whose square does not exceed `n`.
pub open spec fn isqrt(n: nat) -> nat
    decreases n,
{
    if n == 0 {
        0
    } else {
        let r = isqrt((n - 1) as nat);
        if (r + 1) * (r + 1) <= n {
            r + 1
        } else {
            r
        }
    }
}

/// Numerator of the square root of a nonnegative scalar.
pub open spec fn fsqrt(a: int) -> int {
    isqrt((a * SCALE) as nat) as int
}

/// Numerator of `a` taken to the natural power `e` by repeated truncating
/// multiplication, multiplying from the left as the power loop does.
pub open spec fn fpow(a: int, e: nat) -> int
    decreases e,
{
    if e == 0 {
        SCALE as int
    } else {
        fmul(fpow(a, (e - 1) as nat), a)
    }
}

/// The whole part of a nonnegative numerator, capped at the largest
/// `u32`.
pub open spec fn exponent_spec(x: int) -> nat {
    let q = x / (SCALE as int);
    if q > u32::MAX as int {
        u32::MAX as nat
    } else if q < 0 {
        0nat
    } else {
        q as nat
    }
}

pub proof fn lemma_isqrt_bounds(n: nat)
    ensures
        (isqrt(n) as int) * (isqrt(n) as int) <= n as int,
        (n as int) < (isqrt(n) as int + 1) * (isqrt(n) as int + 1),
    decreases n,
{
    if n > 0 {
        lemma_isqrt_bounds((n - 1) as nat);
        let r = isqrt((n - 1) as nat) as int;
        let s = isqrt(n) as int;
        assert(r * r <= n - 1 < (r + 1) * (r + 1));
        if (r + 1) * (r + 1) <= (n as int) {
            assert(s == r + 1);
            assert((n as int) < (r + 1) * (r + 1) + 1);
            assert((r + 1) * (r + 1) + 1 <= (r + 2) * (r + 2)) by (nonlinear_arith)
                requires r >= 0;
            assert(s * s <= (n as int) && (n as int) < (s + 1) * (s + 1));
        } else {
            assert(s == r);
            assert(s * s <= (n as int) && (n as int) < (s + 1) * (s + 1));
        }
    } else {
        assert(isqrt(n) == 0);
    }
}

pub proof fn lemma_isqrt_unique(n: nat, r: nat)
    requires
        (r as int) * (r as int) <= n as int,
        (n as int) < (r as int + 1) * (r as int + 1),
    ensures
        r == isqrt(n),
{
    lemma_isqrt_bounds(n);
    let ri = r as int;
    let s = isqrt(n) as int;
    if ri < s {
        assert((ri + 1) * (ri + 1) <= s * s) by (nonlinear_arith)
            requires 0 <= ri && ri + 1 <= s;
        assert(false);
    }
    if s < ri {
        assert((s + 1) * (s + 1) <= ri * ri) by (nonlinear_arith)
            requires 0 <= s && s + 1 <= ri;
        assert(false);
    }
}

/// Multiplying by zero gives zero.
pub proof fn lemma_fmul_zero(b: int)
    ensures
        fmul(0, b) == 0,
        fmul(b, 0) == 0,
{
    assert(0 * b == 0) by (nonlinear_arith);
    assert(b * 0 == 0) by (nonlinear_arith);
    assert(iabs(0) / iabs(SCALE as int) == 0) by (nonlinear_arith)
        requires iabs(0) == 0 && iabs(SCALE as int) == SCALE;
}

/// Multiplying by one is the identity on in-range values.
pub proof fn lemma_fmul_one(x: int)
    requires
        -(i64::MAX as int) <= x <= i64::MAX as int,
    ensures
        fmul(SCALE as int, x) == x,
        fmul(x, SCALE as int) == x,
{
    let s = SCALE as int;
    assert(iabs(s * x) == s * iabs(x)) by (nonlinear_arith)
        requires s > 0;
    assert(iabs(x * s) == s * iabs(x)) by (nonlinear_arith)
        requires s > 0;
    vstd::arithmetic::div_mod::lemma_div_multiples_vanish(iabs(x), s);
    assert(iabs(s) == s);
    assert(tdiv(s * x, s) == x);
    assert(tdiv(x * s, s) == x);
}

/// Dividing a numerator by one gives it back.
pub proof fn lemma_fdiv_one(a: int)
    requires
        -(i64::MAX as int) <= a <= i64::MAX as int,
    ensures
        fdiv(a, SCALE as int) == a,
{
    let s = SCALE as int;
    assert(iabs(a * s) == iabs(a) * s) by (nonlinear_arith)
        requires s > 0;
    vstd::arithmetic::div_mod::lemma_div_multiples_vanish(iabs(a), s);
    assert(s * iabs(a) == iabs(a) * s) by (nonlinear_arith);
    assert(tdiv(a * s, s) == a);
}

/// Multiplying by minus one negates.
pub proof fn lemma_fmul_neg_one(a: int)
    requires
        -(i64::MAX as int) <= a <= i64::MAX as int,
    ensures
        fmul(a, fneg(SCALE as int)) == fneg(a),
        fmul(fneg(SCALE as int), a) == fneg(a),
{
    let s = SCALE as int;
    assert(fneg(s) == -s);
    assert(iabs(a * -s) == iabs(a) * s) by (nonlinear_arith)
        requires s > 0;
    assert(iabs(-s * a) == iabs(a) * s) by (nonlinear_arith)
        requires s > 0;
    vstd::arithmetic::div_mod::lemma_div_multiples_vanish(iabs(a), s);
    assert(s * iabs(a) == iabs(a) * s) by (nonlinear_arith);
    assert(iabs(a * -s) / iabs(s) == iabs(a));
    assert(iabs(-s * a) / iabs(s) == iabs(a));
    if a >= 0 {
        assert(a * -s <= 0) by (nonlinear_arith)
            requires s > 0 && a >= 0;
        assert(-s * a <= 0) by (nonlinear_arith)
            requires s > 0 && a >= 0;
        if a == 0 {
            assert(tdiv(a * -s, s) == -a);
            assert(tdiv(-s * a, s) == -a);
        } else {
            assert(a * -s < 0) by (nonlinear_arith)
                requires s > 0 && a > 0;
            assert(-s * a < 0) by (nonlinear_arith)
                requires s > 0 && a > 0;
            assert(tdiv(a * -s, s) == -iabs(a));
            assert(tdiv(-s * a, s) == -iabs(a));
        }
    } else {
        assert(a * -s > 0) by (nonlinear_arith)
            requires s > 0 && a < 0;
        assert(-s * a > 0) by (nonlinear_arith)
            requires s > 0 && a < 0;
        assert(tdiv(a * -s, s) == iabs(a));
        assert(tdiv(-s * a, s) == iabs(a));
    }
    assert(tdiv(a * -s, s) == -a);
    assert(tdiv(-s * a, s) == -a);
}

/// Zero divided by anything nonzero stays zero.
pub proof fn lemma_fdiv_zero(b: int)
    requires
        b != 0,
    ensures
        fdiv(0, b) == 0,
{
    assert(iabs(0 * SCALE) == 0);
    assert(iabs(0 * SCALE) / iabs(b) == 0) by (nonlinear_arith)
        requires iabs(0 * SCALE) == 0 && iabs(b) >= 1;
}

/// A square is never negative, also after truncation.
pub proof fn lemma_fmul_self_nonneg(a: int)
    ensures
        fmul(a, a) >= 0,
{
    assert(a * a >= 0) by (nonlinear_arith);
    assert(iabs(a * a) / iabs(SCALE as int) >= 0) by (nonlinear_arith)
        requires iabs(a * a) >= 0 && iabs(SCALE as int) == SCALE;
}

/// The character for one decimal digit.
pub open spec fn digit_char(d: nat) -> char {
    if d == 0 {
        '0'
    } else if d == 1 {
        '1'
    } else if d == 2 {
        '2'
    } else if d == 3 {
        '3'
    } else if d == 4 {
        '4'
    } else if d == 5 {
        '5'
    } else if d == 6 {
        '6'
    } else if d == 7 {
        '7'
    } else if d == 8 {
        '8'
    } else {
        '9'
    }
}

/// The decimal digits of a natural number, most significant first.
pub open spec fn dec_digits(n: nat) -> Seq<char>
    decreases n,
{
    if n < 10 {
        seq![digit_char(n)]
    } else {
        dec_digits(n / 10) + seq![digit_char(n % 10)]
    }
}

/// Whether `s` is a power of ten.
pub open spec fn is_pow10(s: nat) -> bool
    decreases s,
{
    if s == 1 {
        true
    } else if s == 0 || s % 10 != 0 {
        false
    } else {
        is_pow10(s / 10)
    }
}

/// The digits of the fraction `f / s`, zero padded on the left, written
/// most significant first.
pub open spec fn lead_digits(f: nat, s: nat) -> Seq<char>
    decreases s,
{
    if s <= 1 {
        Seq::<char>::empty()
    } else {
        seq![digit_char(f / (s / 10))] + lead_digits(f % (s / 10), s / 10)
    }
}

/// The digits of the fraction `f / s` with trailing zeros stripped.
pub open spec fn frac_digits(f: nat, s: nat) -> Seq<char>
    decreases s,
{
    if s <= 1 {
        Seq::<char>::empty()
    } else if f % 10 == 0 {
        frac_digits(f / 10, s / 10)
    } else {
        lead_digits(f, s)
    }
}

/// How a scalar numerator reads in decimal: an optional minus sign,
/// the whole part, and the nonzero fraction after a dot.
pub open spec fn spec_scalar_string(raw: int) -> Seq<char> {
    let m = iabs(raw) as nat;
    let sign: Seq<char> = if raw < 0 {
        seq!['-']
    } else {
        Seq::<char>::empty()
    };
    let whole = dec_digits(m / (SCALE as nat));
    let f = m % (SCALE as nat);
    if f == 0 {
        sign + whole
    } else {
        sign + whole + seq!['.'] + frac_digits(f, SCALE as nat)
    }
}

/// The grid denominator is a power of ten.
pub proof fn lemma_pow10_scale()
    ensures
        is_pow10(SCALE as nat),
{
    assert(is_pow10(1));
    assert(is_pow10(10));
    assert(is_pow10(100));
    assert(is_pow10(1000));
    assert(is_pow10(10000));
    assert(is_pow10(100000));
    assert(is_pow10(1000000));
    assert(is_pow10(10000000));
    assert(is_pow10(100000000));
    assert(is_pow10(1000000000));
}

/// The one-character string for a decimal digit.
fn digit_str(d: u64) -> (r: &'static str)
    requires
        d < 10,
    ensures
        r@ == seq![digit_char(d as nat)],
{
    proof {
        reveal_strlit("0");
        reveal_strlit("1");
        reveal_strlit("2");
        reveal_strlit("3");
        reveal_strlit("4");
        reveal_strlit("5");
        reveal_strlit("6");
        reveal_strlit("7");
        reveal_strlit("8");
        reveal_strlit("9");
    }
    if d == 0 {
        "0"
    } else if d == 1 {
        "1"
    } else if d == 2 {
        "2"
    } else if d == 3 {
        "3"
    } else if d == 4 {
        "4"
    } else if d == 5 {
        "5"
    } else if d == 6 {
        "6"
    } else if d == 7 {
        "7"
    } else if d == 8 {
        "8"
    } else {
        "9"
    }
}

/// Appends the decimal digits of `n`.
fn append_u64(out: &mut String, n: u64)
    ensures
        final(out)@ == old(out)@ + dec_digits(n as nat),
    decreases n,
{
    if n < 10 {
        out.append(digit_str(n));
    } else {
        append_u64(out, n / 10);
        out.append(digit_str(n % 10));
        proof {
            assert(out@ =~= old(out)@ + dec_digits(n as nat));
        }
    }
}

/// Appends the zero-padded digits of the fraction `f / s`.
fn append_lead(out: &mut String, f: u64, s: u64)
    requires
        is_pow10(s as nat),
        f < s,
    ensures
        final(out)@ == old(out)@ + lead_digits(f as nat, s as nat),
    decreases s,
{
    if s <= 1 {
    } else {
        let lower: u64 = s / 10;
        proof {
            assert(s as nat % 10 == 0);
            assert(10 * (lower as nat) == s as nat);
            assert(f as nat / (lower as nat) < 10) by (nonlinear_arith)
                requires
                    (f as nat) < (s as nat),
                    10 * (lower as nat) == s as nat,
                    lower as nat >= 1;
        }
        out.append(digit_str(f / lower));
        append_lead(out, f % lower, lower);
        proof {
            assert(out@ =~= old(out)@ + lead_digits(f as nat, s as nat));
        }
    }
}

/// Appends the digits of the fraction `f / s`, trailing zeros
/// stripped.
fn append_frac(out: &mut String, f: u64, s: u64)
    requires
        is_pow10(s as nat),
        f < s,
    ensures
        final(out)@ == old(out)@ + frac_digits(f as nat, s as nat),
    decreases s,
{
    if s <= 1 {
    } else if f % 10 == 0 {
        proof {
            assert(s as nat % 10 == 0);
            assert(10 * ((s / 10) as nat) == s as nat);
            assert(f as nat / 10 < (s / 10) as nat) by (nonlinear_arith)
                requires
                    (f as nat) < (s as nat),
                    10 * ((s / 10) as nat) == s as nat;
        }
        append_frac(out, f / 10, s / 10);
    } else {
        append_lead(out, f, s);
    }
}

/// Clamp an `i128` into the symmetric `i64` range.
fn clamp128(a: i128) -> (r: i64)
    ensures
        r as int == sat(a as int),
{
    if a > i64::MAX as i128 {
        i64::MAX
    } else if a < -(i64::MAX as i128) {
        -i64::MAX
    } else {
        a as i64
    }
}

/// Quotient of two `i128` values truncated toward zero, computed on
/// unsigned magnitudes.
fn tdiv128(a: i128, b: i128) -> (q: i128)
    requires
        b > 0,
        a > i128::MIN,
    ensures
        q == tdiv(a as int, b as int),
{
    let ub: u128 = b as u128;
    if a >= 0 {
        let ua: u128 = a as u128;
        let q: u128 = ua / ub;
        assert(q <= ua) by (nonlinear_arith)
            requires q == ua / ub && ub >= 1;
        q as i128
    } else {
        let ua: u128 = (-a) as u128;
        let q: u128 = ua / ub;
        assert(q <= ua) by (nonlinear_arith)
            requires q == ua / ub && ub >= 1;
        -(q as i128)
    }
}

/// Largest `r` with `r * r <= n`, by bisection.
fn isqrt128(n: u128) -> (r: u128)
    ensures
        r == isqrt(n as nat),
{
    let mut lo: u128 = 0;
    let mut hi: u128 = 0x1_0000_0000_0000_0000;
    assert(n < hi * hi) by (nonlinear_arith)
        requires hi == 0x1_0000_0000_0000_0000u128 && n <= u128::MAX;
    while lo + 1 < hi
        invariant
            lo < hi,
            hi <= 0x1_0000_0000_0000_0000,
            lo * lo <= n,
            n < hi * hi,
        decreases hi - lo,
    {
        let mid: u128 = lo + (hi - lo) / 2;
        assert(mid * mid <= u128::MAX) by (nonlinear_arith)
            requires mid < 0x1_0000_0000_0000_0000u128;
        if mid * mid <= n {
            lo = mid;
        } else {
            hi = mid;
        }
    }
    proof {
        lemma_isqrt_unique(n as nat, lo as nat);
    }
    lo
}

impl Scalar {
    /// The scalar whose numerator is `raw`.
    pub fn from_raw(raw: i64) -> (r: Scalar)
        ensures
            r@ == raw as int,
    {
        Scalar { raw }
    }

    /// The scalar standing for the integer `v`.
    pub fn from_int(v: i32) -> (r: Scalar)
        ensures
            r@ == v as int * SCALE,
    {
        Scalar { raw: (v as i64) * SCALE }
    }

    /// Zero.
    pub fn zero() -> (r: Scalar)
        ensures
            r@ == 0,
    {
        Scalar { raw: 0 }
    }

    /// One.
    pub fn one() -> (r: Scalar)
        ensures
            r@ == SCALE,
    {
        Scalar { raw: SCALE }
    }

    /// Sum, saturating at the ends of the range.
    pub fn add(self, o: Scalar) -> (r: Scalar)
        ensures
            r@ == fadd(self@, o@),
    {
        let s: i128 = self.raw as i128 + o.raw as i128;
        Scalar { raw: clamp128(s) }
    }

    /// Difference, saturating at the ends of the range.
    pub fn sub(self, o: Scalar) -> (r: Scalar)
        ensures
            r@ == fsub(self@, o@),
    {
        let s: i128 = self.raw as i128 - o.raw as i128;
        Scalar { raw: clamp128(s) }
    }

    /// Negation.
    pub fn neg(self) -> (r: Scalar)
        ensures
            r@ == fneg(self@),
    {
        let s: i128 = -(self.raw as i128);
        Scalar { raw: clamp128(s) }
    }

    /// Truncating product.
    pub fn mul(self, o: Scalar) -> (r: Scalar)
        ensures
            r@ == fmul(self@, o@),
    {
        proof {
            assert(i128::MIN < self.raw as int * o.raw as int <= i128::MAX) by (nonlinear_arith)
                requires
                    i64::MIN <= self.raw as int <= i64::MAX,
                    i64::MIN <= o.raw as int <= i64::MAX;
        }
        let p: i128 = (self.raw as i128) * (o.raw as i128);
        let q: i128 = tdiv128(p, SCALE as i128);
        Scalar { raw: clamp128(q) }
    }

    /// Truncating quotient; the divisor must not be zero.
    pub fn div(self, o: Scalar) -> (r: Scalar)
        requires
            o@ != 0,
        ensures
            r@ == fdiv(self@, o@),
    {
        proof {
            assert(i128::MIN < self.raw as int * SCALE <= i128::MAX) by (nonlinear_arith)
                requires
                    i64::MIN <= self.raw as int <= i64::MAX,
                    SCALE == 1_000_000_000;
        }
        let p: i128 = (self.raw as i128) * (SCALE as i128);
        let q: i128 = if o.raw > 0 {
            tdiv128(p, o.raw as i128)
        } else {
            proof {
                assert(tdiv(p as int, o.raw as int) == -tdiv(p as int, -(o.raw as int)));
            }
            let d: i128 = -(o.raw as i128);
            let t: i128 = tdiv128(p, d);
            -t
        };
        Scalar { raw: clamp128(q) }
    }

    /// Square root of a nonnegative scalar, truncated at the grid.
    pub fn sqrt_val(self) -> (r: Scalar)
        requires
            self@ >= 0,
        ensures
            r@ == fsqrt(self@),
    {
        let n: u128 = (self.raw as u128) * (SCALE as u128);
        let s: u128 = isqrt128(n);
        proof {
            lemma_isqrt_bounds(n as nat);
            assert(isqrt(n as nat) < 0x8000_0000_0000_0000) by (nonlinear_arith)
                requires
                    isqrt(n as nat) * isqrt(n as nat) <= n as nat,
                    n as nat <= 0x8000_0000_0000_0000 * 0x4000_0000,
        }
        Scalar { raw: s as i64 }
    }

    /// Absolute value.
    pub fn abs_val(self) -> (r: Scalar)
        ensures
            r@ == sat(iabs(self@)),
    {
        if self.raw >= 0 {
            Scalar { raw: self.raw }
        } else {
            self.neg()
        }
    }

    /// Truncating power with a natural exponent.
    pub fn powi(self, e: u32) -> (r: Scalar)
        ensures
            r@ == fpow(self@, e as nat),
    {
        let mut acc: Scalar = Scalar::one();
        let mut i: u32 = 0;
        while i < e
            invariant
                i <= e,
                acc@ == fpow(self@, i as nat),
            decreases e - i,
    {
            acc = acc.mul(self);
            i = i + 1;
        }
        acc
    }

    /// The whole part of a nonnegative scalar, as an exponent, capped
    /// at the largest `u32`.
    pub fn to_exponent(self) -> (e: u32)
        requires
            self@ >= 0,
        ensures
            e as nat == exponent_spec(self@),
    {
        let q: u64 = (self.raw as u64) / (SCALE as u64);
        if q > u32::MAX as u64 {
            u32::MAX
        } else {
            q as u32
        }
    }

    /// How the scalar reads in decimal.
    pub fn to_display_string(&self) -> (s: String)
        ensures
            s@ == spec_scalar_string(self@),
    {
        let mut out = String::new();
        let m: u64 = if self.raw < 0 {
            proof {
                reveal_strlit("-");
            }
            out.append("-");
            (-(self.raw as i128)) as u64
        } else {
            self.raw as u64
        };
        let ip: u64 = m / (SCALE as u64);
        let fp: u64 = m % (SCALE as u64);
        append_u64(&mut out, ip);
        if fp != 0 {
            proof {
                reveal_strlit(".");
                lemma_pow10_scale();
            }
            out.append(".");
            append_frac(&mut out, fp, SCALE as u64);
        }
        proof {
            assert(out@ =~= spec_scalar_string(self@));
        }
        out
    }

    /// `self < o`.
    pub fn lt(self, o: Scalar) -> (r: bool)
        ensures
            r == (self@ < o@),
    {
        self.raw < o.raw
    }

    /// `self <= o`.
    pub fn le(self, o: Scalar) -> (r: bool)
        ensures
            r == (self@ <= o@),
    {
        self.raw <= o.raw
    }

    /// `self > o`.
    pub fn gt(self, o: Scalar) -> (r: bool)
        ensures
            r == (self@ > o@),
    {
        self.raw > o.raw
    }

    /// `self >= o`.
    pub fn ge(self, o: Scalar) -> (r: bool)
        ensures
            r == (self@ >= o@),
    {
        self.raw >= o.raw
    }

    /// `self == 0`.
    pub fn is_zero(self) -> (r: bool)
        ensures
            r == (self@ == 0),
    {
        self.raw == 0
    }
}

} // verus!
