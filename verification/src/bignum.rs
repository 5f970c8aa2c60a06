//! Arbitrary-precision integers and rationals backed by `num-bigint` and
//! `num-rational`.
//!
//! `Int` and `Rat` carry the `num` value together with the mathematical number
//! it denotes. Only the functions of this module build them, each from a
//! `num` operation whose result is the stated exact value, so the two stay in
//! step.
use vstd::prelude::*;
use num_bigint::BigInt;
use num_rational::BigRational;
use num_traits::{Signed, ToPrimitive, Zero};

verus! {

#[verifier::external_type_specification]
#[verifier::external_body]
pub struct ExBigInt(BigInt);

#[verifier::external_type_specification]
#[verifier::external_body]
#[verifier::reject_recursive_types(T)]
pub struct ExRatio<T>(num_rational::Ratio<T>);

/// A rational number `n / d` as a pair of mathematical integers.
pub struct Q {
    pub n: int,
    pub d: int,
}

pub open spec fn abs(x: int) -> nat {
    if x < 0 {
        (-x) as nat
    } else {
        x as nat
    }
}

pub open spec fn gcd(a: nat, b: nat) -> nat
    decreases b,
{
    if b == 0 {
        a
    } else {
        gcd(b, a % b)
    }
}

/// Lowest terms with a positive denominator, the form `Ratio::new` keeps.
pub open spec fn normalize(n: int, d: int) -> Q {
    let g = gcd(abs(n), abs(d)) as int;
    let s: int = if d < 0 {
        -1
    } else {
        1
    };
    Q { n: (s * n) / g, d: (s * d) / g }
}

pub open spec fn q_int(x: int) -> Q {
    Q { n: x, d: 1 }
}

pub open spec fn q_add(a: Q, b: Q) -> Q {
    normalize(a.n * b.d + b.n * a.d, a.d * b.d)
}

pub open spec fn q_sub(a: Q, b: Q) -> Q {
    normalize(a.n * b.d - b.n * a.d, a.d * b.d)
}

pub open spec fn q_mul(a: Q, b: Q) -> Q {
    normalize(a.n * b.n, a.d * b.d)
}

pub open spec fn q_div(a: Q, b: Q) -> Q {
    normalize(a.n * b.d, a.d * b.n)
}

pub open spec fn q_neg(a: Q) -> Q {
    Q { n: -a.n, d: a.d }
}

/// `Signed::abs`: the negation when the number is negative.
pub open spec fn q_abs(a: Q) -> Q {
    if a.n * a.d < 0 {
        q_neg(a)
    } else {
        a
    }
}

/// `Ratio::recip`: numerator and denominator swapped, keeping the sign on top.
pub open spec fn q_recip(a: Q) -> Q {
    if a.n > 0 {
        Q { n: a.d, d: a.n }
    } else {
        Q { n: -a.d, d: -a.n }
    }
}

/// `Ratio::pow` with a non-negative exponent: both parts raised.
pub open spec fn q_pow(a: Q, e: nat) -> Q {
    Q { n: vstd::arithmetic::power::pow(a.n, e), d: vstd::arithmetic::power::pow(a.d, e) }
}

/// `a < b` for rationals with non-zero denominators.
pub open spec fn q_lt(a: Q, b: Q) -> bool {
    (a.n * b.d - b.n * a.d) * (a.d * b.d) < 0
}

pub open spec fn q_eq(a: Q, b: Q) -> bool {
    a.n * b.d == b.n * a.d
}

/// Integer division truncating toward zero, as Rust's `/`.
pub open spec fn tdiv(a: int, b: int) -> int {
    let q = abs(a) as int / abs(b) as int;
    if (a < 0) == (b < 0) {
        q
    } else {
        -q
    }
}

/// Remainder with the sign of the dividend, as Rust's `%`.
pub open spec fn trem(a: int, b: int) -> int {
    a - b * tdiv(a, b)
}

pub open spec fn digit_char(d: int) -> char {
    seq!['0', '1', '2', '3', '4', '5', '6', '7', '8', '9'][d]
}

/// Decimal digits of a natural number, without leading zeros.
pub open spec fn nat_text(n: nat) -> Seq<char>
    decreases n,
{
    if n < 10 {
        seq![digit_char(n as int)]
    } else {
        nat_text(n / 10) + seq![digit_char((n % 10) as int)]
    }
}

/// The `Display` text of an integer: an optional `-` and decimal digits.
pub open spec fn int_text(x: int) -> Seq<char> {
    if x < 0 {
        seq!['-'] + nat_text(abs(x))
    } else {
        nat_text(x as nat)
    }
}

/// The `Display` text of a `Ratio`: `n`, or `n/d` unless `d` is one.
pub open spec fn rat_text(q: Q) -> Seq<char> {
    if q.d == 1 {
        int_text(q.n)
    } else {
        int_text(q.n) + seq!['/'] + int_text(q.d)
    }
}

/// Value of a digit character in radix 36; 255 for anything else.
pub open spec fn digit_value(c: char) -> int {
    if '0' <= c && c <= '9' {
        c as int - '0' as int
    } else if 'a' <= c && c <= 'z' {
        c as int - 'a' as int + 10
    } else if 'A' <= c && c <= 'Z' {
        c as int - 'A' as int + 10
    } else {
        255
    }
}

/// Value of a digit string in radix `radix`, underscores skipped.
pub open spec fn digits_value(u: Seq<char>, radix: int) -> int
    decreases u.len(),
{
    if u.len() == 0 {
        0
    } else if u.last() == '_' {
        digits_value(u.drop_last(), radix)
    } else {
        digits_value(u.drop_last(), radix) * radix + digit_value(u.last())
    }
}

/// `BigInt::parse_bytes`: an optional `-`, an optional `+`, then digits of
/// the radix and underscores, starting with a digit.
pub open spec fn parse_int_text(s: Seq<char>, radix: int) -> Option<int> {
    let neg = s.len() > 0 && s[0] == '-' && !(s.len() > 1 && s[1] == '+');
    let t = if neg {
        s.drop_first()
    } else {
        s
    };
    let u = if t.len() > 0 && t[0] == '+' && !(t.len() > 1 && t[1] == '+') {
        t.drop_first()
    } else {
        t
    };
    if u.len() == 0 || u[0] == '_' {
        None
    } else if forall|i: int| 0 <= i < u.len() ==> u[i] == '_' || digit_value(#[trigger] u[i]) < radix {
        Some(
            if neg {
                -digits_value(u, radix)
            } else {
                digits_value(u, radix)
            },
        )
    } else {
        None
    }
}

pub proof fn lemma_gcd(a: nat, b: nat)
    requires
        a > 0 || b > 0,
    ensures
        gcd(a, b) > 0,
        a % gcd(a, b) == 0,
        b % gcd(a, b) == 0,
    decreases b,
{
    if b == 0 {
        vstd::arithmetic::div_mod::lemma_mod_multiples_basic(1, a as int);
        vstd::arithmetic::div_mod::lemma_mod_multiples_basic(0, a as int);
    } else {
        let r = a % b;
        lemma_gcd(b, r);
        let g = gcd(b, r) as int;
        vstd::arithmetic::div_mod::lemma_fundamental_div_mod(a as int, b as int);
        vstd::arithmetic::div_mod::lemma_fundamental_div_mod(b as int, g);
        vstd::arithmetic::div_mod::lemma_fundamental_div_mod(r as int, g);
        let k1 = b as int / g;
        let k2 = r as int / g;
        let q = a as int / b as int;
        assert(a == g * (k1 * q + k2)) by (nonlinear_arith)
            requires
                b == g * k1,
                r == g * k2,
                a == b * q + r,
        ;
        vstd::arithmetic::div_mod::lemma_mod_multiples_basic(k1 * q + k2, g);
        assert((k1 * q + k2) * g == g * (k1 * q + k2)) by (nonlinear_arith);
    }
}

/// `normalize` gives a positive denominator and keeps the sign of `n / d`.
pub proof fn lemma_normalize(n: int, d: int)
    requires
        d != 0,
    ensures
        normalize(n, d).d > 0,
        (n * d > 0) == (normalize(n, d).n > 0),
        (n == 0) == (normalize(n, d).n == 0),
        (n * d < 0) == (normalize(n, d).n < 0),
{
    let g = gcd(abs(n), abs(d)) as int;
    lemma_gcd(abs(n), abs(d));
    vstd::arithmetic::div_mod::lemma_fundamental_div_mod(abs(d) as int, g);
    vstd::arithmetic::div_mod::lemma_fundamental_div_mod(abs(n) as int, g);
    let k = abs(d) as int / g;
    let m = abs(n) as int / g;
    assert(abs(d) as int == g * k);
    assert(abs(n) as int == g * m);
    assert(k > 0) by (nonlinear_arith)
        requires
            abs(d) as int == g * k,
            g > 0,
            abs(d) > 0,
    ;
    assert(m >= 0) by (nonlinear_arith)
        requires
            abs(n) as int == g * m,
            g > 0,
    ;
    assert((n == 0) == (m == 0)) by (nonlinear_arith)
        requires
            abs(n) as int == g * m,
            g > 0,
            abs(n) == (if n < 0 { -n } else { n }),
    ;
    let s: int = if d < 0 {
        -1
    } else {
        1
    };
    assert(s * d == abs(d)) by (nonlinear_arith)
        requires
            s == (if d < 0 { -1int } else { 1int }),
            abs(d) == (if d < 0 { -d } else { d }),
    ;
    vstd::arithmetic::div_mod::lemma_div_multiples_vanish(k, g);
    vstd::arithmetic::div_mod::lemma_div_multiples_vanish(m, g);
    vstd::arithmetic::div_mod::lemma_div_multiples_vanish(-m, g);
    assert(g * (-m) == -(g * m)) by (nonlinear_arith);
    if n * d > 0 {
        assert(s * n == g * m) by (nonlinear_arith)
            requires
                n * d > 0,
                s == (if d < 0 { -1int } else { 1int }),
                abs(n) as int == g * m,
                abs(n) == (if n < 0 { -n } else { n }),
        ;
    } else if n * d < 0 {
        assert(s * n == g * (-m)) by (nonlinear_arith)
            requires
                n * d < 0,
                s == (if d < 0 { -1int } else { 1int }),
                abs(n) as int == g * m,
                abs(n) == (if n < 0 { -n } else { n }),
        ;
    } else {
        assert(n == 0) by (nonlinear_arith)
            requires
                n * d == 0,
                d != 0,
        ;
        assert(s * n == g * m);
    }
}

/// Bringing `n / d` to lowest terms keeps its value and gives a positive
/// denominator.
pub proof fn lemma_normalize_value(n: int, d: int)
    requires
        d != 0,
    ensures
        normalize(n, d).d > 0,
        q_eq(normalize(n, d), Q { n, d }),
{
    let g = gcd(abs(n), abs(d)) as int;
    lemma_gcd(abs(n), abs(d));
    vstd::arithmetic::div_mod::lemma_fundamental_div_mod(abs(d) as int, g);
    vstd::arithmetic::div_mod::lemma_fundamental_div_mod(abs(n) as int, g);
    let k = abs(d) as int / g;
    let m = abs(n) as int / g;
    let s: int = if d < 0 {
        -1
    } else {
        1
    };
    let t: int = if n < 0 {
        -1
    } else {
        1
    };
    let m2 = s * t * m;
    assert(s * d == g * k && s * n == g * m2) by (nonlinear_arith)
        requires
            abs(d) as int == g * k,
            abs(n) as int == g * m,
            s == (if d < 0 { -1int } else { 1int }),
            t == (if n < 0 { -1int } else { 1int }),
            abs(d) == (if d < 0 { -d } else { d }),
            abs(n) == (if n < 0 { -n } else { n }),
            m2 == s * t * m,
    ;
    vstd::arithmetic::div_mod::lemma_div_multiples_vanish(k, g);
    vstd::arithmetic::div_mod::lemma_div_multiples_vanish(m2, g);
    assert(normalize(n, d) == Q { n: m2, d: k });
    assert(k > 0) by (nonlinear_arith)
        requires
            abs(d) as int == g * k,
            g > 0,
            abs(d) > 0,
    ;
    assert(m2 * d == n * k) by (nonlinear_arith)
        requires
            s * d == g * k,
            s * n == g * m2,
            g > 0,
            s * s == 1,
    {
        assert(g * (m2 * d) == (g * m2) * d);
        assert((g * m2) * d == (s * n) * d);
        assert(g * (n * k) == n * (g * k));
        assert(n * (g * k) == n * (s * d));
    }
}

/// Equality of value is transitive.
pub proof fn lemma_q_eq_transitive(x: Q, y: Q, z: Q)
    requires
        x.d != 0,
        y.d != 0,
        z.d != 0,
        q_eq(x, y),
        q_eq(y, z),
    ensures
        q_eq(x, z),
{
    assert(x.n * z.d == z.n * x.d) by (nonlinear_arith)
        requires
            x.n * y.d == y.n * x.d,
            y.n * z.d == z.n * y.d,
            y.d != 0,
    {
        assert((x.n * y.d) * z.d == (y.n * x.d) * z.d);
        assert((y.n * z.d) * x.d == (z.n * y.d) * x.d);
        assert((x.n * z.d) * y.d == (z.n * x.d) * y.d);
    }
}

/// Two fractions of equal value have lowest terms of equal value.
pub proof fn lemma_normalize_congruent(n: int, d: int, n2: int, d2: int)
    requires
        d != 0,
        d2 != 0,
        n * d2 == n2 * d,
    ensures
        q_eq(normalize(n, d), normalize(n2, d2)),
        normalize(n, d).d > 0,
        normalize(n2, d2).d > 0,
{
    lemma_normalize_value(n, d);
    lemma_normalize_value(n2, d2);
    lemma_q_eq_transitive(normalize(n, d), Q { n, d }, Q { n: n2, d: d2 });
    lemma_q_eq_transitive(normalize(n, d), Q { n: n2, d: d2 }, normalize(n2, d2));
}

/// A product of non-zero integers is non-zero.
pub proof fn lemma_nonzero_product(x: int, y: int)
    requires
        x != 0,
        y != 0,
    ensures
        x * y != 0,
{
    assert(x * y != 0) by (nonlinear_arith)
        requires
            x != 0,
            y != 0,
    ;
}

/// `p/s + r/q` and `P/S + R/Q` written over common denominators have equal
/// cross products when `p/s = P/S` and `r/q = R/Q`.
proof fn lemma_cross_sum(p: int, q: int, r: int, s: int, pp: int, qq: int, rr: int, ss: int)
    requires
        p * ss == pp * s,
        r * qq == rr * q,
    ensures
        (p * q + r * s) * (ss * qq) == (pp * qq + rr * ss) * (s * q),
{
    assert((p * q + r * s) * (ss * qq) == (p * q) * (ss * qq) + (r * s) * (ss * qq)) by (nonlinear_arith);
    assert((p * q) * (ss * qq) == (p * ss) * (q * qq)) by (nonlinear_arith);
    assert((r * s) * (ss * qq) == (r * qq) * (s * ss)) by (nonlinear_arith);
    assert((pp * qq + rr * ss) * (s * q) == (pp * qq) * (s * q) + (rr * ss) * (s * q)) by (nonlinear_arith);
    assert((pp * qq) * (s * q) == (pp * s) * (q * qq)) by (nonlinear_arith);
    assert((rr * ss) * (s * q) == (rr * q) * (s * ss)) by (nonlinear_arith);
}

/// Sums of operands of equal value have equal value.
pub proof fn lemma_q_add_congruent(a: Q, b: Q, a2: Q, b2: Q)
    requires
        a.d != 0,
        b.d != 0,
        a2.d != 0,
        b2.d != 0,
        q_eq(a, a2),
        q_eq(b, b2),
    ensures
        q_eq(q_add(a, b), q_add(a2, b2)),
        q_add(a, b).d > 0,
{
    lemma_nonzero_product(a.d, b.d);
    lemma_nonzero_product(a2.d, b2.d);
    lemma_cross_sum(a.n, b.d, b.n, a.d, a2.n, b2.d, b2.n, a2.d);
    lemma_normalize_congruent(a.n * b.d + b.n * a.d, a.d * b.d, a2.n * b2.d + b2.n * a2.d, a2.d * b2.d);
}

/// Differences of operands of equal value have equal value.
pub proof fn lemma_q_sub_congruent(a: Q, b: Q, a2: Q, b2: Q)
    requires
        a.d != 0,
        b.d != 0,
        a2.d != 0,
        b2.d != 0,
        q_eq(a, a2),
        q_eq(b, b2),
    ensures
        q_eq(q_sub(a, b), q_sub(a2, b2)),
        q_sub(a, b).d > 0,
{
    lemma_nonzero_product(a.d, b.d);
    lemma_nonzero_product(a2.d, b2.d);
    assert((-b.n) * b2.d == (-b2.n) * b.d) by (nonlinear_arith)
        requires
            b.n * b2.d == b2.n * b.d,
    ;
    lemma_cross_sum(a.n, b.d, -b.n, a.d, a2.n, b2.d, -b2.n, a2.d);
    assert((-b.n) * a.d == -(b.n * a.d) && (-b2.n) * a2.d == -(b2.n * a2.d)) by (nonlinear_arith);
    lemma_normalize_congruent(a.n * b.d - b.n * a.d, a.d * b.d, a2.n * b2.d - b2.n * a2.d, a2.d * b2.d);
}

/// Products of operands of equal value have equal value.
pub proof fn lemma_q_mul_congruent(a: Q, b: Q, a2: Q, b2: Q)
    requires
        a.d != 0,
        b.d != 0,
        a2.d != 0,
        b2.d != 0,
        q_eq(a, a2),
        q_eq(b, b2),
    ensures
        q_eq(q_mul(a, b), q_mul(a2, b2)),
        q_mul(a, b).d > 0,
{
    lemma_nonzero_product(a.d, b.d);
    lemma_nonzero_product(a2.d, b2.d);
    assert((a.n * b.n) * (a2.d * b2.d) == (a2.n * b2.n) * (a.d * b.d)) by (nonlinear_arith)
        requires
            a.n * a2.d == a2.n * a.d,
            b.n * b2.d == b2.n * b.d,
    {
        assert((a.n * a2.d) * (b.n * b2.d) == (a2.n * a.d) * (b2.n * b.d));
    }
    lemma_normalize_congruent(a.n * b.n, a.d * b.d, a2.n * b2.n, a2.d * b2.d);
}

/// Quotients of operands of equal value, by a non-zero divisor, have equal
/// value.
pub proof fn lemma_q_div_congruent(a: Q, b: Q, a2: Q, b2: Q)
    requires
        a.d != 0,
        b.d != 0,
        a2.d != 0,
        b2.d != 0,
        b.n != 0,
        b2.n != 0,
        q_eq(a, a2),
        q_eq(b, b2),
    ensures
        q_eq(q_div(a, b), q_div(a2, b2)),
        q_div(a, b).d > 0,
{
    lemma_nonzero_product(a.d, b.n);
    lemma_nonzero_product(a2.d, b2.n);
    assert((a.n * b.d) * (a2.d * b2.n) == (a2.n * b2.d) * (a.d * b.n)) by (nonlinear_arith)
        requires
            a.n * a2.d == a2.n * a.d,
            b.n * b2.d == b2.n * b.d,
    {
        assert((a.n * a2.d) * (b2.n * b.d) == (a2.n * a.d) * (b.n * b2.d));
    }
    lemma_normalize_congruent(a.n * b.d, a.d * b.n, a2.n * b2.d, a2.d * b2.n);
}

/// The sum of `a` and `b` has the value of `a2.n * b2.d + b2.n * a2.d` over
/// `a2.d * b2.d` for operands `a2`, `b2` of equal value.
pub proof fn lemma_q_add_value(a: Q, b: Q, a2: Q, b2: Q)
    requires
        a.d != 0,
        b.d != 0,
        a2.d != 0,
        b2.d != 0,
        q_eq(a, a2),
        q_eq(b, b2),
    ensures
        q_add(a, b).d > 0,
        a2.d * b2.d != 0,
        q_eq(q_add(a, b), Q { n: a2.n * b2.d + b2.n * a2.d, d: a2.d * b2.d }),
{
    lemma_q_add_congruent(a, b, a2, b2);
    lemma_nonzero_product(a2.d, b2.d);
    lemma_normalize_value(a2.n * b2.d + b2.n * a2.d, a2.d * b2.d);
    lemma_q_eq_transitive(q_add(a, b), q_add(a2, b2), Q { n: a2.n * b2.d + b2.n * a2.d, d: a2.d * b2.d });
}

/// The difference of `a` and `b` has the value of `a2.n * b2.d - b2.n * a2.d`
/// over `a2.d * b2.d` for operands `a2`, `b2` of equal value.
pub proof fn lemma_q_sub_value(a: Q, b: Q, a2: Q, b2: Q)
    requires
        a.d != 0,
        b.d != 0,
        a2.d != 0,
        b2.d != 0,
        q_eq(a, a2),
        q_eq(b, b2),
    ensures
        q_sub(a, b).d > 0,
        a2.d * b2.d != 0,
        q_eq(q_sub(a, b), Q { n: a2.n * b2.d - b2.n * a2.d, d: a2.d * b2.d }),
{
    lemma_q_sub_congruent(a, b, a2, b2);
    lemma_nonzero_product(a2.d, b2.d);
    lemma_normalize_value(a2.n * b2.d - b2.n * a2.d, a2.d * b2.d);
    lemma_q_eq_transitive(q_sub(a, b), q_sub(a2, b2), Q { n: a2.n * b2.d - b2.n * a2.d, d: a2.d * b2.d });
}

/// The product of `a` and `b` has the value of `a2.n * b2.n` over
/// `a2.d * b2.d` for operands `a2`, `b2` of equal value.
pub proof fn lemma_q_mul_value(a: Q, b: Q, a2: Q, b2: Q)
    requires
        a.d != 0,
        b.d != 0,
        a2.d != 0,
        b2.d != 0,
        q_eq(a, a2),
        q_eq(b, b2),
    ensures
        q_mul(a, b).d > 0,
        a2.d * b2.d != 0,
        q_eq(q_mul(a, b), Q { n: a2.n * b2.n, d: a2.d * b2.d }),
{
    lemma_q_mul_congruent(a, b, a2, b2);
    lemma_nonzero_product(a2.d, b2.d);
    lemma_normalize_value(a2.n * b2.n, a2.d * b2.d);
    lemma_q_eq_transitive(q_mul(a, b), q_mul(a2, b2), Q { n: a2.n * b2.n, d: a2.d * b2.d });
}

/// The quotient of `a` by a non-zero `b` has the value of `a2.n * b2.d` over
/// `a2.d * b2.n` for operands `a2`, `b2` of equal value.
pub proof fn lemma_q_div_value(a: Q, b: Q, a2: Q, b2: Q)
    requires
        a.d != 0,
        b.d != 0,
        a2.d != 0,
        b2.d != 0,
        b.n != 0,
        b2.n != 0,
        q_eq(a, a2),
        q_eq(b, b2),
    ensures
        q_div(a, b).d > 0,
        a2.d * b2.n != 0,
        q_eq(q_div(a, b), Q { n: a2.n * b2.d, d: a2.d * b2.n }),
{
    lemma_q_div_congruent(a, b, a2, b2);
    lemma_nonzero_product(a2.d, b2.n);
    lemma_normalize_value(a2.n * b2.d, a2.d * b2.n);
    lemma_q_eq_transitive(q_div(a, b), q_div(a2, b2), Q { n: a2.n * b2.d, d: a2.d * b2.n });
}

/// With positive denominators, `a < b` is the comparison of the cross products.
pub proof fn lemma_q_lt_cross(a: Q, b: Q)
    requires
        a.d > 0,
        b.d > 0,
    ensures
        q_lt(a, b) == (a.n * b.d < b.n * a.d),
{
    let x = a.n * b.d - b.n * a.d;
    let y = a.d * b.d;
    assert(y > 0) by (nonlinear_arith)
        requires
            a.d > 0,
            b.d > 0,
            y == a.d * b.d,
    ;
    assert((x * y < 0) == (x < 0)) by (nonlinear_arith)
        requires
            y > 0,
    ;
}

/// No rational is below itself, and of two rationals at most one is below
/// the other.
pub proof fn lemma_q_lt_asymmetric(a: Q, b: Q)
    requires
        a.d > 0,
        b.d > 0,
    ensures
        !q_lt(a, a),
        q_lt(a, b) ==> !q_lt(b, a),
{
    lemma_q_lt_cross(a, a);
    lemma_q_lt_cross(a, b);
    lemma_q_lt_cross(b, a);
}

/// `a <= b` and `b <= c` give `a <= c`.
pub proof fn lemma_q_le_transitive(a: Q, b: Q, c: Q)
    requires
        a.d > 0,
        b.d > 0,
        c.d > 0,
        !q_lt(b, a),
        !q_lt(c, b),
    ensures
        !q_lt(c, a),
{
    lemma_q_lt_cross(b, a);
    lemma_q_lt_cross(c, b);
    lemma_q_lt_cross(c, a);
    assert(a.n * c.d <= c.n * a.d) by (nonlinear_arith)
        requires
            a.d > 0,
            b.d > 0,
            c.d > 0,
            a.n * b.d <= b.n * a.d,
            b.n * c.d <= c.n * b.d,
    {
        assert((a.n * b.d) * c.d <= (b.n * a.d) * c.d);
        assert((b.n * c.d) * a.d <= (c.n * b.d) * a.d);
        assert((a.n * c.d) * b.d <= (c.n * a.d) * b.d);
    }
}

/// Truncating division by one is the identity.
pub proof fn lemma_tdiv_one(n: int)
    ensures
        tdiv(n, 1) == n,
{
    vstd::arithmetic::div_mod::lemma_div_basics(abs(n) as int);
}

/// On a non-negative dividend and a positive divisor, truncating division is
/// Euclidean division.
pub proof fn lemma_tdiv_nonneg(x: int, y: int)
    requires
        x >= 0,
        y > 0,
    ensures
        tdiv(x, y) == x / y,
{
}

/// An arbitrary-precision integer.
pub struct Int {
    value: BigInt,
    model: Ghost<int>,
}

impl View for Int {
    type V = int;

    closed spec fn view(&self) -> int {
        self.model@
    }
}

/// A rational number in lowest terms with a positive denominator, as
/// `num_rational::BigRational` keeps it.
pub struct Rat {
    value: BigRational,
    model: Ghost<Q>,
}

impl View for Rat {
    type V = Q;

    closed spec fn view(&self) -> Q {
        self.model@
    }
}

/// `BigInt::from(u64)`.
#[verifier::external_body]
pub(crate) fn int_from_u64(x: u64) -> (r: Int)
    ensures
        r@ == x as int,
{
    Int { value: BigInt::from(x), model: Ghost(x as int) }
}

/// `Clone` of `BigInt`: the same value.
#[verifier::external_body]
pub(crate) fn int_clone(a: &Int) -> (r: Int)
    ensures
        r@ == a@,
{
    Int { value: a.value.clone(), model: Ghost(a@) }
}

/// `BigInt::parse_bytes(text, radix)`; it panics unless `2 <= radix <= 36`.
#[verifier::external_body]
pub(crate) fn int_parse(text: &String, radix: u32) -> (r: Option<Int>)
    requires
        2 <= radix <= 36,
    ensures
        r is Some <==> parse_int_text(text@, radix as int) is Some,
        r matches Some(x) ==> x@ == parse_int_text(text@, radix as int)->0,
{
    match BigInt::parse_bytes(text.as_bytes(), radix) {
        Some(v) => Some(Int { value: v, model: Ghost(parse_int_text(text@, radix as int)->0) }),
        None => None,
    }
}

/// `BigInt + BigInt`: the exact sum.
#[verifier::external_body]
pub(crate) fn int_add(a: &Int, b: &Int) -> (r: Int)
    ensures
        r@ == a@ + b@,
{
    Int { value: &a.value + &b.value, model: Ghost(a@ + b@) }
}

/// `BigInt - BigInt`: the exact difference.
#[verifier::external_body]
pub(crate) fn int_sub(a: &Int, b: &Int) -> (r: Int)
    ensures
        r@ == a@ - b@,
{
    Int { value: &a.value - &b.value, model: Ghost(a@ - b@) }
}

/// `BigInt * BigInt`: the exact product.
#[verifier::external_body]
pub(crate) fn int_mul(a: &Int, b: &Int) -> (r: Int)
    ensures
        r@ == a@ * b@,
{
    Int { value: &a.value * &b.value, model: Ghost(a@ * b@) }
}

/// `BigInt / BigInt`: the quotient truncated toward zero; panics on zero.
#[verifier::external_body]
pub(crate) fn int_div(a: &Int, b: &Int) -> (r: Int)
    requires
        b@ != 0,
    ensures
        r@ == tdiv(a@, b@),
{
    Int { value: &a.value / &b.value, model: Ghost(tdiv(a@, b@)) }
}

/// `BigInt % BigInt`: the remainder with the dividend's sign; panics on zero.
#[verifier::external_body]
pub(crate) fn int_rem(a: &Int, b: &Int) -> (r: Int)
    requires
        b@ != 0,
    ensures
        r@ == trem(a@, b@),
{
    Int { value: &a.value % &b.value, model: Ghost(trem(a@, b@)) }
}

/// `Pow<u32>` for `BigInt`: the exact power.
#[verifier::external_body]
pub(crate) fn int_pow(a: &Int, e: u32) -> (r: Int)
    ensures
        r@ == vstd::arithmetic::power::pow(a@, e as nat),
{
    Int {
        value: num_traits::Pow::pow(&a.value, e),
        model: Ghost(vstd::arithmetic::power::pow(a@, e as nat)),
    }
}

/// `Signed::abs` for `BigInt`.
#[verifier::external_body]
pub(crate) fn int_abs(a: &Int) -> (r: Int)
    ensures
        r@ == abs(a@),
{
    Int { value: a.value.abs(), model: Ghost(abs(a@) as int) }
}

/// `-BigInt`.
#[verifier::external_body]
pub(crate) fn int_neg(a: &Int) -> (r: Int)
    ensures
        r@ == -a@,
{
    Int { value: -&a.value, model: Ghost(-a@) }
}

/// `BigInt < BigInt`.
#[verifier::external_body]
pub(crate) fn int_lt(a: &Int, b: &Int) -> (r: bool)
    ensures
        r == (a@ < b@),
{
    a.value < b.value
}

/// `BigInt == BigInt`.
#[verifier::external_body]
pub(crate) fn int_eq(a: &Int, b: &Int) -> (r: bool)
    ensures
        r == (a@ == b@),
{
    a.value == b.value
}

/// `Zero::is_zero` for `BigInt`.
#[verifier::external_body]
pub(crate) fn int_is_zero(a: &Int) -> (r: bool)
    ensures
        r == (a@ == 0),
{
    a.value.is_zero()
}

/// `ToPrimitive::to_u64`: the value when it fits in a `u64`.
#[verifier::external_body]
pub(crate) fn int_to_u64(a: &Int) -> (r: Option<u64>)
    ensures
        r is Some <==> 0 <= a@ <= u64::MAX,
        r matches Some(x) ==> x == a@,
{
    a.value.to_u64()
}

/// `ToPrimitive::to_i32`: the value when it fits in an `i32`.
#[verifier::external_body]
pub(crate) fn int_to_i32(a: &Int) -> (r: Option<i32>)
    ensures
        r is Some <==> i32::MIN <= a@ <= i32::MAX,
        r matches Some(x) ==> x == a@,
{
    a.value.to_i32()
}

/// `Display` of `BigInt`: decimal digits with a leading `-` when negative.
#[verifier::external_body]
pub(crate) fn int_to_text(a: &Int) -> (r: String)
    ensures
        r@ == int_text(a@),
{
    a.value.to_string()
}

/// `Ratio::from_integer`.
#[verifier::external_body]
pub(crate) fn rat_from_int(a: &Int) -> (r: Rat)
    ensures
        r@.d > 0,
        r@ == q_int(a@),
{
    Rat { value: BigRational::from_integer(a.value.clone()), model: Ghost(q_int(a@)) }
}

/// `Ratio::new(n, d)`: `n / d` in lowest terms; panics when `d` is zero.
#[verifier::external_body]
pub(crate) fn rat_new(n: &Int, d: &Int) -> (r: Rat)
    requires
        d@ != 0,
    ensures
        r@.d > 0,
        r@ == normalize(n@, d@),
{
    Rat {
        value: BigRational::new(n.value.clone(), d.value.clone()),
        model: Ghost(normalize(n@, d@)),
    }
}

/// `Clone` of `BigRational`: the same value.
#[verifier::external_body]
pub(crate) fn rat_clone(a: &Rat) -> (r: Rat)
    ensures
        r@.d > 0,
        r@ == a@,
{
    Rat { value: a.value.clone(), model: Ghost(a@) }
}

/// `Ratio::numer`.
#[verifier::external_body]
pub(crate) fn rat_numer(a: &Rat) -> (r: Int)
    ensures
        r@ == a@.n,
{
    Int { value: a.value.numer().clone(), model: Ghost(a@.n) }
}

/// `Ratio::denom`.
#[verifier::external_body]
pub(crate) fn rat_denom(a: &Rat) -> (r: Int)
    ensures
        r@ == a@.d,
{
    Int { value: a.value.denom().clone(), model: Ghost(a@.d) }
}

/// `Ratio::is_integer`: whether the denominator is one.
#[verifier::external_body]
pub(crate) fn rat_is_integer(a: &Rat) -> (r: bool)
    ensures
        r == (a@.d == 1),
{
    a.value.is_integer()
}

/// `Ratio::to_integer`: the quotient truncated toward zero.
#[verifier::external_body]
pub(crate) fn rat_to_integer(a: &Rat) -> (r: Int)
    ensures
        r@ == tdiv(a@.n, a@.d),
{
    Int { value: a.value.to_integer(), model: Ghost(tdiv(a@.n, a@.d)) }
}

/// `Ratio + Ratio`, in lowest terms.
#[verifier::external_body]
pub(crate) fn rat_add(a: &Rat, b: &Rat) -> (r: Rat)
    ensures
        r@.d > 0,
        r@ == q_add(a@, b@),
{
    Rat { value: &a.value + &b.value, model: Ghost(q_add(a@, b@)) }
}

/// `Ratio - Ratio`, in lowest terms.
#[verifier::external_body]
pub(crate) fn rat_sub(a: &Rat, b: &Rat) -> (r: Rat)
    ensures
        r@.d > 0,
        r@ == q_sub(a@, b@),
{
    Rat { value: &a.value - &b.value, model: Ghost(q_sub(a@, b@)) }
}

/// `Ratio * Ratio`, in lowest terms.
#[verifier::external_body]
pub(crate) fn rat_mul(a: &Rat, b: &Rat) -> (r: Rat)
    ensures
        r@.d > 0,
        r@ == q_mul(a@, b@),
{
    Rat { value: &a.value * &b.value, model: Ghost(q_mul(a@, b@)) }
}

/// `Ratio / Ratio`, in lowest terms; panics when the divisor is zero.
#[verifier::external_body]
pub(crate) fn rat_div(a: &Rat, b: &Rat) -> (r: Rat)
    requires
        b@.n != 0,
    ensures
        r@.d > 0,
        r@ == q_div(a@, b@),
{
    Rat { value: &a.value / &b.value, model: Ghost(q_div(a@, b@)) }
}

/// `-Ratio`.
#[verifier::external_body]
pub(crate) fn rat_neg(a: &Rat) -> (r: Rat)
    ensures
        r@.d > 0,
        r@ == q_neg(a@),
{
    Rat { value: -&a.value, model: Ghost(q_neg(a@)) }
}

/// `Signed::abs` for `Ratio`.
#[verifier::external_body]
pub(crate) fn rat_abs(a: &Rat) -> (r: Rat)
    ensures
        r@.d > 0,
        r@ == q_abs(a@),
{
    Rat { value: a.value.abs(), model: Ghost(q_abs(a@)) }
}

/// `Ratio::recip`; panics on zero.
#[verifier::external_body]
pub(crate) fn rat_recip(a: &Rat) -> (r: Rat)
    requires
        a@.n != 0,
    ensures
        r@.d > 0,
        r@ == q_recip(a@),
{
    Rat { value: a.value.recip(), model: Ghost(q_recip(a@)) }
}

/// `Ratio::pow` with a non-negative exponent.
#[verifier::external_body]
pub(crate) fn rat_pow(a: &Rat, e: i32) -> (r: Rat)
    requires
        e >= 0,
    ensures
        r@.d > 0,
        r@ == q_pow(a@, e as nat),
{
    Rat { value: a.value.pow(e), model: Ghost(q_pow(a@, e as nat)) }
}

/// `Ratio < Ratio`, comparing the numbers.
#[verifier::external_body]
pub(crate) fn rat_lt(a: &Rat, b: &Rat) -> (r: bool)
    ensures
        r == q_lt(a@, b@),
{
    a.value < b.value
}

/// `Ratio == Ratio`, comparing the numbers.
#[verifier::external_body]
pub(crate) fn rat_eq(a: &Rat, b: &Rat) -> (r: bool)
    ensures
        r == q_eq(a@, b@),
{
    a.value == b.value
}

/// `Signed::is_negative` for `Ratio`: the numerator and denominator have
/// opposite signs.
#[verifier::external_body]
pub(crate) fn rat_is_negative(a: &Rat) -> (r: bool)
    ensures
        r == (a@.n * a@.d < 0),
{
    a.value.is_negative()
}

/// `Zero::is_zero` for `Ratio`.
#[verifier::external_body]
pub(crate) fn rat_is_zero(a: &Rat) -> (r: bool)
    ensures
        r == (a@.n == 0),
{
    a.value.is_zero()
}

/// `Display` of `Ratio`: `n`, or `n/d` unless the denominator is one.
#[verifier::external_body]
pub(crate) fn rat_to_text(a: &Rat) -> (r: String)
    ensures
        r@ == rat_text(a@),
{
    a.value.to_string()
}

} // verus!
