//! Unary minus, powers, factorials and the integer functions.
use vstd::prelude::*;
use crate::bignum::{
    Int, Q, Rat, abs, gcd, int_abs, int_clone, int_is_zero, int_lt, q_lt, rat_lt, int_div, int_from_u64, int_mul, int_rem, int_sub,
    int_to_i32, int_to_text, int_to_u64, int_text, lemma_gcd, lemma_q_le_transitive, lemma_q_lt_asymmetric, lemma_tdiv_one, lemma_tdiv_nonneg, q_int, q_neg, q_pow, q_recip,
    rat_clone, rat_from_int, rat_is_integer, rat_is_negative, rat_is_zero, rat_neg, rat_pow,
    rat_recip, rat_to_integer, tdiv, trem,
};
use crate::engine::types::{DiagView, Diagnostic, DiagnosticKind, dg, err, err0};
use crate::engine::value::{SValue, Value, values_view};
use crate::engine::ops::{div_zero, rv, value_wf};
use crate::text::{push_str, str_eq, string_from};

verus! {

/// `negate`: unary minus on a real or complex scalar.
pub open spec fn negate(v: SValue) -> Result<SValue, DiagView> {
    match v {
        SValue::Rational(q) => Ok(SValue::Rational(q_neg(q))),
        SValue::Complex(re, im) => Ok(SValue::Complex(q_neg(re), q_neg(im))),
        _ => Err(dg(DiagnosticKind::Unsupported, "Unary minus requires a scalar."@)),
    }
}

pub fn negate_exec(v: Value) -> (r: Result<Value, Diagnostic>)
    requires
        value_wf(v@),
    ensures
        rv(r) == negate(v@),
        r matches Ok(x) ==> value_wf(x@),
{
    match v {
        Value::Rational(x) => Ok(Value::Rational(rat_neg(&x))),
        Value::Complex(re, im) => Ok(Value::Complex(rat_neg(&re), rat_neg(&im))),
        _ => Err(err0(DiagnosticKind::Unsupported, "Unary minus requires a scalar.")),
    }
}

/// `power`: a real scalar raised to an integer exponent of at most 4096 in
/// magnitude.
#[verifier::opaque]
pub open spec fn power(a: SValue, b: SValue) -> Result<SValue, DiagView> {
    match (a, b) {
        (SValue::Rational(a), SValue::Rational(b)) => if b.d != 1 {
            Err(dg(DiagnosticKind::Domain, "Exponent must be an integer."@))
        } else if b.n < -4096 || b.n > 4096 {
            Err(dg(DiagnosticKind::Limit, "Exponent exceeds 4096."@))
        } else if b.n >= 0 {
            Ok(SValue::Rational(q_pow(a, b.n as nat)))
        } else if a.n == 0 {
            Err(div_zero())
        } else {
            Ok(SValue::Rational(q_pow(q_recip(a), (-b.n) as nat)))
        },
        _ => Err(dg(DiagnosticKind::Unsupported, "Powers require real scalars."@)),
    }
}

pub fn power_exec(a: Value, b: Value) -> (r: Result<Value, Diagnostic>)
    requires
        value_wf(a@),
        value_wf(b@),
    ensures
        rv(r) == power(a@, b@),
        r matches Ok(x) ==> value_wf(x@),
{
    reveal(power);
    let (a, b) = match (a, b) {
        (Value::Rational(a), Value::Rational(b)) => (a, b),
        _ => {
            return Err(err0(DiagnosticKind::Unsupported, "Powers require real scalars."));
        },
    };
    if !rat_is_integer(&b) {
        return Err(err0(DiagnosticKind::Domain, "Exponent must be an integer."));
    }
    let e = rat_to_integer(&b);
    proof {
        lemma_tdiv_one(b@.n);
    }
    let n = match int_to_i32(&e) {
        Some(n) => n,
        None => {
            return Err(err0(DiagnosticKind::Limit, "Exponent exceeds 4096."));
        },
    };
    if n < -4096 || n > 4096 {
        return Err(err0(DiagnosticKind::Limit, "Exponent exceeds 4096."));
    }
    if n >= 0 {
        Ok(Value::Rational(rat_pow(&a, n)))
    } else if rat_is_zero(&a) {
        Err(err0(DiagnosticKind::Domain, "Division by zero."))
    } else {
        Ok(Value::Rational(rat_pow(&rat_recip(&a), -n)))
    }
}

/// `n!` as `(1..=n).fold(1, |r, i| r * i)` computes it.
pub open spec fn fact(n: nat) -> int
    decreases n,
{
    if n == 0 {
        1
    } else {
        fact((n - 1) as nat) * n
    }
}

pub proof fn lemma_fact_pos(n: nat)
    ensures
        fact(n) >= 1,
    decreases n,
{
    if n > 0 {
        lemma_fact_pos((n - 1) as nat);
        assert(fact((n - 1) as nat) * n >= 1) by (nonlinear_arith)
            requires
                fact((n - 1) as nat) >= 1,
                n >= 1,
        ;
    }
}

pub open spec fn nonneg_error() -> DiagView {
    dg(DiagnosticKind::Domain, "Expected a non-negative integer."@)
}

/// `nonnegative_integer`: the integer a value holds, when it is a
/// non-negative integer.
pub open spec fn nonneg_int(v: SValue) -> Result<int, DiagView> {
    match v {
        SValue::Rational(q) => if q.d == 1 && q.n >= 0 {
            Ok(q.n)
        } else {
            Err(nonneg_error())
        },
        _ => Err(nonneg_error()),
    }
}

pub fn nonneg_int_exec(v: &Value) -> (r: Result<Int, Diagnostic>)
    requires
        value_wf(v@),
    ensures
        match r {
            Ok(x) => nonneg_int(v@) == Ok::<int, DiagView>(x@),
            Err(d) => nonneg_int(v@) == Err::<int, DiagView>(d@),
        },
{
    match v {
        Value::Rational(q) => {
            if !rat_is_integer(q) || rat_is_negative(q) {
                return Err(err0(DiagnosticKind::Domain, "Expected a non-negative integer."));
            }
            let x = rat_to_integer(q);
            proof {
                lemma_tdiv_one(q@.n);
            }
            Ok(x)
        },
        _ => Err(err0(DiagnosticKind::Domain, "Expected a non-negative integer.")),
    }
}

/// `factorial_integer`: `n!` for `0 <= n <= 1024`.
pub open spec fn factorial_int(n: int) -> Result<int, DiagView> {
    if n < 0 || n > 1024 {
        Err(dg(DiagnosticKind::Limit, "Factorial exceeds 1024."@))
    } else {
        Ok(fact(n as nat))
    }
}

pub fn factorial_int_exec(n: &Int) -> (r: Result<Int, Diagnostic>)
    ensures
        match r {
            Ok(x) => factorial_int(n@) == Ok::<int, DiagView>(x@),
            Err(d) => factorial_int(n@) == Err::<int, DiagView>(d@),
        },
{
    let count = match int_to_u64(n) {
        Some(c) => c,
        None => {
            return Err(err0(DiagnosticKind::Limit, "Factorial exceeds 1024."));
        },
    };
    if count > 1024 {
        return Err(err0(DiagnosticKind::Limit, "Factorial exceeds 1024."));
    }
    let mut result = int_from_u64(1);
    let mut i: u64 = 1;
    while i <= count
        invariant
            1 <= i <= count + 1,
            count <= 1024,
            result@ == fact((i - 1) as nat),
        decreases count + 1 - i,
    {
        result = int_mul(&result, &int_from_u64(i));
        i = i + 1;
    }
    Ok(result)
}

/// `factorial`: `n!` of a non-negative integer value.
pub open spec fn factorial(v: SValue) -> Result<SValue, DiagView> {
    match nonneg_int(v) {
        Err(e) => Err(e),
        Ok(n) => match factorial_int(n) {
            Err(e) => Err(e),
            Ok(f) => Ok(SValue::Rational(q_int(f))),
        },
    }
}

pub fn factorial_exec(v: &Value) -> (r: Result<Value, Diagnostic>)
    requires
        value_wf(v@),
    ensures
        rv(r) == factorial(v@),
        r matches Ok(x) ==> value_wf(x@),
{
    let n = nonneg_int_exec(v)?;
    let f = factorial_int_exec(&n)?;
    Ok(Value::Rational(rat_from_int(&f)))
}

/// The remainder of truncating division has the magnitude of the Euclidean
/// remainder of the magnitudes.
proof fn lemma_trem_abs(a: int, b: int)
    requires
        b != 0,
    ensures
        abs(trem(a, b)) == abs(a) % abs(b),
{
    let x = abs(a) as int;
    let y = abs(b) as int;
    let q = x / y;
    let m = x % y;
    vstd::arithmetic::div_mod::lemma_fundamental_div_mod(x, y);
    assert(0 <= m < y);
    if a >= 0 && b > 0 {
        assert(trem(a, b) == m);
    } else if a >= 0 && b < 0 {
        assert(trem(a, b) == a - b * (-q));
        assert(b * (-q) == -(b * q)) by (nonlinear_arith);
        assert(b * q == -(y * q)) by (nonlinear_arith)
            requires
                y == -b,
        ;
        assert(trem(a, b) == m);
    } else if a < 0 && b > 0 {
        assert(trem(a, b) == a - b * (-q));
        assert(b * (-q) == -(b * q)) by (nonlinear_arith);
        assert(trem(a, b) == -m);
    } else {
        assert(trem(a, b) == a - b * q);
        assert(b * q == -(y * q)) by (nonlinear_arith)
            requires
                y == -b,
        ;
        assert(trem(a, b) == -m);
    }
}

/// `bigint_gcd`: Euclid's algorithm with truncating remainders; the greatest
/// common divisor of the magnitudes.
pub fn bigint_gcd(a: Int, b: Int) -> (r: Int)
    ensures
        r@ == gcd(abs(a@), abs(b@)) as int,
{
    let mut a = a;
    let mut b = b;
    let ghost g = gcd(abs(a@), abs(b@));
    while !int_is_zero(&b)
        invariant
            gcd(abs(a@), abs(b@)) == g,
        decreases abs(b@),
    {
        let remainder = int_rem(&a, &b);
        proof {
            lemma_trem_abs(a@, b@);
            assert(abs(a@) % abs(b@) < abs(b@));
        }
        a = b;
        b = remainder;
    }
    int_abs(&a)
}

/// `name expects k arguments.`
pub open spec fn arity_error(name: Seq<char>, k: int) -> DiagView {
    dg(DiagnosticKind::Parse, name + " expects "@ + int_text(k) + " arguments."@)
}

pub fn arity_error_exec(name: &str, k: u64) -> (r: Diagnostic)
    ensures
        r@ == arity_error(name@, k as int),
{
    let mut m = string_from(name);
    push_str(&mut m, " expects ");
    let t = int_to_text(&int_from_u64(k));
    push_str(&mut m, t.as_str());
    push_str(&mut m, " arguments.");
    err(DiagnosticKind::Parse, m, 0, 0)
}

/// All values of a list are well formed.
pub open spec fn all_wf(args: Seq<SValue>) -> bool {
    forall|i: int| 0 <= i < args.len() ==> value_wf(#[trigger] args[i])
}

/// `integer_pair_function`: `gcd` or `lcm` of two non-negative integers.
pub open spec fn integer_pair(name: Seq<char>, args: Seq<SValue>) -> Result<SValue, DiagView> {
    if args.len() != 2 {
        Err(arity_error(name, 2))
    } else {
        match nonneg_int(args[0]) {
            Err(e) => Err(e),
            Ok(a) => match nonneg_int(args[1]) {
                Err(e) => Err(e),
                Ok(b) => {
                    let g = gcd(a as nat, b as nat) as int;
                    Ok(
                        SValue::Rational(
                            q_int(
                                if name == "gcd"@ {
                                    g
                                } else if g == 0 {
                                    0
                                } else {
                                    (a * b) / g
                                },
                            ),
                        ),
                    )
                },
            },
        }
    }
}

pub fn integer_pair_exec(name: &str, args: &Vec<Value>) -> (r: Result<Value, Diagnostic>)
    requires
        all_wf(values_view(args@)),
    ensures
        rv(r) == integer_pair(name@, values_view(args@)),
        r matches Ok(x) ==> value_wf(x@),
{
    let ghost vs = values_view(args@);
    if args.len() != 2 {
        return Err(arity_error_exec(name, 2));
    }
    assert(value_wf(vs[0]) && value_wf(vs[1]));
    let a = nonneg_int_exec(&args[0])?;
    let b = nonneg_int_exec(&args[1])?;
    let g = bigint_gcd(int_clone(&a), int_clone(&b));
    let result = if str_eq(name, "gcd") {
        g
    } else if int_is_zero(&g) {
        int_from_u64(0)
    } else {
        let p = int_mul(&a, &b);
        proof {
            assert(a@ * b@ >= 0) by (nonlinear_arith)
                requires
                    a@ >= 0,
                    b@ >= 0,
            ;
            lemma_tdiv_nonneg(a@ * b@, g@);
        }
        int_div(&p, &g)
    };
    Ok(Value::Rational(rat_from_int(&result)))
}

/// `n (n - 1) ... (n - k + 1)`, the product of the first `k` factors.
pub open spec fn falling(n: int, k: nat) -> int
    decreases k,
{
    if k == 0 {
        1
    } else {
        falling(n, (k - 1) as nat) * (n - (k - 1))
    }
}

proof fn lemma_falling_pos(n: int, k: nat)
    requires
        k <= n,
    ensures
        falling(n, k) >= 1,
    decreases k,
{
    if k > 0 {
        lemma_falling_pos(n, (k - 1) as nat);
        assert(falling(n, (k - 1) as nat) * (n - (k - 1)) >= 1) by (nonlinear_arith)
            requires
                falling(n, (k - 1) as nat) >= 1,
                n - (k - 1) >= 1,
        ;
    }
}

/// `combinatoric_function`: `nPr`, or `nCr` for `r` up to 1024.
pub open spec fn combinatoric(name: Seq<char>, args: Seq<SValue>) -> Result<SValue, DiagView> {
    if args.len() != 2 {
        Err(arity_error(name, 2))
    } else {
        match nonneg_int(args[0]) {
            Err(e) => Err(e),
            Ok(n) => match nonneg_int(args[1]) {
                Err(e) => Err(e),
                Ok(r) => if r > n {
                    Err(dg(DiagnosticKind::Domain, "r must not exceed n."@))
                } else if r > u64::MAX {
                    Err(dg(DiagnosticKind::Limit, "Combinatoric argument is too large."@))
                } else if name == "nCr"@ {
                    match factorial_int(r) {
                        Err(e) => Err(e),
                        Ok(f) => Ok(SValue::Rational(q_int(falling(n, r as nat) / f))),
                    }
                } else {
                    Ok(SValue::Rational(q_int(falling(n, r as nat))))
                },
            },
        }
    }
}

pub fn combinatoric_exec(name: &str, args: &Vec<Value>) -> (r: Result<Value, Diagnostic>)
    requires
        all_wf(values_view(args@)),
    ensures
        rv(r) == combinatoric(name@, values_view(args@)),
        r matches Ok(x) ==> value_wf(x@),
{
    let ghost vs = values_view(args@);
    if args.len() != 2 {
        return Err(arity_error_exec(name, 2));
    }
    assert(value_wf(vs[0]) && value_wf(vs[1]));
    let n = nonneg_int_exec(&args[0])?;
    let k = nonneg_int_exec(&args[1])?;
    if int_lt(&n, &k) {
        return Err(err0(DiagnosticKind::Domain, "r must not exceed n."));
    }
    let count = match int_to_u64(&k) {
        Some(c) => c,
        None => {
            return Err(err0(DiagnosticKind::Limit, "Combinatoric argument is too large."));
        },
    };
    let mut result = int_from_u64(1);
    let mut index: u64 = 0;
    while index < count
        invariant
            index <= count,
            result@ == falling(n@, index as nat),
        decreases count - index,
    {
        result = int_mul(&result, &int_sub(&n, &int_from_u64(index)));
        index = index + 1;
    }
    if str_eq(name, "nCr") {
        let f = factorial_int_exec(&int_from_u64(count))?;
        proof {
            lemma_falling_pos(n@, count as nat);
            lemma_fact_pos(count as nat);
            lemma_tdiv_nonneg(result@, f@);
        }
        result = int_div(&result, &f);
    }
    Ok(Value::Rational(rat_from_int(&result)))
}

pub open spec fn min_max_error() -> DiagView {
    dg(DiagnosticKind::Unsupported, "min and max require real scalars."@)
}

/// Whether `v` replaces the running result `acc` of `min` or `max`.
pub open spec fn replaces(name: Seq<char>, v: Q, acc: Q) -> bool {
    (name == "min"@ && q_lt(v, acc)) || (name == "max"@ && q_lt(acc, v))
}

/// The running result `acc` updated by each of `rest` in turn.
pub open spec fn min_max_from(name: Seq<char>, acc: Q, rest: Seq<SValue>) -> Result<SValue, DiagView>
    decreases rest.len(),
{
    if rest.len() == 0 {
        Ok(SValue::Rational(acc))
    } else {
        match rest[0] {
            SValue::Rational(v) => min_max_from(
                name,
                if replaces(name, v, acc) {
                    v
                } else {
                    acc
                },
                rest.drop_first(),
            ),
            _ => Err(min_max_error()),
        }
    }
}

/// `min_max_function`: the least or greatest of at least two real scalars;
/// among equal ones the first is kept.
pub open spec fn min_max(name: Seq<char>, args: Seq<SValue>) -> Result<SValue, DiagView> {
    if args.len() < 2 {
        Err(dg(DiagnosticKind::Parse, "Expected at least two arguments."@))
    } else {
        match args[0] {
            SValue::Rational(a) => min_max_from(name, a, args.drop_first()),
            _ => Err(min_max_error()),
        }
    }
}

/// Whether `m` is at least as far toward the extreme that `name` seeks as `v`.
spec fn kept_over(name: Seq<char>, m: Q, v: Q) -> bool {
    if name == "max"@ {
        !q_lt(m, v)
    } else {
        !q_lt(v, m)
    }
}

proof fn lemma_kept_over_transitive(name: Seq<char>, m: Q, b: Q, x: Q)
    requires
        m.d > 0,
        b.d > 0,
        x.d > 0,
        kept_over(name, m, b),
        kept_over(name, b, x),
    ensures
        kept_over(name, m, x),
{
    if name == "max"@ {
        lemma_q_le_transitive(x, b, m);
    } else {
        lemma_q_le_transitive(m, b, x);
    }
}

proof fn lemma_min_max_from_extreme(name: Seq<char>, acc: Q, rest: Seq<SValue>)
    requires
        name == "min"@ || name == "max"@,
        acc.d > 0,
        forall|j: int| 0 <= j < rest.len() ==> (#[trigger] rest[j] is Rational) && rest[j]->Rational_0.d > 0,
    ensures
        min_max_from(name, acc, rest) matches Ok(SValue::Rational(m)) && m.d > 0 && (m == acc || exists|j: int|
            0 <= j < rest.len() && rest[j] == SValue::Rational(m)) && kept_over(name, m, acc) && forall|j: int|
            0 <= j < rest.len() ==> kept_over(name, m, #[trigger] rest[j]->Rational_0),
    decreases rest.len(),
{
    reveal_strlit("min");
    reveal_strlit("max");
    assert("min"@[1] != "max"@[1]);
    lemma_q_lt_asymmetric(acc, acc);
    if rest.len() > 0 {
        assert(rest[0] is Rational);
        let v = rest[0]->Rational_0;
        lemma_q_lt_asymmetric(acc, v);
        lemma_q_lt_asymmetric(v, acc);
        let acc2 = if replaces(name, v, acc) {
            v
        } else {
            acc
        };
        let tail = rest.drop_first();
        assert forall|j: int| 0 <= j < tail.len() implies (#[trigger] tail[j] is Rational) && tail[j]->Rational_0.d > 0 by {
            assert(tail[j] == rest[j + 1]);
        }
        lemma_min_max_from_extreme(name, acc2, tail);
        let m = min_max_from(name, acc2, tail)->Ok_0->Rational_0;
        assert(kept_over(name, acc2, acc));
        assert(kept_over(name, acc2, v));
        lemma_kept_over_transitive(name, m, acc2, acc);
        lemma_kept_over_transitive(name, m, acc2, v);
        assert forall|j: int| 0 <= j < rest.len() implies kept_over(name, m, #[trigger] rest[j]->Rational_0) by {
            if j > 0 {
                assert(rest[j] == tail[j - 1]);
            }
        }
        if m != acc {
            if m == acc2 {
                assert(rest[0] == SValue::Rational(m));
            } else {
                let j = choose|j: int| 0 <= j < tail.len() && tail[j] == SValue::Rational(m);
                assert(rest[j + 1] == SValue::Rational(m));
            }
        }
    }
}

/// `max` of real scalars is one of them and no argument exceeds it; `min`
/// is one of them and no argument is below it.
pub proof fn lemma_min_max_extreme(name: Seq<char>, args: Seq<SValue>)
    requires
        name == "min"@ || name == "max"@,
        args.len() >= 2,
        forall|i: int| 0 <= i < args.len() ==> (#[trigger] args[i] is Rational) && args[i]->Rational_0.d > 0,
    ensures
        min_max(name, args) matches Ok(SValue::Rational(m)) && (exists|i: int|
            0 <= i < args.len() && args[i] == SValue::Rational(m)) && forall|i: int|
            0 <= i < args.len() ==> if name == "max"@ {
                !q_lt(m, #[trigger] args[i]->Rational_0)
            } else {
                !q_lt(args[i]->Rational_0, m)
            },
{
    assert(args[0] is Rational);
    let tail = args.drop_first();
    assert forall|j: int| 0 <= j < tail.len() implies (#[trigger] tail[j] is Rational) && tail[j]->Rational_0.d > 0 by {
        assert(tail[j] == args[j + 1]);
    }
    lemma_min_max_from_extreme(name, args[0]->Rational_0, tail);
    let m = min_max(name, args)->Ok_0->Rational_0;
    assert forall|i: int| 0 <= i < args.len() implies kept_over(name, m, #[trigger] args[i]->Rational_0) by {
        if i > 0 {
            assert(args[i] == tail[i - 1]);
        }
    }
    if m != args[0]->Rational_0 {
        let j = choose|j: int| 0 <= j < tail.len() && tail[j] == SValue::Rational(m);
        assert(args[j + 1] == SValue::Rational(m));
    }
}

pub fn min_max_exec(name: &str, args: &Vec<Value>) -> (r: Result<Value, Diagnostic>)
    requires
        all_wf(values_view(args@)),
    ensures
        rv(r) == min_max(name@, values_view(args@)),
        r matches Ok(x) ==> value_wf(x@),
{
    let ghost vs = values_view(args@);
    if args.len() < 2 {
        return Err(err0(DiagnosticKind::Parse, "Expected at least two arguments."));
    }
    let mut result = match &args[0] {
        Value::Rational(a) => rat_clone(a),
        _ => {
            return Err(err0(DiagnosticKind::Unsupported, "min and max require real scalars."));
        },
    };
    let is_min = str_eq(name, "min");
    let is_max = str_eq(name, "max");
    assert(vs.drop_first() == vs.skip(1));
    assert(value_wf(vs[0]));
    let mut i: usize = 1;
    while i < args.len()
        invariant
            1 <= i <= args@.len(),
            vs == values_view(args@),
            all_wf(vs),
            is_min == (name@ == "min"@),
            is_max == (name@ == "max"@),
            result@.d > 0,
            min_max_from(name@, result@, vs.skip(i as int)) == min_max(name@, vs),
        decreases args@.len() - i,
    {
        assert(vs.skip(i as int)[0] == vs[i as int]);
        assert(vs.skip(i as int).drop_first() == vs.skip(i + 1));
        assert(value_wf(vs[i as int]));
        match &args[i] {
            Value::Rational(v) => {
                if (is_min && rat_lt(v, &result)) || (is_max && rat_lt(&result, v)) {
                    result = rat_clone(v);
                }
            },
            _ => {
                return Err(err0(DiagnosticKind::Unsupported, "min and max require real scalars."));
            },
        }
        i = i + 1;
    }
    assert(vs.skip(i as int).len() == 0);
    Ok(Value::Rational(result))
}

} // verus!
