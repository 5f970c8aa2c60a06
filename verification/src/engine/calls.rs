//! Square roots, transcendental functions, named constants and the dispatch
//! of function calls.
use vstd::prelude::*;
use crate::bignum::{
    Int, Q, abs, int_add, int_clone, int_div, int_eq, int_from_u64, int_lt, int_mul, int_neg,
    lemma_tdiv_nonneg, lemma_tdiv_one, q_abs, q_int, rat_abs, rat_from_int, rat_is_integer,
    rat_eq, rat_is_negative, rat_lt, rat_to_integer,
};
use crate::float::{
    FTerm, Float, float_cbrt, float_clone, float_cos, float_e, float_exp, float_from_u64, float_ln,
    float_log, float_log10, float_log2, float_mul, float_pi, float_sin, float_sqrt, float_tan,
};
use crate::engine::types::{DiagView, Diagnostic, DiagnosticKind, dg, err, err0};
use crate::engine::value::{SValue, Value, values_view};
use crate::engine::ops::{consts, ok_or_fail, rational_float, rational_float_exec, res_fail, rv, value_wf};
use crate::engine::funcs::{
    all_wf, arity_error, arity_error_exec, combinatoric, combinatoric_exec, integer_pair,
    integer_pair_exec, min_max, min_max_exec,
};
use crate::text::{push_str, str_eq, string_from};

verus! {

/// `r` is the integer square root of `n`, rounded down.
pub open spec fn is_floor_sqrt(n: int, r: int) -> bool {
    0 <= r && r * r <= n && n < (r + 1) * (r + 1)
}

/// The integer square root of `n`, rounded down.
pub open spec fn floor_sqrt(n: int) -> int {
    choose|r: int| is_floor_sqrt(n, r)
}

proof fn lemma_floor_sqrt_unique(n: int, r: int, s: int)
    requires
        is_floor_sqrt(n, r),
        is_floor_sqrt(n, s),
    ensures
        r == s,
{
    if r < s {
        assert((r + 1) * (r + 1) <= s * s) by (nonlinear_arith)
            requires
                0 <= r,
                r + 1 <= s,
        ;
    }
    if s < r {
        assert((s + 1) * (s + 1) <= r * r) by (nonlinear_arith)
            requires
                0 <= s,
                s + 1 <= r,
        ;
    }
}

/// A witness fixes `floor_sqrt`.
proof fn lemma_floor_sqrt(n: int, r: int)
    requires
        is_floor_sqrt(n, r),
    ensures
        floor_sqrt(n) == r,
{
    let s = floor_sqrt(n);
    assert(is_floor_sqrt(n, s));
    lemma_floor_sqrt_unique(n, r, s);
}

/// One Newton step keeps the estimate at or above the root:
/// `((x + q + 1) / 2)^2 >= x (q + 1) > n`.
proof fn lemma_newton_step(n: int, x: int, q: int, y: int)
    requires
        x >= 1,
        q >= 0,
        n < (q + 1) * x,
        2 * (y + 1) >= x + q + 1,
        y >= 0,
    ensures
        n < (y + 1) * (y + 1),
{
    assert(4 * ((y + 1) * (y + 1)) >= (x + q + 1) * (x + q + 1)) by (nonlinear_arith)
        requires
            2 * (y + 1) >= x + q + 1,
            x + q + 1 >= 0,
    ;
    assert((x + q + 1) * (x + q + 1) >= 4 * (x * (q + 1))) by (nonlinear_arith)
        requires
            x >= 1,
            q >= 0,
    ;
    assert(x * (q + 1) == (q + 1) * x) by (nonlinear_arith);
}

/// `isqrt`: Newton's iteration from `n` down to the integer square root; a
/// negative argument counts as zero.
pub fn isqrt(n: &Int) -> (r: Int)
    ensures
        is_floor_sqrt(if n@ < 0 { 0 } else { n@ }, r@),
{
    let zero = int_from_u64(0);
    if !int_lt(&zero, n) {
        return zero;
    }
    let one = int_from_u64(1);
    let two = int_from_u64(2);
    let ghost big = n@;
    let mut x = int_clone(n);
    proof {
        vstd::arithmetic::div_mod::lemma_div_basics(big);
        lemma_tdiv_nonneg(x@ + 1, 2);
    }
    let mut y = int_div(&int_add(&x, &one), &two);
    assert(big < (x@ + 1) * (x@ + 1)) by (nonlinear_arith)
        requires
            x@ == big,
            big >= 1,
    ;
    assert(y@ == (x@ + big / x@) / 2);
    while int_lt(&y, &x)
        invariant
            big == n@,
            big >= 1,
            x@ >= 1,
            big < (x@ + 1) * (x@ + 1),
            y@ == (x@ + big / x@) / 2,
            two@ == 2,
        decreases x@,
    {
        let ghost q = big / x@;
        proof {
            vstd::arithmetic::div_mod::lemma_fundamental_div_mod(big, x@);
            assert(big < (q + 1) * x@) by (nonlinear_arith)
                requires
                    big == x@ * q + big % x@,
                    big % x@ < x@,
            ;
            assert(q >= 0) by (nonlinear_arith)
                requires
                    big >= 0,
                    x@ >= 1,
                    q == big / x@,
            ;
            lemma_newton_step(big, x@, q, y@);
            if y@ < 1 {
                assert((y@ + 1) * (y@ + 1) <= 1) by (nonlinear_arith)
                    requires
                        0 <= y@ < 1,
                ;
            }
        }
        x = y;
        proof {
            lemma_tdiv_nonneg(big, x@);
        }
        let quotient = int_div(n, &x);
        proof {
            assert(quotient@ >= 0) by (nonlinear_arith)
                requires
                    big >= 0,
                    x@ >= 1,
                    quotient@ == big / x@,
            ;
            lemma_tdiv_nonneg(x@ + quotient@, 2);
        }
        y = int_div(&int_add(&x, &quotient), &two);
    }
    proof {
        let q = big / x@;
        vstd::arithmetic::div_mod::lemma_fundamental_div_mod(big, x@);
        assert(x@ * x@ <= big) by (nonlinear_arith)
            requires
                (x@ + q) / 2 >= x@,
                big == x@ * q + big % x@,
                big % x@ >= 0,
                x@ >= 1,
        ;
    }
    x
}

pub open spec fn complex_function_error() -> DiagView {
    dg(DiagnosticKind::Unsupported, "Transcendental complex functions are unsupported."@)
}

/// `sqrt_value`: exact roots of perfect squares (imaginary for negative
/// integers), an approximation otherwise.
pub open spec fn sqrt_value(v: SValue) -> Result<SValue, DiagView> {
    match v {
        SValue::Rational(q) => if q.d == 1 && q.n < 0 && floor_sqrt(-q.n) * floor_sqrt(-q.n) == -q.n {
            Ok(SValue::Complex(q_int(0), q_int(floor_sqrt(-q.n))))
        } else if q.d == 1 && q.n >= 0 && floor_sqrt(q.n) * floor_sqrt(q.n) == q.n {
            Ok(SValue::Rational(q_int(floor_sqrt(q.n))))
        } else {
            Ok(SValue::Approx(FTerm::Sqrt(Box::new(rational_float(q)))))
        },
        _ => Err(complex_function_error()),
    }
}

pub fn sqrt_value_exec(v: &Value) -> (r: Result<Value, Diagnostic>)
    requires
        value_wf(v@),
    ensures
        ok_or_fail(rv(r), sqrt_value(v@)),
        !(sqrt_value(v@) matches Ok(SValue::Approx(_))) ==> rv(r) == sqrt_value(v@),
        r matches Ok(x) ==> value_wf(x@),
{
    let q = match v {
        Value::Rational(q) => q,
        _ => {
            return Err(err0(DiagnosticKind::Unsupported, "Transcendental complex functions are unsupported."));
        },
    };
    if rat_is_integer(q) {
        let n = rat_to_integer(q);
        proof {
            lemma_tdiv_one(q@.n);
        }
        if rat_is_negative(q) {
            let m = int_neg(&n);
            let root = isqrt(&m);
            proof {
                lemma_floor_sqrt(-q@.n, root@);
            }
            if int_eq(&int_mul(&root, &root), &m) {
                return Ok(Value::Complex(rat_from_int(&int_from_u64(0)), rat_from_int(&root)));
            }
        } else {
            let root = isqrt(&n);
            proof {
                lemma_floor_sqrt(q@.n, root@);
            }
            if int_eq(&int_mul(&root, &root), &n) {
                return Ok(Value::Rational(rat_from_int(&root)));
            }
        }
    }
    let x = rational_float_exec(q)?;
    Ok(Value::Approx(float_sqrt(&x)))
}

/// `scalar_float`: a real value as an approximation.
pub open spec fn scalar_float(v: SValue) -> Result<FTerm, DiagView> {
    match v {
        SValue::Rational(q) => Ok(rational_float(q)),
        SValue::Approx(t) => Ok(t),
        _ => Err(complex_function_error()),
    }
}

pub fn scalar_float_exec(v: &Value) -> (r: Result<Float, Diagnostic>)
    ensures
        match r {
            Ok(x) => scalar_float(v@) == Ok::<FTerm, DiagView>(x@),
            Err(d) => scalar_float(v@) == Err::<FTerm, DiagView>(d@) || res_fail(d@),
        },
{
    match v {
        Value::Rational(q) => rational_float_exec(q),
        Value::Approx(x) => Ok(float_clone(x)),
        _ => Err(err0(DiagnosticKind::Unsupported, "Transcendental complex functions are unsupported.")),
    }
}

pub open spec fn is_log_name(name: Seq<char>) -> bool {
    name == "ln"@ || name == "log"@ || name == "log10"@ || name == "log2"@
}

pub open spec fn is_transcendental_name(name: Seq<char>) -> bool {
    is_log_name(name) || name == "sin"@ || name == "cos"@ || name == "tan"@ || name == "exp"@
        || name == "cbrt"@
}

/// The function `name` of one argument applied to `x`.
pub open spec fn transcendental_term(name: Seq<char>, x: FTerm) -> FTerm {
    if name == "sin"@ {
        FTerm::Sin(Box::new(x))
    } else if name == "cos"@ {
        FTerm::Cos(Box::new(x))
    } else if name == "tan"@ {
        FTerm::Tan(Box::new(x))
    } else if name == "ln"@ {
        FTerm::Ln(Box::new(x))
    } else if name == "log"@ || name == "log10"@ {
        FTerm::Log10(Box::new(x))
    } else if name == "log2"@ {
        FTerm::Log2(Box::new(x))
    } else if name == "exp"@ {
        FTerm::Exp(Box::new(x))
    } else {
        FTerm::Cbrt(Box::new(x))
    }
}

/// `transcendental`: logarithms refuse a real argument that is not
/// positive; `log` of two arguments takes the second as the base.
pub open spec fn transcendental(name: Seq<char>, args: Seq<SValue>) -> Result<SValue, DiagView> {
    if is_log_name(name) && args.len() > 0 && (args[0] matches SValue::Rational(q) && q.n <= 0) {
        Err(dg(DiagnosticKind::Domain, "Logarithm requires a positive value."@))
    } else if name == "log"@ && args.len() == 2 {
        match scalar_float(args[0]) {
            Err(e) => Err(e),
            Ok(x) => match scalar_float(args[1]) {
                Err(e) => Err(e),
                Ok(b) => Ok(SValue::Approx(FTerm::Log(Box::new(x), Box::new(b)))),
            },
        }
    } else if args.len() != 1 {
        Err(arity_error(name, 1))
    } else {
        match scalar_float(args[0]) {
            Err(e) => Err(e),
            Ok(x) => Ok(SValue::Approx(transcendental_term(name, x))),
        }
    }
}

/// The arguments reach an approximate computation: neither the logarithm's
/// sign check nor the arity check refuses them first.
pub open spec fn transcendental_floats(name: Seq<char>, args: Seq<SValue>) -> bool {
    &&& !(is_log_name(name) && args.len() > 0 && (args[0] matches SValue::Rational(q) && q.n <= 0))
    &&& (name == "log"@ && args.len() == 2 || args.len() == 1)
}

pub fn transcendental_exec(name: &str, args: &Vec<Value>) -> (r: Result<Value, Diagnostic>)
    requires
        is_transcendental_name(name@),
        all_wf(values_view(args@)),
    ensures
        ok_or_fail(rv(r), transcendental(name@, values_view(args@))),
        !transcendental_floats(name@, values_view(args@)) ==> rv(r) == transcendental(
            name@,
            values_view(args@),
        ),
        r matches Ok(x) ==> value_wf(x@),
{
    let ghost vs = values_view(args@);
    let is_log = str_eq(name, "ln") || str_eq(name, "log") || str_eq(name, "log10") || str_eq(
        name,
        "log2",
    );
    if is_log && args.len() > 0 {
        assert(value_wf(vs[0]));
        if let Value::Rational(q) = &args[0] {
            let zero = rat_from_int(&int_from_u64(0));
            if rat_lt(q, &zero) || rat_eq(q, &zero) {
                return Err(err0(DiagnosticKind::Domain, "Logarithm requires a positive value."));
            }
            assert(q@.n > 0) by (nonlinear_arith)
                requires
                    !((q@.n * 1 - 0 * q@.d) * (q@.d * 1) < 0),
                    !(q@.n * 1 == 0 * q@.d),
                    q@.d > 0,
            ;
        }
    }
    if str_eq(name, "log") && args.len() == 2 {
        let value = scalar_float_exec(&args[0])?;
        let base = scalar_float_exec(&args[1])?;
        let mut cc = consts()?;
        return Ok(Value::Approx(float_log(&value, &base, &mut cc)));
    }
    if args.len() != 1 {
        return Err(arity_error_exec(name, 1));
    }
    let value = scalar_float_exec(&args[0])?;
    let mut cc = consts()?;
    let result = if str_eq(name, "sin") {
        float_sin(&value, &mut cc)
    } else if str_eq(name, "cos") {
        float_cos(&value, &mut cc)
    } else if str_eq(name, "tan") {
        float_tan(&value, &mut cc)
    } else if str_eq(name, "ln") {
        float_ln(&value, &mut cc)
    } else if str_eq(name, "log") || str_eq(name, "log10") {
        float_log10(&value, &mut cc)
    } else if str_eq(name, "log2") {
        float_log2(&value, &mut cc)
    } else if str_eq(name, "exp") {
        float_exp(&value, &mut cc)
    } else {
        float_cbrt(&value)
    };
    Ok(Value::Approx(result))
}

/// `approx_const`: the constants `pi`, `e` and `tau`.
pub open spec fn approx_const(name: Seq<char>) -> Result<SValue, DiagView> {
    if name == "pi"@ {
        Ok(SValue::Approx(FTerm::Pi))
    } else if name == "e"@ {
        Ok(SValue::Approx(FTerm::Euler))
    } else if name == "tau"@ {
        Ok(SValue::Approx(FTerm::Mul(Box::new(FTerm::Pi), Box::new(FTerm::Word(2)))))
    } else {
        Err(dg(DiagnosticKind::UnknownIdentifier, "Unknown constant."@))
    }
}

pub fn approx_const_exec(name: &str) -> (r: Result<Value, Diagnostic>)
    ensures
        ok_or_fail(rv(r), approx_const(name@)),
        !(name@ == "pi"@ || name@ == "e"@ || name@ == "tau"@) ==> rv(r) == approx_const(name@),
        r matches Ok(x) ==> value_wf(x@),
{
    if !(str_eq(name, "pi") || str_eq(name, "e") || str_eq(name, "tau")) {
        return Err(err0(DiagnosticKind::UnknownIdentifier, "Unknown constant."));
    }
    let mut cc = consts()?;
    if str_eq(name, "pi") {
        Ok(Value::Approx(float_pi(&mut cc)))
    } else if str_eq(name, "e") {
        Ok(Value::Approx(float_e(&mut cc)))
    } else if str_eq(name, "tau") {
        let pi = float_pi(&mut cc);
        Ok(Value::Approx(float_mul(&pi, &float_from_u64(2))))
    } else {
        Err(err0(DiagnosticKind::UnknownIdentifier, "Unknown constant."))
    }
}

/// `function`: a call of a named function on evaluated arguments.
#[verifier::opaque]
pub open spec fn function(name: Seq<char>, args: Seq<SValue>) -> Result<SValue, DiagView> {
    if args.len() == 0 {
        Err(dg(DiagnosticKind::Parse, "Expected an argument."@))
    } else if name == "sqrt"@ {
        sqrt_value(args[0])
    } else if name == "abs"@ {
        match args[0] {
            SValue::Rational(q) => Ok(SValue::Rational(q_abs(q))),
            _ => Err(dg(DiagnosticKind::Unsupported, "abs requires a real scalar."@)),
        }
    } else if name == "gcd"@ || name == "lcm"@ {
        integer_pair(name, args)
    } else if name == "nCr"@ || name == "nPr"@ {
        combinatoric(name, args)
    } else if name == "min"@ || name == "max"@ {
        min_max(name, args)
    } else if is_transcendental_name(name) {
        transcendental(name, args)
    } else {
        Err(dg(DiagnosticKind::UnknownIdentifier, "Unknown function: "@ + name + "."@))
    }
}

/// The call reaches an approximate computation: an inexact square root or
/// a transcendental function that its checks let through.
pub open spec fn function_floats(name: Seq<char>, args: Seq<SValue>) -> bool {
    &&& args.len() > 0
    &&& (name == "sqrt"@ && sqrt_value(args[0]) matches Ok(SValue::Approx(_)) || is_transcendental_name(
        name,
    ) && transcendental_floats(name, args))
}

pub fn function_exec(name: &str, args: &Vec<Value>) -> (r: Result<Value, Diagnostic>)
    requires
        all_wf(values_view(args@)),
    ensures
        ok_or_fail(rv(r), function(name@, values_view(args@))),
        !function_floats(name@, values_view(args@)) ==> rv(r) == function(name@, values_view(args@)),
        r matches Ok(x) ==> value_wf(x@),
{
    reveal(function);
    let ghost vs = values_view(args@);
    if args.len() == 0 {
        return Err(err0(DiagnosticKind::Parse, "Expected an argument."));
    }
    assert(value_wf(vs[0]));
    if str_eq(name, "sqrt") {
        sqrt_value_exec(&args[0])
    } else if str_eq(name, "abs") {
        match &args[0] {
            Value::Rational(q) => Ok(Value::Rational(rat_abs(q))),
            _ => Err(err0(DiagnosticKind::Unsupported, "abs requires a real scalar.")),
        }
    } else if str_eq(name, "gcd") || str_eq(name, "lcm") {
        integer_pair_exec(name, args)
    } else if str_eq(name, "nCr") || str_eq(name, "nPr") {
        combinatoric_exec(name, args)
    } else if str_eq(name, "min") || str_eq(name, "max") {
        min_max_exec(name, args)
    } else if str_eq(name, "sin") || str_eq(name, "cos") || str_eq(name, "tan") || str_eq(name, "ln")
        || str_eq(name, "log") || str_eq(name, "log10") || str_eq(name, "log2") || str_eq(
        name,
        "exp",
    ) || str_eq(name, "cbrt") {
        transcendental_exec(name, args)
    } else {
        let mut m = string_from("Unknown function: ");
        push_str(&mut m, name);
        push_str(&mut m, ".");
        Err(err(DiagnosticKind::UnknownIdentifier, m, 0, 0))
    }
}

} // verus!
