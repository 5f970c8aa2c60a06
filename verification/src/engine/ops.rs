//! Arithmetic on calculator values: operators, powers, functions, unit
//! conversion.
use vstd::prelude::*;
use astro_float::Consts;
use crate::bignum::{
    Int, Q, Rat, abs, gcd, int_add, int_clone, int_div, int_eq, int_from_u64, int_lt, int_mul,
    int_neg, int_rem, int_sub, int_text, int_to_i32, int_to_text, int_to_u64, lemma_gcd,
    lemma_normalize, lemma_nonzero_product, lemma_normalize_value, lemma_q_add_congruent,
    lemma_q_eq_transitive, lemma_q_mul_congruent, lemma_q_mul_value, lemma_q_sub_congruent, normalize, q_abs, q_add, q_div, q_eq, q_int, q_mul, q_neg, q_pow, q_recip,
    q_sub, rat_abs, rat_add, rat_clone, rat_denom, rat_div, rat_eq, rat_from_int, rat_is_integer,
    rat_is_zero, rat_lt, rat_mul, rat_neg, rat_new, rat_numer, rat_pow, rat_recip, rat_sub,
    rat_to_integer, tdiv, trem,
};
use crate::float::{
    FTerm, Float, consts_new, float_add, float_cbrt, float_clone, float_cos, float_div, float_e,
    float_exp, float_from_u64, float_ln, float_log, float_log10, float_log2, float_mul,
    float_parse_decimal, float_pi, float_sin, float_sqrt, float_sub, float_tan,
};
use crate::engine::types::{DiagView, Diagnostic, DiagnosticKind, dg, err0};
use crate::engine::value::{SValue, Value, value_clone};
use crate::engine::units::{SUnit, UnitDef, q_pos, unit_expression, unit_expression_exec};
use crate::text::{push_str, range_is, string_of};

verus! {

/// Failures that come from the machine rather than the input: the
/// constants cache or the decimal text of a result could not be produced.
pub open spec fn res_fail(d: DiagView) -> bool {
    d == dg(DiagnosticKind::Limit, "Constants unavailable."@) || d == dg(
        DiagnosticKind::Domain,
        "Could not format result."@,
    )
}

/// `r` is the specified result `s`, or a failure of the machine.
pub open spec fn ok_or_fail<T>(r: Result<T, DiagView>, s: Result<T, DiagView>) -> bool {
    r == s || (r matches Err(d) && res_fail(d))
}

pub open spec fn rv(r: Result<Value, Diagnostic>) -> Result<SValue, DiagView> {
    match r {
        Ok(v) => Ok(v@),
        Err(d) => Err(d@),
    }
}

/// A value whose rationals have positive denominators and whose quantities
/// carry eight exponents and a positive scale.
pub open spec fn value_wf(v: SValue) -> bool {
    match v {
        SValue::Rational(q) => q.d > 0,
        SValue::Complex(a, b) => a.d > 0 && b.d > 0,
        SValue::Quantity(n, d, _, s, _) => n.d > 0 && d.len() == 8 && q_pos(s),
        SValue::Approx(_) => true,
    }
}

/// `rational_float`: numerator and denominator parsed from their decimal
/// text, then divided.
pub open spec fn rational_float(q: Q) -> FTerm {
    FTerm::Div(Box::new(FTerm::Decimal(int_text(q.n))), Box::new(FTerm::Decimal(int_text(q.d))))
}

pub fn consts() -> (r: Result<Consts, Diagnostic>)
    ensures
        r matches Err(d) ==> d@ == dg(DiagnosticKind::Limit, "Constants unavailable."@),
{
    match consts_new() {
        Some(cc) => Ok(cc),
        None => Err(err0(DiagnosticKind::Limit, "Constants unavailable.")),
    }
}

pub fn rational_float_exec(q: &Rat) -> (r: Result<Float, Diagnostic>)
    ensures
        r matches Ok(x) ==> x@ == rational_float(q@),
        r matches Err(d) ==> res_fail(d@),
{
    let mut cc = consts()?;
    let n = float_parse_decimal(&int_to_text(&rat_numer(q)), &mut cc);
    let d = float_parse_decimal(&int_to_text(&rat_denom(q)), &mut cc);
    Ok(float_div(&n, &d))
}

pub open spec fn approx_binary(a: FTerm, b: FTerm, op: char) -> Result<SValue, DiagView> {
    if op == '+' {
        Ok(SValue::Approx(FTerm::Add(Box::new(a), Box::new(b))))
    } else if op == '-' {
        Ok(SValue::Approx(FTerm::Sub(Box::new(a), Box::new(b))))
    } else if op == '*' {
        Ok(SValue::Approx(FTerm::Mul(Box::new(a), Box::new(b))))
    } else if op == '/' {
        Ok(SValue::Approx(FTerm::Div(Box::new(a), Box::new(b))))
    } else {
        Err(dg(DiagnosticKind::Parse, "Invalid operator."@))
    }
}

fn approx_binary_exec(a: &Float, b: &Float, op: char) -> (r: Result<Value, Diagnostic>)
    ensures
        rv(r) == approx_binary(a@, b@, op),
{
    if op == '+' {
        Ok(Value::Approx(float_add(a, b)))
    } else if op == '-' {
        Ok(Value::Approx(float_sub(a, b)))
    } else if op == '*' {
        Ok(Value::Approx(float_mul(a, b)))
    } else if op == '/' {
        Ok(Value::Approx(float_div(a, b)))
    } else {
        Err(err0(DiagnosticKind::Parse, "Invalid operator."))
    }
}

/// Complex arithmetic on (real, imaginary) pairs.
pub open spec fn complex_op(ar: Q, ai: Q, br: Q, bi: Q, op: char) -> Result<SValue, DiagView> {
    if op == '+' {
        Ok(SValue::Complex(q_add(ar, br), q_add(ai, bi)))
    } else if op == '-' {
        Ok(SValue::Complex(q_sub(ar, br), q_sub(ai, bi)))
    } else if op == '*' {
        Ok(
            SValue::Complex(
                q_sub(q_mul(ar, br), q_mul(ai, bi)),
                q_add(q_mul(ar, bi), q_mul(ai, br)),
            ),
        )
    } else {
        Err(dg(DiagnosticKind::Unsupported, "Unsupported complex operation."@))
    }
}

fn complex_op_exec(ar: &Rat, ai: &Rat, br: &Rat, bi: &Rat, op: char) -> (r: Result<Value, Diagnostic>)
    ensures
        rv(r) == complex_op(ar@, ai@, br@, bi@, op),
        r matches Ok(v) ==> value_wf(v@),
{
    if op == '+' {
        Ok(Value::Complex(rat_add(ar, br), rat_add(ai, bi)))
    } else if op == '-' {
        Ok(Value::Complex(rat_sub(ar, br), rat_sub(ai, bi)))
    } else if op == '*' {
        Ok(
            Value::Complex(
                rat_sub(&rat_mul(ar, br), &rat_mul(ai, bi)),
                rat_add(&rat_mul(ar, bi), &rat_mul(ai, br)),
            ),
        )
    } else {
        Err(err0(DiagnosticKind::Unsupported, "Unsupported complex operation."))
    }
}

/// `canonical_unit`: the unit written for a product or quotient.
pub open spec fn canonical_unit(dim: Seq<i8>, left: Seq<char>, right: Seq<char>, op: char) -> Seq<
    char,
> {
    if dim == seq![2i8, 0i8, 0i8, 0i8, 0i8, 0i8, 0i8, 0i8] {
        "m²"@
    } else {
        left + seq![op] + right
    }
}

pub fn canonical_unit_exec(dim: &Vec<i8>, left: &String, right: &String, op: char) -> (r: String)
    ensures
        r@ == canonical_unit(dim@, left@, right@, op),
{
    if dim.len() == 8 && dim[0] == 2 && dim[1] == 0 && dim[2] == 0 && dim[3] == 0 && dim[4] == 0
        && dim[5] == 0 && dim[6] == 0 && dim[7] == 0 {
        assert(dim@ == seq![2i8, 0i8, 0i8, 0i8, 0i8, 0i8, 0i8, 0i8]);
        crate::text::string_from("m²")
    } else {
        assert(dim@ != seq![2i8, 0i8, 0i8, 0i8, 0i8, 0i8, 0i8, 0i8] ) by {
            if dim@ == seq![2i8, 0i8, 0i8, 0i8, 0i8, 0i8, 0i8, 0i8] {
                assert(dim@[0] == 2 && dim@[7] == 0);
            }
        }
        let mut s = left.clone();
        crate::text::push_char(&mut s, op);
        push_str(&mut s, right.as_str());
        s
    }
}

pub open spec fn affine_error() -> DiagView {
    dg(DiagnosticKind::Domain, "Affine temperature units can only be converted."@)
}

pub open spec fn div_zero() -> DiagView {
    dg(DiagnosticKind::Domain, "Division by zero."@)
}

/// Exponents added, or subtracted for a quotient, wrapping as `i8`.
pub open spec fn combine_dims(d: Seq<i8>, e: Seq<i8>, op: char) -> Seq<i8> {
    Seq::new(
        8,
        |i: int|
            if op == '*' {
                d[i].wrapping_add(e[i])
            } else {
                d[i].wrapping_sub(e[i])
            },
    )
}

/// Exponents negated, wrapping as `i8`.
pub open spec fn negate_dims(d: Seq<i8>) -> Seq<i8> {
    Seq::new(8, |i: int| 0i8.wrapping_sub(d[i]))
}

/// `binary`: an arithmetic operator applied to two values.
#[verifier::opaque]
pub open spec fn binary(a: SValue, b: SValue, op: char) -> Result<SValue, DiagView> {
    match (a, b) {
        (SValue::Rational(a), SValue::Rational(b)) => if op == '+' {
            Ok(SValue::Rational(q_add(a, b)))
        } else if op == '-' {
            Ok(SValue::Rational(q_sub(a, b)))
        } else if op == '*' {
            Ok(SValue::Rational(q_mul(a, b)))
        } else if op == '/' {
            if b.n == 0 {
                Err(div_zero())
            } else {
                Ok(SValue::Rational(q_div(a, b)))
            }
        } else {
            Err(dg(DiagnosticKind::Parse, "Invalid operator."@))
        },
        (SValue::Approx(a), SValue::Rational(b)) => approx_binary(a, rational_float(b), op),
        (SValue::Rational(a), SValue::Approx(b)) => approx_binary(rational_float(a), b, op),
        (SValue::Approx(a), SValue::Approx(b)) => approx_binary(a, b, op),
        (SValue::Complex(ar, ai), SValue::Complex(br, bi)) => complex_op(ar, ai, br, bi, op),
        (SValue::Complex(ar, ai), SValue::Rational(b)) => complex_op(ar, ai, b, q_int(0), op),
        (SValue::Rational(a), SValue::Complex(br, bi)) => complex_op(a, q_int(0), br, bi, op),
        (SValue::Quantity(a, d, u, scale, aff), SValue::Quantity(b, bd, bu, bscale, baff)) => {
            if aff || baff {
                Err(affine_error())
            } else if op == '+' || op == '-' {
                if d != bd {
                    Err(dg(DiagnosticKind::Dimension, "Incompatible dimensions."@))
                } else {
                    let cb = q_div(q_mul(b, bscale), scale);
                    Ok(
                        SValue::Quantity(
                            if op == '+' {
                                q_add(a, cb)
                            } else {
                                q_sub(a, cb)
                            },
                            d,
                            u,
                            scale,
                            false,
                        ),
                    )
                }
            } else if op == '*' || op == '/' {
                if op == '/' && b.n == 0 {
                    Err(div_zero())
                } else {
                    let dim = combine_dims(d, bd, op);
                    let scalar = if op == '*' {
                        q_mul(q_mul(q_mul(a, scale), b), bscale)
                    } else {
                        q_div(q_mul(a, scale), q_mul(b, bscale))
                    };
                    Ok(SValue::Quantity(scalar, dim, canonical_unit(dim, u, bu, op), q_int(1), false))
                }
            } else {
                Err(dg(DiagnosticKind::Parse, "Invalid operator."@))
            }
        },
        (SValue::Quantity(a, d, u, scale, aff), SValue::Rational(b)) => {
            if aff {
                Err(affine_error())
            } else if op == '*' {
                Ok(SValue::Quantity(q_mul(a, b), d, u, scale, false))
            } else if op == '/' {
                if b.n == 0 {
                    Err(div_zero())
                } else {
                    Ok(SValue::Quantity(q_div(a, b), d, u, scale, false))
                }
            } else {
                Err(dg(DiagnosticKind::Dimension, "Quantities require compatible units."@))
            }
        },
        (SValue::Rational(a), SValue::Quantity(b, d, u, scale, aff)) => {
            if aff {
                Err(affine_error())
            } else if op == '*' {
                Ok(SValue::Quantity(q_mul(a, b), d, u, scale, false))
            } else if op == '/' {
                if b.n == 0 {
                    Err(div_zero())
                } else {
                    Ok(
                        SValue::Quantity(
                            q_div(a, q_mul(b, scale)),
                            negate_dims(d),
                            "1/"@ + u,
                            q_int(1),
                            false,
                        ),
                    )
                }
            } else {
                Err(dg(DiagnosticKind::Dimension, "Quantities require compatible units."@))
            }
        },
        _ => Err(dg(DiagnosticKind::Unsupported, "Unsupported operation."@)),
    }
}

/// `x ± y / s`, scaled by `s`, has the value of `x * s ± y`.
proof fn lemma_rescaled_sum(x: Q, y: Q, s: Q, plus: bool)
    requires
        x.d > 0,
        y.d > 0,
        s.n > 0,
        s.d > 0,
    ensures
        q_eq(
            q_mul(
                if plus {
                    q_add(x, q_div(y, s))
                } else {
                    q_sub(x, q_div(y, s))
                },
                s,
            ),
            if plus {
                q_add(q_mul(x, s), y)
            } else {
                q_sub(q_mul(x, s), y)
            },
        ),
{
    let e = q_div(y, s);
    let ee = Q { n: y.n * s.d, d: y.d * s.n };
    lemma_nonzero_product(y.d, s.n);
    lemma_normalize_value(y.n * s.d, y.d * s.n);
    lemma_nonzero_product(x.d, ee.d);
    let f = if plus {
        q_add(x, e)
    } else {
        q_sub(x, e)
    };
    let ff = if plus {
        Q { n: x.n * ee.d + ee.n * x.d, d: x.d * ee.d }
    } else {
        Q { n: x.n * ee.d - ee.n * x.d, d: x.d * ee.d }
    };
    if plus {
        lemma_q_add_congruent(x, e, x, ee);
        lemma_normalize_value(ff.n, ff.d);
        lemma_q_eq_transitive(f, q_add(x, ee), ff);
    } else {
        lemma_q_sub_congruent(x, e, x, ee);
        lemma_normalize_value(ff.n, ff.d);
        lemma_q_eq_transitive(f, q_sub(x, ee), ff);
    }
    let l = q_mul(f, s);
    let ll = Q { n: ff.n * s.n, d: ff.d * s.d };
    lemma_nonzero_product(ff.d, s.d);
    lemma_q_mul_congruent(f, s, ff, s);
    lemma_normalize_value(ll.n, ll.d);
    lemma_q_eq_transitive(l, q_mul(ff, s), ll);
    let g = q_mul(x, s);
    let gg = Q { n: x.n * s.n, d: x.d * s.d };
    lemma_nonzero_product(x.d, s.d);
    lemma_normalize_value(gg.n, gg.d);
    let r = if plus {
        q_add(g, y)
    } else {
        q_sub(g, y)
    };
    let rr = if plus {
        Q { n: gg.n * y.d + y.n * gg.d, d: gg.d * y.d }
    } else {
        Q { n: gg.n * y.d - y.n * gg.d, d: gg.d * y.d }
    };
    lemma_nonzero_product(gg.d, y.d);
    if plus {
        lemma_q_add_congruent(g, y, gg, y);
        lemma_normalize_value(rr.n, rr.d);
        lemma_q_eq_transitive(r, q_add(gg, y), rr);
    } else {
        lemma_q_sub_congruent(g, y, gg, y);
        lemma_normalize_value(rr.n, rr.d);
        lemma_q_eq_transitive(r, q_sub(gg, y), rr);
    }
    assert(ll.d == rr.d * s.n) by (nonlinear_arith)
        requires
            ll.d == (x.d * (y.d * s.n)) * s.d,
            rr.d == (x.d * s.d) * y.d,
    ;
    assert(ll.n == rr.n * s.n) by (nonlinear_arith)
        requires
            plus ==> ll.n == (x.n * (y.d * s.n) + (y.n * s.d) * x.d) * s.n,
            !plus ==> ll.n == (x.n * (y.d * s.n) - (y.n * s.d) * x.d) * s.n,
            plus ==> rr.n == (x.n * s.n) * y.d + y.n * (x.d * s.d),
            !plus ==> rr.n == (x.n * s.n) * y.d - y.n * (x.d * s.d),
    ;
    assert(ll.n * rr.d == rr.n * ll.d) by (nonlinear_arith)
        requires
            ll.d == rr.d * s.n,
            ll.n == rr.n * s.n,
    ;
    lemma_q_eq_transitive(l, ll, rr);
    lemma_q_eq_transitive(l, rr, r);
}

/// Adding or subtracting quantities of one dimension works on the amounts
/// they denote. The result is written in the left operand's unit, and its
/// amount in base units is the sum, or difference, of the operands' amounts
/// in base units, whatever unit each operand is written in.
pub proof fn lemma_quantity_sum_of_amounts(
    a: Q,
    b: Q,
    dim: Seq<i8>,
    u: Seq<char>,
    bu: Seq<char>,
    scale: Q,
    bscale: Q,
    op: char,
)
    requires
        value_wf(SValue::Quantity(a, dim, u, scale, false)),
        value_wf(SValue::Quantity(b, dim, bu, bscale, false)),
        op == '+' || op == '-',
    ensures
        binary(SValue::Quantity(a, dim, u, scale, false), SValue::Quantity(b, dim, bu, bscale, false), op) matches Ok(
            SValue::Quantity(c, cd, cu, cs, caff),
        ) && cd == dim && cu == u && cs == scale && !caff && q_eq(
            q_mul(c, scale),
            if op == '+' {
                q_add(q_mul(a, scale), q_mul(b, bscale))
            } else {
                q_sub(q_mul(a, scale), q_mul(b, bscale))
            },
        ),
{
    reveal(binary);
    lemma_nonzero_product(b.d, bscale.d);
    lemma_normalize_value(b.n * bscale.n, b.d * bscale.d);
    lemma_rescaled_sum(a, q_mul(b, bscale), scale, op == '+');
}

/// Multiplying two quantities multiplies the amounts they denote: the
/// result is in a unit of scale one, with the sum of the dimension
/// exponents, and its amount is the product of the operands' amounts in
/// base units.
pub proof fn lemma_quantity_product_of_amounts(
    a: Q,
    b: Q,
    dim: Seq<i8>,
    bdim: Seq<i8>,
    u: Seq<char>,
    bu: Seq<char>,
    scale: Q,
    bscale: Q,
)
    requires
        value_wf(SValue::Quantity(a, dim, u, scale, false)),
        value_wf(SValue::Quantity(b, bdim, bu, bscale, false)),
    ensures
        binary(SValue::Quantity(a, dim, u, scale, false), SValue::Quantity(b, bdim, bu, bscale, false), '*')
            matches Ok(SValue::Quantity(c, cd, _, cs, caff)) && cd == combine_dims(dim, bdim, '*') && cs
            == q_int(1) && !caff && q_eq(c, q_mul(q_mul(a, scale), q_mul(b, bscale))),
{
    reveal(binary);
    let m1 = q_mul(a, scale);
    let mm1 = Q { n: a.n * scale.n, d: a.d * scale.d };
    lemma_q_mul_value(a, scale, a, scale);
    let m2 = q_mul(m1, b);
    let mm2 = Q { n: mm1.n * b.n, d: mm1.d * b.d };
    lemma_q_mul_value(m1, b, mm1, b);
    let c = q_mul(m2, bscale);
    let cc = Q { n: mm2.n * bscale.n, d: mm2.d * bscale.d };
    lemma_q_mul_value(m2, bscale, mm2, bscale);
    let p = q_mul(b, bscale);
    let pp = Q { n: b.n * bscale.n, d: b.d * bscale.d };
    lemma_q_mul_value(b, bscale, b, bscale);
    let r = q_mul(m1, p);
    let rr = Q { n: mm1.n * pp.n, d: mm1.d * pp.d };
    lemma_q_mul_value(m1, p, mm1, pp);
    assert(cc.n == rr.n && cc.d == rr.d) by (nonlinear_arith)
        requires
            cc.n == ((a.n * scale.n) * b.n) * bscale.n,
            cc.d == ((a.d * scale.d) * b.d) * bscale.d,
            rr.n == (a.n * scale.n) * (b.n * bscale.n),
            rr.d == (a.d * scale.d) * (b.d * bscale.d),
    ;
    lemma_q_eq_transitive(c, cc, rr);
    lemma_q_eq_transitive(c, rr, r);
}

proof fn lemma_mul_nonzero(a: Q, b: Q)
    requires
        a.n != 0,
        a.d != 0,
        q_pos(b),
    ensures
        q_mul(a, b).n != 0,
{
    assert(a.n * b.n != 0 && a.d * b.d != 0) by (nonlinear_arith)
        requires
            a.n != 0,
            a.d != 0,
            b.n > 0,
            b.d > 0,
    ;
    assert((a.n * b.n) * (a.d * b.d) != 0) by (nonlinear_arith)
        requires
            a.n * b.n != 0,
            a.d * b.d != 0,
    ;
    lemma_normalize(a.n * b.n, a.d * b.d);
}

fn dims_exec(d: &Vec<i8>, e: &Vec<i8>, op: char) -> (r: Vec<i8>)
    requires
        d@.len() == 8,
        e@.len() == 8,
    ensures
        r@ == combine_dims(d@, e@, op),
{
    let mut out: Vec<i8> = Vec::new();
    let mut i: usize = 0;
    while i < 8
        invariant
            i <= 8,
            d@.len() == 8,
            e@.len() == 8,
            out@.len() == i,
            forall|j: int| 0 <= j < i ==> out@[j] == combine_dims(d@, e@, op)[j],
        decreases 8 - i,
    {
        if op == '*' {
            out.push(d[i].wrapping_add(e[i]));
        } else {
            out.push(d[i].wrapping_sub(e[i]));
        }
        i = i + 1;
    }
    assert(out@ == combine_dims(d@, e@, op));
    out
}

fn negate_dims_exec(d: &Vec<i8>) -> (r: Vec<i8>)
    requires
        d@.len() == 8,
    ensures
        r@ == negate_dims(d@),
{
    let mut out: Vec<i8> = Vec::new();
    let mut i: usize = 0;
    while i < 8
        invariant
            i <= 8,
            d@.len() == 8,
            out@.len() == i,
            forall|j: int| 0 <= j < i ==> out@[j] == negate_dims(d@)[j],
        decreases 8 - i,
    {
        out.push(0i8.wrapping_sub(d[i]));
        i = i + 1;
    }
    assert(out@ == negate_dims(d@));
    out
}

pub fn dims_equal(d: &Vec<i8>, e: &Vec<i8>) -> (r: bool)
    ensures
        r == (d@ == e@),
{
    if d.len() != e.len() {
        return false;
    }
    let mut i: usize = 0;
    while i < d.len()
        invariant
            i <= d@.len(),
            d@.len() == e@.len(),
            forall|j: int| 0 <= j < i ==> d@[j] == e@[j],
        decreases d@.len() - i,
    {
        if d[i] != e[i] {
            return false;
        }
        i = i + 1;
    }
    assert(d@ == e@);
    true
}

/// `binary` on values.
pub fn binary_exec(a: Value, b: Value, op: char) -> (r: Result<Value, Diagnostic>)
    requires
        value_wf(a@),
        value_wf(b@),
    ensures
        ok_or_fail(rv(r), binary(a@, b@, op)),
        !(a@ is Approx) && !(b@ is Approx) ==> rv(r) == binary(a@, b@, op),
        r matches Ok(v) ==> value_wf(v@),
{
    reveal(binary);
    match (a, b) {
        (Value::Rational(a), Value::Rational(b)) => {
            if op == '+' {
                Ok(Value::Rational(rat_add(&a, &b)))
            } else if op == '-' {
                Ok(Value::Rational(rat_sub(&a, &b)))
            } else if op == '*' {
                Ok(Value::Rational(rat_mul(&a, &b)))
            } else if op == '/' {
                if rat_is_zero(&b) {
                    Err(err0(DiagnosticKind::Domain, "Division by zero."))
                } else {
                    Ok(Value::Rational(rat_div(&a, &b)))
                }
            } else {
                Err(err0(DiagnosticKind::Parse, "Invalid operator."))
            }
        },
        (Value::Approx(a), Value::Rational(b)) => {
            let fb = rational_float_exec(&b)?;
            approx_binary_exec(&a, &fb, op)
        },
        (Value::Rational(a), Value::Approx(b)) => {
            let fa = rational_float_exec(&a)?;
            approx_binary_exec(&fa, &b, op)
        },
        (Value::Approx(a), Value::Approx(b)) => approx_binary_exec(&a, &b, op),
        (Value::Complex(ar, ai), Value::Complex(br, bi)) => complex_op_exec(&ar, &ai, &br, &bi, op),
        (Value::Complex(ar, ai), Value::Rational(b)) => {
            let zero = rat_from_int(&int_from_u64(0));
            complex_op_exec(&ar, &ai, &b, &zero, op)
        },
        (Value::Rational(a), Value::Complex(br, bi)) => {
            let zero = rat_from_int(&int_from_u64(0));
            complex_op_exec(&a, &zero, &br, &bi, op)
        },
        (Value::Quantity(a, d, u, scale, aff), Value::Quantity(b, bd, bu, bscale, baff)) => {
            if aff || baff {
                return Err(err0(DiagnosticKind::Domain, "Affine temperature units can only be converted."));
            }
            if op == '+' || op == '-' {
                if !dims_equal(&d, &bd) {
                    return Err(err0(DiagnosticKind::Dimension, "Incompatible dimensions."));
                }
                let cb = rat_div(&rat_mul(&b, &bscale), &scale);
                let scalar = if op == '+' {
                    rat_add(&a, &cb)
                } else {
                    rat_sub(&a, &cb)
                };
                Ok(Value::Quantity(scalar, d, u, scale, false))
            } else if op == '*' || op == '/' {
                if op == '/' && rat_is_zero(&b) {
                    return Err(err0(DiagnosticKind::Domain, "Division by zero."));
                }
                let dim = dims_exec(&d, &bd, op);
                let scalar = if op == '*' {
                    rat_mul(&rat_mul(&rat_mul(&a, &scale), &b), &bscale)
                } else {
                    proof {
                        lemma_normalize(b@.n, b@.d);
                        lemma_mul_nonzero(b@, bscale@);
                    }
                    rat_div(&rat_mul(&a, &scale), &rat_mul(&b, &bscale))
                };
                let unit = canonical_unit_exec(&dim, &u, &bu, op);
                assert(dim@.len() == 8);
                Ok(Value::Quantity(scalar, dim, unit, rat_from_int(&int_from_u64(1)), false))
            } else {
                Err(err0(DiagnosticKind::Parse, "Invalid operator."))
            }
        },
        (Value::Quantity(a, d, u, scale, aff), Value::Rational(b)) => {
            if aff {
                Err(err0(DiagnosticKind::Domain, "Affine temperature units can only be converted."))
            } else if op == '*' {
                Ok(Value::Quantity(rat_mul(&a, &b), d, u, scale, false))
            } else if op == '/' {
                if rat_is_zero(&b) {
                    Err(err0(DiagnosticKind::Domain, "Division by zero."))
                } else {
                    Ok(Value::Quantity(rat_div(&a, &b), d, u, scale, false))
                }
            } else {
                Err(err0(DiagnosticKind::Dimension, "Quantities require compatible units."))
            }
        },
        (Value::Rational(a), Value::Quantity(b, d, u, scale, aff)) => {
            if aff {
                Err(err0(DiagnosticKind::Domain, "Affine temperature units can only be converted."))
            } else if op == '*' {
                Ok(Value::Quantity(rat_mul(&a, &b), d, u, scale, false))
            } else if op == '/' {
                if rat_is_zero(&b) {
                    Err(err0(DiagnosticKind::Domain, "Division by zero."))
                } else {
                    proof {
                        lemma_mul_nonzero(b@, scale@);
                    }
                    let dim = negate_dims_exec(&d);
                    let mut unit = crate::text::string_from("1/");
                    push_str(&mut unit, u.as_str());
                    Ok(
                        Value::Quantity(
                            rat_div(&a, &rat_mul(&b, &scale)),
                            dim,
                            unit,
                            rat_from_int(&int_from_u64(1)),
                            false,
                        ),
                    )
                }
            } else {
                Err(err0(DiagnosticKind::Dimension, "Quantities require compatible units."))
            }
        },
        _ => Err(err0(DiagnosticKind::Unsupported, "Unsupported operation.")),
    }
}

} // verus!
