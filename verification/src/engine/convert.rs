//! Conversion of quantities between units, with the affine temperature
//! scales.
use vstd::prelude::*;
use crate::bignum::{
    Q, int_from_u64, lemma_normalize, lemma_normalize_value, lemma_q_add_value, lemma_q_div_value,
    lemma_q_eq_transitive, lemma_q_mul_value, lemma_q_sub_value, normalize, q_add, q_div, q_eq,
    q_int, q_mul, q_sub, rat_add, rat_div, rat_mul, rat_new, rat_sub,
};
use crate::engine::types::{DiagView, Diagnostic, DiagnosticKind, dg, err0};
use crate::engine::value::{SValue, Value};
use crate::engine::ops::{affine_error, dims_equal, rv, value_wf};
use crate::engine::units::{q_pos, unit_expression, unit_expression_exec, unit_wf};
use crate::text::{range_is, str_eq, string_of};

verus! {

/// 273.15, the offset of the Celsius scale in kelvin.
pub open spec fn celsius_offset() -> Q {
    normalize(27315, 100)
}

/// 5/9, the size of a degree Fahrenheit in kelvin.
pub open spec fn fahrenheit_ratio() -> Q {
    normalize(5, 9)
}

/// 459.67 * 5/9, the offset of the Fahrenheit scale in kelvin.
pub open spec fn fahrenheit_offset() -> Q {
    normalize(45967, 180)
}

/// A temperature in the unit `unit` expressed in kelvin.
pub open spec fn to_kelvin(n: Q, unit: Seq<char>) -> Option<Q> {
    if unit == "degC"@ {
        Some(q_add(n, celsius_offset()))
    } else if unit == "degF"@ {
        Some(q_add(q_mul(n, fahrenheit_ratio()), fahrenheit_offset()))
    } else if unit == "K"@ {
        Some(n)
    } else {
        None
    }
}

/// A temperature in kelvin expressed in the unit `unit`.
pub open spec fn from_kelvin(k: Q, unit: Seq<char>) -> Option<Q> {
    if unit == "degC"@ {
        Some(q_sub(k, celsius_offset()))
    } else if unit == "degF"@ {
        Some(q_div(q_sub(k, fahrenheit_offset()), fahrenheit_ratio()))
    } else if unit == "K"@ {
        Some(k)
    } else {
        None
    }
}

proof fn lemma_temperature_names()
    ensures
        "degC"@ != "degF"@,
        "degC"@ != "K"@,
        "degF"@ != "K"@,
{
    reveal_strlit("degC");
    reveal_strlit("degF");
    reveal_strlit("K");
    assert("degC"@[3] != "degF"@[3]);
    assert("degC"@.len() != "K"@.len());
    assert("degF"@.len() != "K"@.len());
}

/// A fraction whose parts are those of `x` times one factor has the value
/// of `x`.
proof fn lemma_scaled_eq(y: Q, x: Q, c: int)
    requires
        y.n == c * x.n,
        y.d == c * x.d,
    ensures
        q_eq(y, x),
{
    assert(y.n * x.d == x.n * y.d) by (nonlinear_arith)
        requires
            y.n == c * x.n,
            y.d == c * x.d,
    ;
}

proof fn lemma_constants()
    ensures
        celsius_offset().d > 0,
        q_eq(celsius_offset(), Q { n: 27315, d: 100 }),
        fahrenheit_offset().d > 0,
        q_eq(fahrenheit_offset(), Q { n: 45967, d: 180 }),
        fahrenheit_ratio().d > 0,
        fahrenheit_ratio().n > 0,
        q_eq(fahrenheit_ratio(), Q { n: 5, d: 9 }),
{
    lemma_normalize_value(27315, 100);
    lemma_normalize_value(45967, 180);
    lemma_normalize_value(5, 9);
    lemma_normalize(5, 9);
}

/// For each of degC, degF and K, `to_kelvin` and `from_kelvin` undo each
/// other: a temperature taken to kelvin and back, or from kelvin and back,
/// keeps its value.
pub proof fn lemma_kelvin_round_trip(x: Q, unit: Seq<char>)
    requires
        x.d > 0,
        unit == "degC"@ || unit == "degF"@ || unit == "K"@,
    ensures
        to_kelvin(x, unit) is Some,
        to_kelvin(x, unit)->Some_0.d > 0,
        from_kelvin(to_kelvin(x, unit)->Some_0, unit) is Some,
        q_eq(from_kelvin(to_kelvin(x, unit)->Some_0, unit)->Some_0, x),
        from_kelvin(x, unit) is Some,
        from_kelvin(x, unit)->Some_0.d > 0,
        to_kelvin(from_kelvin(x, unit)->Some_0, unit) is Some,
        q_eq(to_kelvin(from_kelvin(x, unit)->Some_0, unit)->Some_0, x),
{
    lemma_temperature_names();
    lemma_constants();
    let oc = celsius_offset();
    let of = fahrenheit_offset();
    let r = fahrenheit_ratio();
    let qc = Q { n: 27315, d: 100 };
    let qf = Q { n: 45967, d: 180 };
    let qr = Q { n: 5, d: 9 };
    if unit == "degC"@ {
        let k = q_add(x, oc);
        let kk = Q { n: x.n * 100 + 27315 * x.d, d: x.d * 100 };
        lemma_q_add_value(x, oc, x, qc);
        let y = q_sub(k, oc);
        let yy = Q { n: kk.n * 100 - 27315 * kk.d, d: kk.d * 100 };
        lemma_q_sub_value(k, oc, kk, qc);
        lemma_scaled_eq(yy, x, 10000);
        lemma_q_eq_transitive(y, yy, x);
        let z = q_sub(x, oc);
        let zz = Q { n: x.n * 100 - 27315 * x.d, d: x.d * 100 };
        lemma_q_sub_value(x, oc, x, qc);
        let w = q_add(z, oc);
        let ww = Q { n: zz.n * 100 + 27315 * zz.d, d: zz.d * 100 };
        lemma_q_add_value(z, oc, zz, qc);
        lemma_scaled_eq(ww, x, 10000);
        lemma_q_eq_transitive(w, ww, x);
    } else if unit == "degF"@ {
        let m = q_mul(x, r);
        let mm = Q { n: x.n * 5, d: x.d * 9 };
        lemma_q_mul_value(x, r, x, qr);
        let k = q_add(m, of);
        let kk = Q { n: mm.n * 180 + 45967 * mm.d, d: mm.d * 180 };
        lemma_q_add_value(m, of, mm, qf);
        let z = q_sub(k, of);
        let zz = Q { n: kk.n * 180 - 45967 * kk.d, d: kk.d * 180 };
        lemma_q_sub_value(k, of, kk, qf);
        let y = q_div(z, r);
        let yy = Q { n: zz.n * 9, d: zz.d * 5 };
        lemma_q_div_value(z, r, zz, qr);
        lemma_scaled_eq(yy, x, 1458000);
        lemma_q_eq_transitive(y, yy, x);
        let z2 = q_sub(x, of);
        let zz2 = Q { n: x.n * 180 - 45967 * x.d, d: x.d * 180 };
        lemma_q_sub_value(x, of, x, qf);
        let y2 = q_div(z2, r);
        let yy2 = Q { n: zz2.n * 9, d: zz2.d * 5 };
        lemma_q_div_value(z2, r, zz2, qr);
        let m2 = q_mul(y2, r);
        let mm2 = Q { n: yy2.n * 5, d: yy2.d * 9 };
        lemma_q_mul_value(y2, r, yy2, qr);
        let k2 = q_add(m2, of);
        let kk2 = Q { n: mm2.n * 180 + 45967 * mm2.d, d: mm2.d * 180 };
        lemma_q_add_value(m2, of, mm2, qf);
        lemma_scaled_eq(kk2, x, 1458000);
        lemma_q_eq_transitive(k2, kk2, x);
    }
}

/// `convert`: a quantity expressed in the unit `target`.
#[verifier::opaque]
pub open spec fn convert(v: SValue, target: Seq<char>) -> Result<SValue, DiagView> {
    match unit_expression(target) {
        None => Err(dg(DiagnosticKind::UnknownIdentifier, "Unknown unit."@)),
        Some(u) => match v {
            SValue::Quantity(n, sd, source, ss, sa) => if u.dim != sd {
                Err(dg(DiagnosticKind::Dimension, "Incompatible dimensions."@))
            } else if sa || u.affine {
                match to_kelvin(n, source) {
                    None => Err(affine_error()),
                    Some(k) => match from_kelvin(k, target) {
                        None => Err(affine_error()),
                        Some(x) => Ok(SValue::Quantity(x, u.dim, target, u.scale, true)),
                    },
                }
            } else {
                Ok(SValue::Quantity(q_div(q_mul(n, ss), u.scale), u.dim, target, u.scale, false))
            },
            _ => Err(dg(DiagnosticKind::Dimension, "Only quantities can be converted."@)),
        },
    }
}

/// Converting a temperature between degC, degF and K, where the target is an
/// affine unit or the value is an affine temperature, keeps the temperature:
/// the result, read in kelvin, is the source value read in kelvin.
pub proof fn lemma_convert_keeps_temperature(
    x: Q,
    dim: Seq<i8>,
    source: Seq<char>,
    scale: Q,
    affine: bool,
    target: Seq<char>,
)
    requires
        x.d > 0,
        source == "degC"@ || source == "degF"@ || source == "K"@,
        target == "degC"@ || target == "degF"@ || target == "K"@,
        unit_expression(target) is Some,
        unit_expression(target)->Some_0.dim == dim,
        affine || unit_expression(target)->Some_0.affine,
    ensures
        convert(SValue::Quantity(x, dim, source, scale, affine), target) matches Ok(
            SValue::Quantity(y, yd, yu, ys, ya),
        ) && yd == dim && yu == target && ys == unit_expression(target)->Some_0.scale && ya && q_eq(
            to_kelvin(y, target)->Some_0,
            to_kelvin(x, source)->Some_0,
        ),
{
    reveal(convert);
    lemma_kelvin_round_trip(x, source);
    let k = to_kelvin(x, source)->Some_0;
    lemma_kelvin_round_trip(k, target);
}

/// Converting a quantity between units that are not affine keeps the amount
/// it denotes: the result times the target unit's scale equals the value
/// times the source unit's scale.
pub proof fn lemma_convert_keeps_amount(
    x: Q,
    dim: Seq<i8>,
    source: Seq<char>,
    scale: Q,
    target: Seq<char>,
)
    requires
        x.d > 0,
        q_pos(scale),
        unit_expression(target) is Some,
        unit_wf(unit_expression(target)->Some_0),
        unit_expression(target)->Some_0.dim == dim,
        !unit_expression(target)->Some_0.affine,
    ensures
        convert(SValue::Quantity(x, dim, source, scale, false), target) matches Ok(
            SValue::Quantity(y, yd, yu, ys, ya),
        ) && yd == dim && yu == target && ys == unit_expression(target)->Some_0.scale && !ya && q_eq(
            q_mul(y, ys),
            q_mul(x, scale),
        ),
{
    reveal(convert);
    let t = unit_expression(target)->Some_0.scale;
    let z = q_mul(x, scale);
    lemma_q_mul_value(x, scale, x, scale);
    let y = q_div(z, t);
    let yy = Q { n: z.n * t.d, d: z.d * t.n };
    lemma_q_div_value(z, t, z, t);
    let w = q_mul(y, t);
    let ww = Q { n: yy.n * t.n, d: yy.d * t.d };
    lemma_q_mul_value(y, t, yy, t);
    assert(ww.n == (t.d * t.n) * z.n && ww.d == (t.d * t.n) * z.d) by (nonlinear_arith)
        requires
            ww.n == (z.n * t.d) * t.n,
            ww.d == (z.d * t.n) * t.d,
    ;
    lemma_scaled_eq(ww, z, t.d * t.n);
    lemma_q_eq_transitive(w, ww, z);
}

/// A degF temperature `x` converted to degC is `(x - 32) * 5/9`.
pub proof fn lemma_convert_fahrenheit_to_celsius(x: Q, dim: Seq<i8>, scale: Q, affine: bool)
    requires
        x.d > 0,
        unit_expression("degC"@) is Some,
        unit_expression("degC"@)->Some_0.dim == dim,
        affine || unit_expression("degC"@)->Some_0.affine,
    ensures
        convert(SValue::Quantity(x, dim, "degF"@, scale, affine), "degC"@) matches Ok(
            SValue::Quantity(y, _, _, _, _),
        ) && q_eq(y, q_mul(q_sub(x, q_int(32)), Q { n: 5, d: 9 })),
{
    reveal(convert);
    lemma_temperature_names();
    lemma_constants();
    let oc = celsius_offset();
    let of = fahrenheit_offset();
    let r = fahrenheit_ratio();
    let qc = Q { n: 27315, d: 100 };
    let qf = Q { n: 45967, d: 180 };
    let qr = Q { n: 5, d: 9 };
    let m = q_mul(x, r);
    let mm = Q { n: x.n * 5, d: x.d * 9 };
    lemma_q_mul_value(x, r, x, qr);
    let k = q_add(m, of);
    let kk = Q { n: mm.n * 180 + 45967 * mm.d, d: mm.d * 180 };
    lemma_q_add_value(m, of, mm, qf);
    let y = q_sub(k, oc);
    let yy = Q { n: kk.n * 100 - 27315 * kk.d, d: kk.d * 100 };
    lemma_q_sub_value(k, oc, kk, qc);
    let s = q_sub(x, q_int(32));
    let ss = Q { n: x.n * 1 - 32 * x.d, d: x.d * 1 };
    lemma_q_sub_value(x, q_int(32), x, q_int(32));
    let w = q_mul(s, qr);
    let ww = Q { n: ss.n * 5, d: ss.d * 9 };
    lemma_q_mul_value(s, qr, ss, qr);
    lemma_scaled_eq(yy, ww, 18000);
    lemma_q_eq_transitive(y, yy, ww);
    lemma_q_eq_transitive(y, ww, w);
}

/// A degC temperature `x` converted to degF is `x * 9/5 + 32`.
pub proof fn lemma_convert_celsius_to_fahrenheit(x: Q, dim: Seq<i8>, scale: Q, affine: bool)
    requires
        x.d > 0,
        unit_expression("degF"@) is Some,
        unit_expression("degF"@)->Some_0.dim == dim,
        affine || unit_expression("degF"@)->Some_0.affine,
    ensures
        convert(SValue::Quantity(x, dim, "degC"@, scale, affine), "degF"@) matches Ok(
            SValue::Quantity(y, _, _, _, _),
        ) && q_eq(y, q_add(q_mul(x, Q { n: 9, d: 5 }), q_int(32))),
{
    reveal(convert);
    lemma_temperature_names();
    lemma_constants();
    let oc = celsius_offset();
    let of = fahrenheit_offset();
    let r = fahrenheit_ratio();
    let qc = Q { n: 27315, d: 100 };
    let qf = Q { n: 45967, d: 180 };
    let qr = Q { n: 5, d: 9 };
    let a = q_add(x, oc);
    let aa = Q { n: x.n * 100 + 27315 * x.d, d: x.d * 100 };
    lemma_q_add_value(x, oc, x, qc);
    let b = q_sub(a, of);
    let bb = Q { n: aa.n * 180 - 45967 * aa.d, d: aa.d * 180 };
    lemma_q_sub_value(a, of, aa, qf);
    let y = q_div(b, r);
    let yy = Q { n: bb.n * 9, d: bb.d * 5 };
    lemma_q_div_value(b, r, bb, qr);
    let q95 = Q { n: 9, d: 5 };
    let p = q_mul(x, q95);
    let pp = Q { n: x.n * 9, d: x.d * 5 };
    lemma_q_mul_value(x, q95, x, q95);
    let w = q_add(p, q_int(32));
    let ww = Q { n: pp.n * 1 + 32 * pp.d, d: pp.d * 1 };
    lemma_q_add_value(p, q_int(32), pp, q_int(32));
    lemma_scaled_eq(yy, ww, 18000);
    lemma_q_eq_transitive(y, yy, ww);
    lemma_q_eq_transitive(y, ww, w);
}

/// `convert` with the target unit written in `v[lo..hi]`.
pub fn convert_exec(value: Value, v: &Vec<char>, lo: usize, hi: usize) -> (r: Result<Value, Diagnostic>)
    requires
        lo <= hi <= v.len(),
        value_wf(value@),
    ensures
        rv(r) == convert(value@, v@.subrange(lo as int, hi as int)),
        r matches Ok(x) ==> value_wf(x@),
{
    reveal(convert);
    let ghost target = v@.subrange(lo as int, hi as int);
    let u = match unit_expression_exec(v, lo, hi) {
        Some(u) => u,
        None => {
            return Err(err0(DiagnosticKind::UnknownIdentifier, "Unknown unit."));
        },
    };
    let (n, sd, source, ss, sa) = match value {
        Value::Quantity(n, sd, source, ss, sa) => (n, sd, source, ss, sa),
        _ => {
            return Err(err0(DiagnosticKind::Dimension, "Only quantities can be converted."));
        },
    };
    if !dims_equal(&u.dim, &sd) {
        return Err(err0(DiagnosticKind::Dimension, "Incompatible dimensions."));
    }
    let unit = string_of(v, lo, hi);
    if sa || u.affine {
        let celsius = rat_new(&int_from_u64(27315), &int_from_u64(100));
        let ratio = rat_new(&int_from_u64(5), &int_from_u64(9));
        let offset = rat_new(&int_from_u64(45967), &int_from_u64(180));
        proof {
            lemma_normalize(5, 9);
        }
        let kelvin = if str_eq(source.as_str(), "degC") {
            rat_add(&n, &celsius)
        } else if str_eq(source.as_str(), "degF") {
            rat_add(&rat_mul(&n, &ratio), &offset)
        } else if str_eq(source.as_str(), "K") {
            n
        } else {
            return Err(err0(DiagnosticKind::Domain, "Affine temperature units can only be converted."));
        };
        let result = if range_is(v, lo, hi, "degC") {
            rat_sub(&kelvin, &celsius)
        } else if range_is(v, lo, hi, "degF") {
            rat_div(&rat_sub(&kelvin, &offset), &ratio)
        } else if range_is(v, lo, hi, "K") {
            kelvin
        } else {
            return Err(err0(DiagnosticKind::Domain, "Affine temperature units can only be converted."));
        };
        return Ok(Value::Quantity(result, u.dim, unit, u.scale, true));
    }
    let scaled = rat_div(&rat_mul(&n, &ss), &u.scale);
    Ok(Value::Quantity(scaled, u.dim, unit, u.scale, false))
}

} // verus!
