//! Calculator values: exact rationals, approximations, complex numbers and
//! quantities with units.
use vstd::prelude::*;
use crate::bignum::{Q, Rat, rat_clone};
use crate::float::{FTerm, Float, float_clone};

verus! {

/// A value as plain mathematical data.
pub enum SValue {
    Rational(Q),
    Approx(FTerm),
    /// Real and imaginary parts.
    Complex(Q, Q),
    /// Amount in the unit, dimension exponents (length, mass, time, current,
    /// temperature, amount of substance, luminous intensity, angle), the unit
    /// as written, the unit's scale to SI, and whether it is an affine
    /// temperature unit.
    Quantity(Q, Seq<i8>, Seq<char>, Q, bool),
}

/// A value of the calculator.
pub enum Value {
    Rational(Rat),
    Approx(Float),
    Complex(Rat, Rat),
    Quantity(Rat, Vec<i8>, String, Rat, bool),
}

impl View for Value {
    type V = SValue;

    open spec fn view(&self) -> SValue {
        match self {
            Value::Rational(r) => SValue::Rational(r@),
            Value::Approx(x) => SValue::Approx(x@),
            Value::Complex(re, im) => SValue::Complex(re@, im@),
            Value::Quantity(n, d, u, s, a) => SValue::Quantity(n@, d@, u@, s@, *a),
        }
    }
}

pub fn value_clone(v: &Value) -> (r: Value)
    ensures
        r@ == v@,
{
    match v {
        Value::Rational(r) => Value::Rational(rat_clone(r)),
        Value::Approx(x) => Value::Approx(float_clone(x)),
        Value::Complex(re, im) => Value::Complex(rat_clone(re), rat_clone(im)),
        Value::Quantity(n, d, u, s, a) => Value::Quantity(
            rat_clone(n),
            d.clone(),
            u.clone(),
            rat_clone(s),
            *a,
        ),
    }
}

/// The values of a list of values.
pub open spec fn values_view(v: Seq<Value>) -> Seq<SValue> {
    Seq::new(v.len(), |i: int| v[i]@)
}

} // verus!
