//! Approximate values computed by `astro-float` at 256 bits, rounding to even.
//!
//! A `Float` is described by the computation that produced it: a decimal
//! literal, a constant, or an operation applied to other such values. For a
//! fixed precision and rounding mode, `astro-float` computes each operation
//! deterministically, so the description fixes the number and, with it, the
//! text `BigFloat::format` prints for it (`float_text`).
use vstd::prelude::*;
use astro_float::{BigFloat, Consts, Radix, RoundingMode};

verus! {

/// Bit precision of every approximate computation.
pub const DEFAULT_PRECISION_BITS: usize = 256;

#[verifier::external_type_specification]
#[verifier::external_body]
pub struct ExBigFloat(BigFloat);

#[verifier::external_type_specification]
#[verifier::external_body]
pub struct ExConsts(Consts);

/// How an approximate value was computed.
pub enum FTerm {
    /// A decimal numeral parsed with `BigFloat::parse`.
    Decimal(Seq<char>),
    /// `BigFloat::from_u64`.
    Word(u64),
    Pi,
    Euler,
    Add(Box<FTerm>, Box<FTerm>),
    Sub(Box<FTerm>, Box<FTerm>),
    Mul(Box<FTerm>, Box<FTerm>),
    Div(Box<FTerm>, Box<FTerm>),
    Sqrt(Box<FTerm>),
    Cbrt(Box<FTerm>),
    Ln(Box<FTerm>),
    Log10(Box<FTerm>),
    Log2(Box<FTerm>),
    Exp(Box<FTerm>),
    Sin(Box<FTerm>),
    Cos(Box<FTerm>),
    Tan(Box<FTerm>),
    /// `BigFloat::log(value, base)`.
    Log(Box<FTerm>, Box<FTerm>),
}

/// The text `BigFloat::format(Radix::Dec, RoundingMode::ToEven, ..)` returns
/// for the number that `astro-float` computes for `t` at 256 bits.
pub uninterp spec fn float_text(t: FTerm) -> Seq<char>;

/// An approximate number.
pub struct Float {
    value: BigFloat,
    term: Ghost<FTerm>,
}

impl View for Float {
    type V = FTerm;

    closed spec fn view(&self) -> FTerm {
        self.term@
    }
}

/// `Consts::new`: the constants cache; `None` when it cannot be allocated.
#[verifier::external_body]
pub(crate) fn consts_new() -> (r: Option<Consts>) {
    Consts::new().ok()
}

/// `BigFloat::parse` of a decimal numeral.
#[verifier::external_body]
pub(crate) fn float_parse_decimal(text: &String, cc: &mut Consts) -> (r: Float)
    ensures
        r@ == FTerm::Decimal(text@),
{
    Float {
        value: BigFloat::parse(text, Radix::Dec, DEFAULT_PRECISION_BITS, RoundingMode::ToEven, cc),
        term: Ghost(FTerm::Decimal(text@)),
    }
}

/// `BigFloat::from_u64`.
#[verifier::external_body]
pub(crate) fn float_from_u64(x: u64) -> (r: Float)
    ensures
        r@ == FTerm::Word(x),
{
    Float { value: BigFloat::from_u64(x, DEFAULT_PRECISION_BITS), term: Ghost(FTerm::Word(x)) }
}

/// `Consts::pi`.
#[verifier::external_body]
pub(crate) fn float_pi(cc: &mut Consts) -> (r: Float)
    ensures
        r@ == FTerm::Pi,
{
    Float { value: cc.pi(DEFAULT_PRECISION_BITS, RoundingMode::ToEven), term: Ghost(FTerm::Pi) }
}

/// `Consts::e`.
#[verifier::external_body]
pub(crate) fn float_e(cc: &mut Consts) -> (r: Float)
    ensures
        r@ == FTerm::Euler,
{
    Float { value: cc.e(DEFAULT_PRECISION_BITS, RoundingMode::ToEven), term: Ghost(FTerm::Euler) }
}

/// `Clone` of `BigFloat`: the same number.
#[verifier::external_body]
pub(crate) fn float_clone(a: &Float) -> (r: Float)
    ensures
        r@ == a@,
{
    Float { value: a.value.clone(), term: Ghost(a@) }
}

/// `BigFloat::add`.
#[verifier::external_body]
pub(crate) fn float_add(a: &Float, b: &Float) -> (r: Float)
    ensures
        r@ == FTerm::Add(Box::new(a@), Box::new(b@)),
{
    Float {
        value: a.value.add(&b.value, DEFAULT_PRECISION_BITS, RoundingMode::ToEven),
        term: Ghost(FTerm::Add(Box::new(a@), Box::new(b@))),
    }
}

/// `BigFloat::sub`.
#[verifier::external_body]
pub(crate) fn float_sub(a: &Float, b: &Float) -> (r: Float)
    ensures
        r@ == FTerm::Sub(Box::new(a@), Box::new(b@)),
{
    Float {
        value: a.value.sub(&b.value, DEFAULT_PRECISION_BITS, RoundingMode::ToEven),
        term: Ghost(FTerm::Sub(Box::new(a@), Box::new(b@))),
    }
}

/// `BigFloat::mul`.
#[verifier::external_body]
pub(crate) fn float_mul(a: &Float, b: &Float) -> (r: Float)
    ensures
        r@ == FTerm::Mul(Box::new(a@), Box::new(b@)),
{
    Float {
        value: a.value.mul(&b.value, DEFAULT_PRECISION_BITS, RoundingMode::ToEven),
        term: Ghost(FTerm::Mul(Box::new(a@), Box::new(b@))),
    }
}

/// `BigFloat::div`.
#[verifier::external_body]
pub(crate) fn float_div(a: &Float, b: &Float) -> (r: Float)
    ensures
        r@ == FTerm::Div(Box::new(a@), Box::new(b@)),
{
    Float {
        value: a.value.div(&b.value, DEFAULT_PRECISION_BITS, RoundingMode::ToEven),
        term: Ghost(FTerm::Div(Box::new(a@), Box::new(b@))),
    }
}

/// `BigFloat::sqrt`.
#[verifier::external_body]
pub(crate) fn float_sqrt(a: &Float) -> (r: Float)
    ensures
        r@ == FTerm::Sqrt(Box::new(a@)),
{
    Float {
        value: a.value.sqrt(DEFAULT_PRECISION_BITS, RoundingMode::ToEven),
        term: Ghost(FTerm::Sqrt(Box::new(a@))),
    }
}

/// `BigFloat::cbrt`.
#[verifier::external_body]
pub(crate) fn float_cbrt(a: &Float) -> (r: Float)
    ensures
        r@ == FTerm::Cbrt(Box::new(a@)),
{
    Float {
        value: a.value.cbrt(DEFAULT_PRECISION_BITS, RoundingMode::ToEven),
        term: Ghost(FTerm::Cbrt(Box::new(a@))),
    }
}

/// `BigFloat::ln`.
#[verifier::external_body]
pub(crate) fn float_ln(a: &Float, cc: &mut Consts) -> (r: Float)
    ensures
        r@ == FTerm::Ln(Box::new(a@)),
{
    Float {
        value: a.value.ln(DEFAULT_PRECISION_BITS, RoundingMode::ToEven, cc),
        term: Ghost(FTerm::Ln(Box::new(a@))),
    }
}

/// `BigFloat::log10`.
#[verifier::external_body]
pub(crate) fn float_log10(a: &Float, cc: &mut Consts) -> (r: Float)
    ensures
        r@ == FTerm::Log10(Box::new(a@)),
{
    Float {
        value: a.value.log10(DEFAULT_PRECISION_BITS, RoundingMode::ToEven, cc),
        term: Ghost(FTerm::Log10(Box::new(a@))),
    }
}

/// `BigFloat::log2`.
#[verifier::external_body]
pub(crate) fn float_log2(a: &Float, cc: &mut Consts) -> (r: Float)
    ensures
        r@ == FTerm::Log2(Box::new(a@)),
{
    Float {
        value: a.value.log2(DEFAULT_PRECISION_BITS, RoundingMode::ToEven, cc),
        term: Ghost(FTerm::Log2(Box::new(a@))),
    }
}

/// `BigFloat::exp`.
#[verifier::external_body]
pub(crate) fn float_exp(a: &Float, cc: &mut Consts) -> (r: Float)
    ensures
        r@ == FTerm::Exp(Box::new(a@)),
{
    Float {
        value: a.value.exp(DEFAULT_PRECISION_BITS, RoundingMode::ToEven, cc),
        term: Ghost(FTerm::Exp(Box::new(a@))),
    }
}

/// `BigFloat::sin`.
#[verifier::external_body]
pub(crate) fn float_sin(a: &Float, cc: &mut Consts) -> (r: Float)
    ensures
        r@ == FTerm::Sin(Box::new(a@)),
{
    Float {
        value: a.value.sin(DEFAULT_PRECISION_BITS, RoundingMode::ToEven, cc),
        term: Ghost(FTerm::Sin(Box::new(a@))),
    }
}

/// `BigFloat::cos`.
#[verifier::external_body]
pub(crate) fn float_cos(a: &Float, cc: &mut Consts) -> (r: Float)
    ensures
        r@ == FTerm::Cos(Box::new(a@)),
{
    Float {
        value: a.value.cos(DEFAULT_PRECISION_BITS, RoundingMode::ToEven, cc),
        term: Ghost(FTerm::Cos(Box::new(a@))),
    }
}

/// `BigFloat::tan`.
#[verifier::external_body]
pub(crate) fn float_tan(a: &Float, cc: &mut Consts) -> (r: Float)
    ensures
        r@ == FTerm::Tan(Box::new(a@)),
{
    Float {
        value: a.value.tan(DEFAULT_PRECISION_BITS, RoundingMode::ToEven, cc),
        term: Ghost(FTerm::Tan(Box::new(a@))),
    }
}

/// `BigFloat::log` of `a` in base `base`.
#[verifier::external_body]
pub(crate) fn float_log(a: &Float, base: &Float, cc: &mut Consts) -> (r: Float)
    ensures
        r@ == FTerm::Log(Box::new(a@), Box::new(base@)),
{
    Float {
        value: a.value.log(&base.value, DEFAULT_PRECISION_BITS, RoundingMode::ToEven, cc),
        term: Ghost(FTerm::Log(Box::new(a@), Box::new(base@))),
    }
}

/// `BigFloat::format` in decimal, rounding to even. It fails when memory
/// runs out or the decimal exponent overflows; what it returns then is not
/// stated.
#[verifier::external_body]
pub(crate) fn float_format(a: &Float, cc: &mut Consts) -> (r: Option<String>)
    ensures
        r matches Some(s) ==> s@ == float_text(a@),
{
    a.value.format(Radix::Dec, RoundingMode::ToEven, cc).ok()
}

} // verus!
