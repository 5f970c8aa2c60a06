//! The failures of the machine (the constants cache or a number's decimal
//! text could not be had) are never a result the specifications give: every
//! refusal they state has another kind, message or span.
use vstd::prelude::*;
use crate::engine::types::{DiagView, DiagnosticKind, dg};
use crate::engine::value::SValue;
use crate::engine::ops::{affine_error, binary, div_zero, res_fail};
use crate::engine::funcs::{
    combinatoric, factorial, factorial_int, integer_pair, min_max, min_max_from, negate,
    nonneg_error, nonneg_int, power,
};
use crate::engine::calls::{approx_const, function, sqrt_value, transcendental};
use crate::engine::convert::convert;
use crate::engine::literal::parse_rational;
use crate::engine::parse::{Form, form, lemma_form_bounds, lemma_strip_outer_len, lemma_trim_len, parse_args, parse_expr, parse_stripped};
use crate::engine::calc::{eval_result, restore_discarded, restore_vars};
use crate::engine::vars::VarView;
use crate::engine::syntax::strip_outer;
use crate::text::{first_index, lemma_first_index_some, trim};

verus! {

/// The result is no failure of the machine.
pub open spec fn no_failure<T>(r: Result<T, DiagView>) -> bool {
    !(r matches Err(d) && res_fail(d))
}

/// The refusals of the kinds a failure of the machine also has carry other
/// messages.
proof fn lemma_messages()
    ensures
        !res_fail(div_zero()),
        !res_fail(affine_error()),
        !res_fail(nonneg_error()),
        !res_fail(dg(DiagnosticKind::Domain, "Exponent must be an integer."@)),
        !res_fail(dg(DiagnosticKind::Limit, "Exponent exceeds 4096."@)),
        !res_fail(dg(DiagnosticKind::Limit, "Factorial exceeds 1024."@)),
        !res_fail(dg(DiagnosticKind::Domain, "r must not exceed n."@)),
        !res_fail(dg(DiagnosticKind::Limit, "Combinatoric argument is too large."@)),
        !res_fail(dg(DiagnosticKind::Domain, "Logarithm requires a positive value."@)),
{
    reveal_strlit("Constants unavailable.");
    reveal_strlit("Could not format result.");
    reveal_strlit("Division by zero.");
    reveal_strlit("Affine temperature units can only be converted.");
    reveal_strlit("Expected a non-negative integer.");
    reveal_strlit("Exponent must be an integer.");
    reveal_strlit("Exponent exceeds 4096.");
    reveal_strlit("Factorial exceeds 1024.");
    reveal_strlit("r must not exceed n.");
    reveal_strlit("Combinatoric argument is too large.");
    reveal_strlit("Logarithm requires a positive value.");
    assert("Division by zero."@.len() != "Could not format result."@.len());
    assert("Affine temperature units can only be converted."@.len() != "Could not format result."@.len());
    assert("Exponent exceeds 4096."@[0] != "Constants unavailable."@[0]);
    assert("Expected a non-negative integer."@.len() != "Could not format result."@.len());
    assert("Exponent must be an integer."@.len() != "Could not format result."@.len());
    assert("Factorial exceeds 1024."@.len() != "Constants unavailable."@.len());
    assert("r must not exceed n."@.len() != "Could not format result."@.len());
    assert("Combinatoric argument is too large."@.len() != "Constants unavailable."@.len());
    assert("Logarithm requires a positive value."@.len() != "Could not format result."@.len());
}

proof fn lemma_binary(a: SValue, b: SValue, op: char)
    ensures
        no_failure(binary(a, b, op)),
{
    reveal(binary);
    lemma_messages();
}

proof fn lemma_power(a: SValue, b: SValue)
    ensures
        no_failure(power(a, b)),
{
    reveal(power);
    lemma_messages();
}

proof fn lemma_convert(v: SValue, target: Seq<char>)
    ensures
        no_failure(convert(v, target)),
{
    reveal(convert);
    lemma_messages();
}

proof fn lemma_min_max_from(name: Seq<char>, acc: crate::bignum::Q, rest: Seq<SValue>)
    ensures
        no_failure(min_max_from(name, acc, rest)),
    decreases rest.len(),
{
    if rest.len() > 0 {
        if rest[0] is Rational {
            let v = rest[0]->Rational_0;
            lemma_min_max_from(
                name,
                if crate::engine::funcs::replaces(name, v, acc) {
                    v
                } else {
                    acc
                },
                rest.drop_first(),
            );
        }
    }
}

proof fn lemma_function(name: Seq<char>, args: Seq<SValue>)
    ensures
        no_failure(function(name, args)),
{
    reveal(function);
    lemma_messages();
    if args.len() >= 2 {
        if args[0] is Rational {
            lemma_min_max_from(name, args[0]->Rational_0, args.drop_first());
        }
    }
    assert(no_failure(min_max(name, args)));
    assert(no_failure(sqrt_value(args[0])) || args.len() == 0);
    assert(no_failure(transcendental(name, args)));
    assert(no_failure(integer_pair(name, args)));
    assert(no_failure(combinatoric(name, args)));
}

/// An expression's value is never a failure of the machine.
pub proof fn lemma_expr(vars: Seq<VarView>, s0: Seq<char>)
    ensures
        no_failure(parse_expr(vars, s0)),
    decreases s0.len(), 1nat,
{
    lemma_strip_outer_len(s0);
    lemma_stripped(vars, strip_outer(s0));
}

proof fn lemma_stripped(vars: Seq<VarView>, s: Seq<char>)
    ensures
        no_failure(parse_stripped(vars, s)),
    decreases s.len(), 0nat,
{
    lemma_form_bounds(s);
    assert forall|x: Seq<char>| #[trigger] trim(x).len() <= x.len() by {
        lemma_trim_len(x);
    }
    lemma_messages();
    match form(s) {
        Form::Negation => {
            lemma_expr(vars, trim(s.drop_first()));
        },
        Form::Conversion(i) => {
            lemma_expr(vars, trim(s.take(i)));
            if parse_expr(vars, trim(s.take(i))) is Ok {
                lemma_convert(parse_expr(vars, trim(s.take(i)))->Ok_0, trim(s.skip(i + 4)));
            }
        },
        Form::Quantity(k, _) => {
            lemma_expr(vars, trim(s.take(k)));
        },
        Form::Groups(i) => {
            lemma_expr(vars, s.take(i + 1));
            lemma_expr(vars, s.skip(i + 1));
            if parse_expr(vars, s.take(i + 1)) is Ok && parse_expr(vars, s.skip(i + 1)) is Ok {
                lemma_binary(
                    parse_expr(vars, s.take(i + 1))->Ok_0,
                    parse_expr(vars, s.skip(i + 1))->Ok_0,
                    '*',
                );
            }
        },
        Form::PiMultiple => {
            lemma_expr(vars, s.take(s.len() - 2));
            if parse_expr(vars, s.take(s.len() - 2)) is Ok {
                lemma_binary(parse_expr(vars, s.take(s.len() - 2))->Ok_0, approx_const("pi"@)->Ok_0, '*');
            }
        },
        Form::Sum(i) => {
            lemma_expr(vars, s.take(i));
            lemma_expr(vars, s.skip(i + 1));
            if parse_expr(vars, s.take(i)) is Ok && parse_expr(vars, s.skip(i + 1)) is Ok {
                lemma_binary(parse_expr(vars, s.take(i))->Ok_0, parse_expr(vars, s.skip(i + 1))->Ok_0, s[i]);
            }
        },
        Form::Product(i) => {
            lemma_expr(vars, s.take(i));
            lemma_expr(vars, s.skip(i + 1));
            if parse_expr(vars, s.take(i)) is Ok && parse_expr(vars, s.skip(i + 1)) is Ok {
                lemma_binary(parse_expr(vars, s.take(i))->Ok_0, parse_expr(vars, s.skip(i + 1))->Ok_0, s[i]);
            }
        },
        Form::Power(i) => {
            lemma_expr(vars, s.take(i));
            lemma_expr(vars, s.skip(i + 1));
            if parse_expr(vars, s.take(i)) is Ok && parse_expr(vars, s.skip(i + 1)) is Ok {
                lemma_power(parse_expr(vars, s.take(i))->Ok_0, parse_expr(vars, s.skip(i + 1))->Ok_0);
            }
        },
        Form::Factorial => {
            lemma_expr(vars, trim(s.drop_last()));
        },
        Form::Call(k) => {
            lemma_args(vars, s.subrange(k + 1, s.len() - 1));
            if parse_args(vars, s.subrange(k + 1, s.len() - 1)) is Ok {
                lemma_function(trim(s.take(k)), parse_args(vars, s.subrange(k + 1, s.len() - 1))->Ok_0);
            }
        },
        Form::Constant => {},
        Form::Imaginary => {},
        Form::Atom => {
            reveal(parse_rational);
        },
    }
}

proof fn lemma_args(vars: Seq<VarView>, args: Seq<char>)
    ensures
        no_failure(parse_args(vars, args)),
    decreases args.len(), 2nat,
{
    assert forall|x: Seq<char>| #[trigger] trim(x).len() <= x.len() by {
        lemma_trim_len(x);
    }
    lemma_first_index_some(args, ',');
    match first_index(args, ',') {
        Some(c) => {
            lemma_expr(vars, trim(args.take(c)));
            lemma_args(vars, args.skip(c + 1));
        },
        None => {
            lemma_expr(vars, trim(args));
        },
    }
}

/// What a line shows is never a failure of the machine.
pub proof fn lemma_eval_result(vars: Seq<VarView>, input: Seq<char>)
    ensures
        no_failure(eval_result(vars, input)),
{
    match crate::engine::calc::assignment_split(input) {
        Some((_, rest)) => lemma_expr(vars, rest),
        None => lemma_expr(vars, input),
    }
}

/// The refusals of restoring definitions are never failures of the machine.
pub proof fn lemma_restore_discarded(defs: Seq<(Seq<char>, Seq<char>)>)
    ensures
        forall|k: int| 0 <= k < restore_discarded(defs).len() ==> !res_fail(#[trigger] restore_discarded(defs)[k]),
    decreases defs.len(),
{
    if defs.len() > 0 {
        let prev = restore_discarded(defs.drop_last());
        lemma_restore_discarded(defs.drop_last());
        lemma_eval_result(restore_vars(defs.drop_last()), defs.last().1);
        assert forall|k: int| 0 <= k < restore_discarded(defs).len() implies !res_fail(
            #[trigger] restore_discarded(defs)[k],
        ) by {
            if k < prev.len() {
                assert(restore_discarded(defs)[k] == prev[k]);
            }
        }
    }
}

} // verus!
