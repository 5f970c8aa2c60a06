//! The expression parser: each expression is classified by the first rule
//! that applies to it, and its parts are parsed recursively.
use vstd::prelude::*;
use crate::bignum::{int_from_u64, q_int, rat_from_int};
use crate::engine::types::{DiagView, Diagnostic, DiagnosticKind, err};
use crate::engine::value::{SValue, Value, values_view};
use crate::engine::ops::{binary, binary_exec, ok_or_fail, res_fail, rv, value_wf};
use crate::engine::funcs::{all_wf, factorial, factorial_exec, negate, negate_exec, power, power_exec};
use crate::engine::calls::{approx_const, approx_const_exec, function, function_exec, function_floats};
use crate::engine::convert::{convert, convert_exec};
use crate::engine::literal::{parse_rational, parse_rational_exec};
use crate::engine::syntax::{
    call_open, find_call, find_group_end, find_operator, find_power, implicit_groups,
    split_operator, split_power, strip_outer, strip_outer_range,
};
use crate::engine::units::{SUnit, UnitDef, unit_expression, unit_expression_exec};
use crate::engine::vars::{Var, VarView, var_lookup, vars_get, vars_view, vars_wf};
use crate::text::{
    byte_len, byte_len_range, find_char, find_pattern, first_index, first_occurrence,
    lemma_first_index_some, lemma_first_occurrence_some, occurs_at,
    lemma_byte_len_subrange, lead_ws, trail_ws, lemma_lead_ws_bound, lemma_trail_ws_bound,
    range_ends, range_is, string_of, trim, trim_range,
};

verus! {

/// Which rule of the grammar an expression falls under, with the position
/// that splits it.
pub enum Form {
    /// `-x`
    Negation,
    /// `x to unit`, at the first ` to `
    Conversion(int),
    /// `x unit`, at the first space, when the rest is a unit
    Quantity(int, SUnit),
    /// `(a)b`, at the `)` that ends the first group
    Groups(int),
    /// `xpi`
    PiMultiple,
    /// `a + b` or `a - b`, at the last such operator outside parentheses
    Sum(int),
    /// `a * b` or `a / b`, likewise
    Product(int),
    /// `a ^ b`, at the first `^` outside parentheses
    Power(int),
    /// `x!`
    Factorial,
    /// `name(args)`, at the first `(`
    Call(int),
    /// `pi`, `e` or `tau`
    Constant,
    /// `i`
    Imaginary,
    /// a variable or a literal
    Atom,
}

/// The unit after the first space, when there is one.
#[verifier::opaque]
pub open spec fn space_unit(s: Seq<char>) -> Option<(int, SUnit)> {
    match first_index(s, ' ') {
        Some(k) => match unit_expression(trim(s.skip(k + 1))) {
            Some(u) => Some((k, u)),
            None => None,
        },
        None => None,
    }
}

/// The first ` to `.
#[verifier::opaque]
pub open spec fn conversion_at(s: Seq<char>) -> Option<int> {
    first_occurrence(s, " to "@)
}

pub open spec fn is_constant_name(s: Seq<char>) -> bool {
    s == "pi"@ || s == "e"@ || s == "tau"@
}

/// `implicit_groups`, with its position inside the expression.
#[verifier::opaque]
pub open spec fn groups_at(s: Seq<char>) -> Option<int> {
    match implicit_groups(s) {
        Some(i) => if 0 <= i && i + 1 < s.len() {
            Some(i)
        } else {
            None
        },
        None => None,
    }
}

/// `split_operator`, with its position inside the expression.
#[verifier::opaque]
pub open spec fn operator_in(s: Seq<char>, ops: Seq<char>) -> Option<int> {
    match split_operator(s, ops) {
        Some(i) => if 0 < i < s.len() {
            Some(i)
        } else {
            None
        },
        None => None,
    }
}

/// `split_power`, with its position inside the expression.
#[verifier::opaque]
pub open spec fn power_in(s: Seq<char>) -> Option<int> {
    match split_power(s) {
        Some(i) => if 0 <= i < s.len() {
            Some(i)
        } else {
            None
        },
        None => None,
    }
}

/// `call`, with its position inside the expression.
#[verifier::opaque]
pub open spec fn call_in(s: Seq<char>) -> Option<int> {
    match call_open(s) {
        Some(k) => if 0 <= k && k + 1 < s.len() {
            Some(k)
        } else {
            None
        },
        None => None,
    }
}

/// The rule that applies to a stripped expression, tried in this order.
/// (The positions found always lie inside the expression; the bounds are
/// written out so that the recursion of `parse_expr` visibly shrinks.)
pub open spec fn form(s: Seq<char>) -> Form {
    if s.len() > 0 && s[0] == '-' {
        Form::Negation
    } else if conversion_at(s) is Some {
        Form::Conversion(conversion_at(s)->0)
    } else if space_unit(s) is Some {
        let (k, u) = space_unit(s)->0;
        Form::Quantity(k, u)
    } else {
        operator_form(s)
    }
}

/// The rules after those for minus, conversion and units.
pub open spec fn operator_form(s: Seq<char>) -> Form {
    if groups_at(s) is Some {
        Form::Groups(groups_at(s)->0)
    } else if s.len() > 2 && s.skip(s.len() - 2) == "pi"@ {
        Form::PiMultiple
    } else if operator_in(s, seq!['+', '-']) is Some {
        Form::Sum(operator_in(s, seq!['+', '-'])->0)
    } else if operator_in(s, seq!['*', '/']) is Some {
        Form::Product(operator_in(s, seq!['*', '/'])->0)
    } else {
        postfix_form(s)
    }
}

/// The rules after those for the binary operators.
pub open spec fn postfix_form(s: Seq<char>) -> Form {
    if power_in(s) is Some {
        Form::Power(power_in(s)->0)
    } else if s.len() > 0 && s.last() == '!' {
        Form::Factorial
    } else if call_in(s) is Some {
        Form::Call(call_in(s)->0)
    } else if is_constant_name(s) {
        Form::Constant
    } else if s == "i"@ {
        Form::Imaginary
    } else {
        Form::Atom
    }
}

pub proof fn lemma_trim_len(s: Seq<char>)
    ensures
        trim(s).len() <= s.len(),
{
    reveal(trim);
    lemma_lead_ws_bound(s);
    lemma_trail_ws_bound(s.skip(lead_ws(s) as int));
}

pub proof fn lemma_strip_outer_len(s: Seq<char>)
    ensures
        strip_outer(s).len() <= s.len(),
    decreases s.len(),
{
    reveal(strip_outer);
    if s.len() >= 2 && s[0] == '(' && s.last() == ')' && crate::engine::syntax::first_close(s) == Some(
        s.len() - 1,
    ) {
        lemma_strip_outer_len(s.subrange(1, s.len() - 1));
    } else {
        lemma_trim_len(s);
    }
}

/// The positions a form carries lie inside the expression.
pub proof fn lemma_form_bounds(s: Seq<char>)
    ensures
        form(s) matches Form::Conversion(i) ==> 0 <= i && i + 4 <= s.len(),
        form(s) matches Form::Quantity(k, _) ==> 0 <= k < s.len(),
        form(s) matches Form::Groups(i) ==> 0 <= i && i + 1 < s.len(),
        form(s) matches Form::Sum(i) ==> 0 < i < s.len(),
        form(s) matches Form::Product(i) ==> 0 < i < s.len(),
        form(s) matches Form::Power(i) ==> 0 <= i < s.len(),
        form(s) matches Form::Call(k) ==> 0 <= k && k + 1 < s.len(),
        form(s) is PiMultiple ==> s.len() > 2,
        form(s) is Negation || form(s) is Factorial ==> s.len() > 0,
{
    reveal(conversion_at);
    reveal(space_unit);
    reveal(groups_at);
    reveal(operator_in);
    reveal(power_in);
    reveal(call_in);
    reveal_strlit(" to ");
    assert(" to "@.len() == 4);
    lemma_first_occurrence_some(s, " to "@);
    lemma_first_index_some(s, ' ');
}

/// `binary` of two parsed operands, the first error first.
pub open spec fn binary_of(
    a: Result<SValue, DiagView>,
    b: Result<SValue, DiagView>,
    op: char,
) -> Result<SValue, DiagView> {
    match a {
        Err(e) => Err(e),
        Ok(x) => match b {
            Err(e) => Err(e),
            Ok(y) => binary(x, y, op),
        },
    }
}

/// `Parser::parse`: the value of an expression, with the variables `vars`.
pub open spec fn parse_expr(vars: Seq<VarView>, s0: Seq<char>) -> Result<SValue, DiagView>
    decreases s0.len(), 1nat,
{
    proof {
        lemma_strip_outer_len(s0);
    }
    parse_stripped(vars, strip_outer(s0))
}

/// The value of an expression without enclosing parentheses, by the rule
/// that applies to it.
pub open spec fn parse_stripped(vars: Seq<VarView>, s: Seq<char>) -> Result<SValue, DiagView>
    decreases s.len(), 0nat,
{
    proof {
        lemma_form_bounds(s);
        assert forall|x: Seq<char>| #[trigger] trim(x).len() <= x.len() by {
            lemma_trim_len(x);
        }
    }
    match form(s) {
        Form::Negation => match parse_expr(vars, trim(s.drop_first())) {
            Err(e) => Err(e),
            Ok(x) => negate(x),
        },
        Form::Conversion(i) => match parse_expr(vars, trim(s.take(i))) {
            Err(e) => Err(e),
            Ok(x) => convert(x, trim(s.skip(i + 4))),
        },
        Form::Quantity(k, u) => match parse_expr(vars, trim(s.take(k))) {
            Err(e) => Err(e),
            Ok(SValue::Rational(n)) => Ok(
                SValue::Quantity(n, u.dim, trim(s.skip(k + 1)), u.scale, u.affine),
            ),
            Ok(_) => Err(
                DiagView {
                    kind: DiagnosticKind::Dimension,
                    message: "A unit needs a real scalar."@,
                    start: 0,
                    end: byte_len(s) as int,
                },
            ),
        },
        Form::Groups(i) => binary_of(
            parse_expr(vars, s.take(i + 1)),
            parse_expr(vars, s.skip(i + 1)),
            '*',
        ),
        Form::PiMultiple => binary_of(parse_expr(vars, s.take(s.len() - 2)), approx_const("pi"@), '*'),
        Form::Sum(i) => binary_of(parse_expr(vars, s.take(i)), parse_expr(vars, s.skip(i + 1)), s[i]),
        Form::Product(i) => binary_of(
            parse_expr(vars, s.take(i)),
            parse_expr(vars, s.skip(i + 1)),
            s[i],
        ),
        Form::Power(i) => match parse_expr(vars, s.take(i)) {
            Err(e) => Err(e),
            Ok(x) => match parse_expr(vars, s.skip(i + 1)) {
                Err(e) => Err(e),
                Ok(y) => power(x, y),
            },
        },
        Form::Factorial => match parse_expr(vars, trim(s.drop_last())) {
            Err(e) => Err(e),
            Ok(x) => factorial(x),
        },
        Form::Call(k) => match parse_args(vars, s.subrange(k + 1, s.len() - 1)) {
            Err(e) => Err(e),
            Ok(args) => function(trim(s.take(k)), args),
        },
        Form::Constant => approx_const(s),
        Form::Imaginary => Ok(SValue::Complex(q_int(0), q_int(1))),
        Form::Atom => match var_lookup(vars, s) {
            Some(v) => Ok(v),
            None => parse_rational(s),
        },
    }
}

/// The comma-separated arguments of a call, each parsed in turn; the first
/// error stops the list.
pub open spec fn parse_args(vars: Seq<VarView>, args: Seq<char>) -> Result<Seq<SValue>, DiagView>
    decreases args.len(), 2nat,
{
    proof {
        assert forall|x: Seq<char>| #[trigger] trim(x).len() <= x.len() by {
            lemma_trim_len(x);
        }
        lemma_first_index_some(args, ',');
    }
    match first_index(args, ',') {
        Some(c) => match parse_expr(vars, trim(args.take(c))) {
            Err(e) => Err(e),
            Ok(x) => match parse_args(vars, args.skip(c + 1)) {
                Err(e) => Err(e),
                Ok(xs) => Ok(seq![x] + xs),
            },
        },
        None => match parse_expr(vars, trim(args)) {
            Err(e) => Err(e),
            Ok(x) => Ok(seq![x]),
        },
    }
}

/// The value holds an approximation.
pub open spec fn is_approx_ok(r: Result<SValue, DiagView>) -> bool {
    r matches Ok(SValue::Approx(_))
}

/// Evaluating the expression reaches an approximate computation: a
/// constant, a transcendental function or an inexact root, or an operator
/// with an approximate operand.
pub open spec fn expr_floats(vars: Seq<VarView>, s0: Seq<char>) -> bool
    decreases s0.len(), 1nat,
{
    proof {
        lemma_strip_outer_len(s0);
    }
    stripped_floats(vars, strip_outer(s0))
}

/// `expr_floats` for an expression without enclosing parentheses.
pub open spec fn stripped_floats(vars: Seq<VarView>, s: Seq<char>) -> bool
    decreases s.len(), 0nat,
{
    proof {
        lemma_form_bounds(s);
        assert forall|x: Seq<char>| #[trigger] trim(x).len() <= x.len() by {
            lemma_trim_len(x);
        }
    }
    match form(s) {
        Form::Negation => expr_floats(vars, trim(s.drop_first())),
        Form::Conversion(i) => expr_floats(vars, trim(s.take(i))),
        Form::Quantity(k, _) => expr_floats(vars, trim(s.take(k))),
        Form::Groups(i) => expr_floats(vars, s.take(i + 1)) || expr_floats(vars, s.skip(i + 1))
            || is_approx_ok(parse_expr(vars, s.take(i + 1))) || is_approx_ok(
            parse_expr(vars, s.skip(i + 1)),
        ),
        Form::PiMultiple => true,
        Form::Sum(i) => expr_floats(vars, s.take(i)) || expr_floats(vars, s.skip(i + 1))
            || is_approx_ok(parse_expr(vars, s.take(i))) || is_approx_ok(
            parse_expr(vars, s.skip(i + 1)),
        ),
        Form::Product(i) => expr_floats(vars, s.take(i)) || expr_floats(vars, s.skip(i + 1))
            || is_approx_ok(parse_expr(vars, s.take(i))) || is_approx_ok(
            parse_expr(vars, s.skip(i + 1)),
        ),
        Form::Power(i) => expr_floats(vars, s.take(i)) || expr_floats(vars, s.skip(i + 1)),
        Form::Factorial => expr_floats(vars, trim(s.drop_last())),
        Form::Call(k) => args_floats(vars, s.subrange(k + 1, s.len() - 1)) || (parse_args(
            vars,
            s.subrange(k + 1, s.len() - 1),
        ) matches Ok(xs) && function_floats(trim(s.take(k)), xs)),
        Form::Constant => true,
        Form::Imaginary => false,
        Form::Atom => false,
    }
}

/// `expr_floats` for the arguments of a call.
pub open spec fn args_floats(vars: Seq<VarView>, args: Seq<char>) -> bool
    decreases args.len(), 2nat,
{
    proof {
        assert forall|x: Seq<char>| #[trigger] trim(x).len() <= x.len() by {
            lemma_trim_len(x);
        }
        lemma_first_index_some(args, ',');
    }
    match first_index(args, ',') {
        Some(c) => expr_floats(vars, trim(args.take(c))) || args_floats(vars, args.skip(c + 1)),
        None => expr_floats(vars, trim(args)),
    }
}

/// `parse_stripped` under the rules with one operand.
pub proof fn lemma_parse_unary(vars: Seq<VarView>, s: Seq<char>)
    ensures
        form(s) is Negation ==> parse_stripped(vars, s) == match parse_expr(vars, trim(s.drop_first())) {
            Err(e) => Err(e),
            Ok(x) => negate(x),
        },
        form(s) matches Form::Conversion(i) ==> parse_stripped(vars, s) == match parse_expr(
            vars,
            trim(s.take(i)),
        ) {
            Err(e) => Err(e),
            Ok(x) => convert(x, trim(s.skip(i + 4))),
        },
        form(s) matches Form::Quantity(k, u) ==> parse_stripped(vars, s) == match parse_expr(
            vars,
            trim(s.take(k)),
        ) {
            Err(e) => Err(e),
            Ok(SValue::Rational(n)) => Ok(
                SValue::Quantity(n, u.dim, trim(s.skip(k + 1)), u.scale, u.affine),
            ),
            Ok(_) => Err(
                DiagView {
                    kind: DiagnosticKind::Dimension,
                    message: "A unit needs a real scalar."@,
                    start: 0,
                    end: byte_len(s) as int,
                },
            ),
        },
        form(s) is Factorial ==> parse_stripped(vars, s) == match parse_expr(vars, trim(s.drop_last())) {
            Err(e) => Err(e),
            Ok(x) => factorial(x),
        },
{
}

/// `parse_stripped` under the rules with two operands.
pub proof fn lemma_parse_binary(vars: Seq<VarView>, s: Seq<char>)
    ensures
        form(s) matches Form::Groups(i) ==> parse_stripped(vars, s) == binary_of(
            parse_expr(vars, s.take(i + 1)),
            parse_expr(vars, s.skip(i + 1)),
            '*',
        ),
        form(s) is PiMultiple ==> parse_stripped(vars, s) == binary_of(
            parse_expr(vars, s.take(s.len() - 2)),
            approx_const("pi"@),
            '*',
        ),
        form(s) matches Form::Sum(i) ==> parse_stripped(vars, s) == binary_of(
            parse_expr(vars, s.take(i)),
            parse_expr(vars, s.skip(i + 1)),
            s[i],
        ),
        form(s) matches Form::Product(i) ==> parse_stripped(vars, s) == binary_of(
            parse_expr(vars, s.take(i)),
            parse_expr(vars, s.skip(i + 1)),
            s[i],
        ),
        form(s) matches Form::Power(i) ==> parse_stripped(vars, s) == match parse_expr(vars, s.take(i)) {
            Err(e) => Err(e),
            Ok(x) => match parse_expr(vars, s.skip(i + 1)) {
                Err(e) => Err(e),
                Ok(y) => power(x, y),
            },
        },
{
}

/// `parse_stripped` under the remaining rules.
pub proof fn lemma_parse_leaf(vars: Seq<VarView>, s: Seq<char>)
    ensures
        form(s) matches Form::Call(k) ==> parse_stripped(vars, s) == match parse_args(
            vars,
            s.subrange(k + 1, s.len() - 1),
        ) {
            Err(e) => Err(e),
            Ok(args) => function(trim(s.take(k)), args),
        },
        form(s) is Constant ==> parse_stripped(vars, s) == approx_const(s),
        form(s) is Imaginary ==> parse_stripped(vars, s) == Ok::<SValue, DiagView>(
            SValue::Complex(q_int(0), q_int(1)),
        ),
        form(s) is Atom ==> parse_stripped(vars, s) == match var_lookup(vars, s) {
            Some(v) => Ok(v),
            None => parse_rational(s),
        },
{
}

/// `parse_args` at a comma.
pub proof fn lemma_parse_args_comma(vars: Seq<VarView>, args: Seq<char>, c: int)
    requires
        first_index(args, ',') == Some(c),
    ensures
        parse_args(vars, args) == match parse_expr(vars, trim(args.take(c))) {
            Err(e) => Err(e),
            Ok(x) => match parse_args(vars, args.skip(c + 1)) {
                Err(e) => Err(e),
                Ok(xs) => Ok(seq![x] + xs),
            },
        },
{
}

/// `parse_args` without a comma.
pub proof fn lemma_parse_args_last(vars: Seq<VarView>, args: Seq<char>)
    requires
        first_index(args, ',') is None,
    ensures
        parse_args(vars, args) == match parse_expr(vars, trim(args)) {
            Err(e) => Err(e),
            Ok(x) => Ok(seq![x]),
        },
{
}

/// A form with its positions as indices, relative to the start of the
/// expression; a quantity also carries where its unit lies and the unit.
pub enum FormAt {
    Negation,
    Conversion(usize),
    Quantity(usize, usize, usize, UnitDef),
    Groups(usize),
    PiMultiple,
    Sum(usize),
    Product(usize),
    Power(usize),
    Factorial,
    Call(usize),
    Constant,
    Imaginary,
    Atom,
}

impl View for FormAt {
    type V = Form;

    open spec fn view(&self) -> Form {
        match self {
            FormAt::Negation => Form::Negation,
            FormAt::Conversion(i) => Form::Conversion(*i as int),
            FormAt::Quantity(k, _, _, u) => Form::Quantity(*k as int, u@),
            FormAt::Groups(i) => Form::Groups(*i as int),
            FormAt::PiMultiple => Form::PiMultiple,
            FormAt::Sum(i) => Form::Sum(*i as int),
            FormAt::Product(i) => Form::Product(*i as int),
            FormAt::Power(i) => Form::Power(*i as int),
            FormAt::Factorial => Form::Factorial,
            FormAt::Call(k) => Form::Call(*k as int),
            FormAt::Constant => Form::Constant,
            FormAt::Imaginary => Form::Imaginary,
            FormAt::Atom => Form::Atom,
        }
    }
}

/// `form` of `v[a..b]`.
#[verifier::rlimit(40)]
fn form_exec(v: &Vec<char>, a: usize, b: usize) -> (r: FormAt)
    requires
        a <= b <= v.len(),
    ensures
        r@ == form(v@.subrange(a as int, b as int)),
        r matches FormAt::Quantity(k, ua, ub, u) ==> a + k + 1 <= ua <= ub <= b
            && v@.subrange(ua as int, ub as int) == trim(v@.subrange(a + k + 1, b as int))
            && crate::engine::units::unit_wf(u@),
{
    let ghost s = v@.subrange(a as int, b as int);
    assert(a < b ==> s[0] == v@[a as int]);
    if a < b && v[a] == '-' {
        return FormAt::Negation;
    }
    let to = crate::text::chars_of(" to ");
    proof {
        reveal_strlit(" to ");
    }
    assert(to@.len() == 4);
    let conv = find_pattern(v, a, b, to.as_slice());
    proof {
        reveal(conversion_at);
        assert(conv matches Some(i) ==> conversion_at(s) == Some(i - a));
        assert(conv is None ==> conversion_at(s) is None);
    }
    if let Some(i) = conv {
        return FormAt::Conversion(i - a);
    }
    match find_char(v, a, b, ' ') {
        Some(k) => {
            let (ua, ub) = trim_range(v, k + 1, b);
            assert(s.skip(k - a + 1) == v@.subrange(k + 1, b as int));
            let unit = unit_expression_exec(v, ua, ub);
            proof {
                reveal(space_unit);
                assert(unit matches Some(u) ==> space_unit(s) == Some(((k - a) as int, u@)));
                assert(unit is None ==> space_unit(s) is None);
            }
            if let Some(u) = unit {
                return FormAt::Quantity(k - a, ua, ub, u);
            }
        },
        None => {
            proof {
                reveal(space_unit);
                assert(space_unit(s) is None);
            }
        },
    }
    operator_form_exec(v, a, b)
}

/// `operator_form` of `v[a..b]`.
#[verifier::rlimit(80)]
fn operator_form_exec(v: &Vec<char>, a: usize, b: usize) -> (r: FormAt)
    requires
        a <= b <= v.len(),
    ensures
        r@ == operator_form(v@.subrange(a as int, b as int)),
        !(r is Quantity),
{
    let ghost s = v@.subrange(a as int, b as int);
    let groups = find_group_end(v, a, b);
    proof {
        reveal(groups_at);
        assert(groups matches Some(i) ==> groups_at(s) == Some(i as int));
        assert(groups is None ==> groups_at(s) is None);
    }
    if let Some(i) = groups {
        return FormAt::Groups(i);
    }
    if b - a > 2 && range_is(v, b - 2, b, "pi") {
        assert(s.skip(s.len() - 2) == v@.subrange(b - 2, b as int));
        return FormAt::PiMultiple;
    }
    assert(b - a > 2 ==> s.skip(s.len() - 2) == v@.subrange(b - 2, b as int));
    let plus_minus: [char; 2] = ['+', '-'];
    assert(plus_minus@ == seq!['+', '-']);
    let sum = find_operator(v, a, b, &plus_minus);
    proof {
        reveal(operator_in);
        assert(sum matches Some(i) ==> operator_in(s, seq!['+', '-']) == Some(i as int));
        assert(sum is None ==> operator_in(s, seq!['+', '-']) is None);
    }
    if let Some(i) = sum {
        return FormAt::Sum(i);
    }
    let times_div: [char; 2] = ['*', '/'];
    assert(times_div@ == seq!['*', '/']);
    let product = find_operator(v, a, b, &times_div);
    proof {
        reveal(operator_in);
        assert(product matches Some(i) ==> operator_in(s, seq!['*', '/']) == Some(i as int));
        assert(product is None ==> operator_in(s, seq!['*', '/']) is None);
    }
    if let Some(i) = product {
        return FormAt::Product(i);
    }
    postfix_form_exec(v, a, b)
}

/// `postfix_form` of `v[a..b]`.
#[verifier::rlimit(40)]
fn postfix_form_exec(v: &Vec<char>, a: usize, b: usize) -> (r: FormAt)
    requires
        a <= b <= v.len(),
    ensures
        r@ == postfix_form(v@.subrange(a as int, b as int)),
        !(r is Quantity),
{
    let ghost s = v@.subrange(a as int, b as int);
    let pow = find_power(v, a, b);
    proof {
        reveal(power_in);
        assert(pow matches Some(i) ==> power_in(s) == Some(i as int));
        assert(pow is None ==> power_in(s) is None);
    }
    if let Some(i) = pow {
        return FormAt::Power(i);
    }
    assert(a < b ==> s.last() == v@[b - 1]);
    if a < b && v[b - 1] == '!' {
        return FormAt::Factorial;
    }
    let call = find_call(v, a, b);
    proof {
        reveal(call_in);
        assert(call matches Some(k) ==> call_in(s) == Some(k - a));
        assert(call is None ==> call_in(s) is None);
    }
    if let Some(k) = call {
        return FormAt::Call(k - a);
    }
    if range_is(v, a, b, "pi") || range_is(v, a, b, "e") || range_is(v, a, b, "tau") {
        return FormAt::Constant;
    }
    if range_is(v, a, b, "i") {
        return FormAt::Imaginary;
    }
    FormAt::Atom
}

/// The outcome of parsing a list of arguments, as plain values.
pub open spec fn args_outcome(r: Result<Vec<Value>, Diagnostic>) -> Result<Seq<SValue>, DiagView> {
    match r {
        Ok(xs) => Ok(values_view(xs@)),
        Err(d) => Err(d@),
    }
}

/// `Parser::parse` over `v[lo..hi]`.
pub fn parse_exec(vars: &Vec<Var>, v: &Vec<char>, lo: usize, hi: usize) -> (r: Result<Value, Diagnostic>)
    requires
        lo <= hi <= v.len(),
        byte_len(v@) <= usize::MAX,
        vars_wf(vars_view(vars@)),
    ensures
        ok_or_fail(rv(r), parse_expr(vars_view(vars@), v@.subrange(lo as int, hi as int))),
        !expr_floats(vars_view(vars@), v@.subrange(lo as int, hi as int)) ==> rv(r) == parse_expr(
            vars_view(vars@),
            v@.subrange(lo as int, hi as int),
        ),
        r matches Ok(x) ==> value_wf(x@),
    decreases hi - lo, 2nat,
{
    let (a, b) = strip_outer_range(v, lo, hi);
    let f = form_exec(v, a, b);
    assert(parse_expr(vars_view(vars@), v@.subrange(lo as int, hi as int)) == parse_stripped(
        vars_view(vars@),
        v@.subrange(a as int, b as int),
    )) by {
        reveal_with_fuel(parse_expr, 1);
    }
    assert(expr_floats(vars_view(vars@), v@.subrange(lo as int, hi as int)) == stripped_floats(
        vars_view(vars@),
        v@.subrange(a as int, b as int),
    )) by {
        reveal_with_fuel(expr_floats, 1);
    }
    match f {
        FormAt::Negation | FormAt::Conversion(_) | FormAt::Quantity(..) | FormAt::Factorial => {
            parse_unary_exec(vars, v, a, b, f)
        },
        FormAt::Groups(_) | FormAt::PiMultiple | FormAt::Sum(_) | FormAt::Product(_) | FormAt::Power(
            _,
        ) => parse_binary_exec(vars, v, a, b, f),
        _ => parse_leaf_exec(vars, v, a, b, f),
    }
}

/// The forms with one operand: `-x`, `x to unit`, `x unit` and `x!`.
fn parse_unary_exec(vars: &Vec<Var>, v: &Vec<char>, a: usize, b: usize, f: FormAt) -> (r: Result<Value, Diagnostic>)
    requires
        a <= b <= v.len(),
        byte_len(v@) <= usize::MAX,
        vars_wf(vars_view(vars@)),
        f@ == form(v@.subrange(a as int, b as int)),
        f is Negation || f is Conversion || f is Quantity || f is Factorial,
        f matches FormAt::Quantity(k, ua, ub, u) ==> a + k + 1 <= ua <= ub <= b
            && v@.subrange(ua as int, ub as int) == trim(v@.subrange(a + k + 1, b as int))
            && crate::engine::units::unit_wf(u@),
    ensures
        ok_or_fail(rv(r), parse_stripped(vars_view(vars@), v@.subrange(a as int, b as int))),
        !stripped_floats(vars_view(vars@), v@.subrange(a as int, b as int)) ==> rv(r)
            == parse_stripped(vars_view(vars@), v@.subrange(a as int, b as int)),
        r matches Ok(x) ==> value_wf(x@),
    decreases b - a, 1nat,
{
    let ghost s = v@.subrange(a as int, b as int);
    proof {
        lemma_form_bounds(s);
        lemma_parse_unary(vars_view(vars@), s);
    }
    match f {
        FormAt::Negation => {
            let (c, d) = trim_range(v, a + 1, b);
            assert(s.drop_first() == v@.subrange(a + 1, b as int));
            let x = parse_exec(vars, v, c, d)?;
            negate_exec(x)
        },
        FormAt::Conversion(i) => {
            let (c, d) = trim_range(v, a, a + i);
            assert(s.take(i as int) == v@.subrange(a as int, a + i));
            let x = parse_exec(vars, v, c, d)?;
            let (e, g) = trim_range(v, a + i + 4, b);
            assert(s.skip(i + 4) == v@.subrange(a + i + 4, b as int));
            convert_exec(x, v, e, g)
        },
        FormAt::Quantity(k, ua, ub, u) => {
            let (c, d) = trim_range(v, a, a + k);
            assert(s.take(k as int) == v@.subrange(a as int, a + k));
            assert(s.skip(k + 1) == v@.subrange(a + k + 1, b as int));
            let x = parse_exec(vars, v, c, d)?;
            match x {
                Value::Rational(n) => {
                    let unit = string_of(v, ua, ub);
                    Ok(Value::Quantity(n, u.dim, unit, u.scale, u.affine))
                },
                _ => {
                    proof {
                        lemma_byte_len_subrange(v@, a as int, b as int);
                    }
                    let end = byte_len_range(v, a, b);
                    Err(err(DiagnosticKind::Dimension, crate::text::string_from("A unit needs a real scalar."), 0, end))
                },
            }
        },
        _ => {
            assert(s.drop_last() == v@.subrange(a as int, b - 1));
            let (c, d) = trim_range(v, a, b - 1);
            let x = parse_exec(vars, v, c, d)?;
            factorial_exec(&x)
        },
    }
}

/// The forms with two operands.
fn parse_binary_exec(vars: &Vec<Var>, v: &Vec<char>, a: usize, b: usize, f: FormAt) -> (r: Result<Value, Diagnostic>)
    requires
        a <= b <= v.len(),
        byte_len(v@) <= usize::MAX,
        vars_wf(vars_view(vars@)),
        f@ == form(v@.subrange(a as int, b as int)),
        f is Groups || f is PiMultiple || f is Sum || f is Product || f is Power,
    ensures
        ok_or_fail(rv(r), parse_stripped(vars_view(vars@), v@.subrange(a as int, b as int))),
        !stripped_floats(vars_view(vars@), v@.subrange(a as int, b as int)) ==> rv(r)
            == parse_stripped(vars_view(vars@), v@.subrange(a as int, b as int)),
        r matches Ok(x) ==> value_wf(x@),
    decreases b - a, 1nat,
{
    let ghost s = v@.subrange(a as int, b as int);
    proof {
        lemma_form_bounds(s);
        lemma_parse_binary(vars_view(vars@), s);
    }
    match f {
        FormAt::Groups(i) => {
            assert(s.take(i + 1) == v@.subrange(a as int, a + i + 1));
            assert(s.skip(i + 1) == v@.subrange(a + i + 1, b as int));
            parse_operands_exec(vars, v, a, a + i + 1, a + i + 1, b, '*')
        },
        FormAt::PiMultiple => {
            assert(s.take(s.len() - 2) == v@.subrange(a as int, b - 2));
            parse_pi_multiple_exec(vars, v, a, b)
        },
        FormAt::Sum(i) => {
            assert(s.take(i as int) == v@.subrange(a as int, a + i));
            assert(s.skip(i + 1) == v@.subrange(a + i + 1, b as int));
            parse_operands_exec(vars, v, a, a + i, a + i + 1, b, v[a + i])
        },
        FormAt::Product(i) => {
            assert(s.take(i as int) == v@.subrange(a as int, a + i));
            assert(s.skip(i + 1) == v@.subrange(a + i + 1, b as int));
            parse_operands_exec(vars, v, a, a + i, a + i + 1, b, v[a + i])
        },
        FormAt::Power(i) => {
            assert(s.take(i as int) == v@.subrange(a as int, a + i));
            assert(s.skip(i + 1) == v@.subrange(a + i + 1, b as int));
            parse_power_exec(vars, v, a, a + i, a + i + 1, b)
        },
        _ => {
            assert(false);
            parse_pi_multiple_exec(vars, v, a, b)
        },
    }
}

/// `x pi` in `v[a..b]`.
fn parse_pi_multiple_exec(vars: &Vec<Var>, v: &Vec<char>, a: usize, b: usize) -> (r: Result<Value, Diagnostic>)
    requires
        a + 2 <= b <= v.len(),
        byte_len(v@) <= usize::MAX,
        vars_wf(vars_view(vars@)),
    ensures
        ok_or_fail(
            rv(r),
            binary_of(parse_expr(vars_view(vars@), v@.subrange(a as int, b - 2)), approx_const("pi"@), '*'),
        ),
        r matches Ok(x) ==> value_wf(x@),
    decreases b - a, 0nat,
{
    let x = parse_exec(vars, v, a, b - 2)?;
    let p = approx_const_exec("pi")?;
    binary_exec(x, p, '*')
}

/// `power` of the values of `v[a0..a1]` and `v[b0..b1]`.
fn parse_power_exec(vars: &Vec<Var>, v: &Vec<char>, a0: usize, a1: usize, b0: usize, b1: usize) -> (r: Result<Value, Diagnostic>)
    requires
        a0 <= a1 <= b0 <= b1 <= v.len(),
        a1 - a0 < b1 - a0,
        b1 - b0 < b1 - a0,
        byte_len(v@) <= usize::MAX,
        vars_wf(vars_view(vars@)),
    ensures
        ok_or_fail(
            rv(r),
            match parse_expr(vars_view(vars@), v@.subrange(a0 as int, a1 as int)) {
                Err(e) => Err(e),
                Ok(x) => match parse_expr(vars_view(vars@), v@.subrange(b0 as int, b1 as int)) {
                    Err(e) => Err(e),
                    Ok(y) => power(x, y),
                },
            },
        ),
        !(expr_floats(vars_view(vars@), v@.subrange(a0 as int, a1 as int)) || expr_floats(
            vars_view(vars@),
            v@.subrange(b0 as int, b1 as int),
        )) ==> rv(r) == match parse_expr(vars_view(vars@), v@.subrange(a0 as int, a1 as int)) {
            Err(e) => Err(e),
            Ok(x) => match parse_expr(vars_view(vars@), v@.subrange(b0 as int, b1 as int)) {
                Err(e) => Err(e),
                Ok(y) => power(x, y),
            },
        },
        r matches Ok(x) ==> value_wf(x@),
    decreases b1 - a0, 0nat,
{
    let x = parse_exec(vars, v, a0, a1)?;
    let y = parse_exec(vars, v, b0, b1)?;
    power_exec(x, y)
}

/// `binary` of the values of `v[a0..a1]` and `v[b0..b1]`.
fn parse_operands_exec(
    vars: &Vec<Var>,
    v: &Vec<char>,
    a0: usize,
    a1: usize,
    b0: usize,
    b1: usize,
    op: char,
) -> (r: Result<Value, Diagnostic>)
    requires
        a0 <= a1 <= b0 <= b1 <= v.len(),
        a1 - a0 < b1 - a0,
        b1 - b0 < b1 - a0,
        byte_len(v@) <= usize::MAX,
        vars_wf(vars_view(vars@)),
    ensures
        ok_or_fail(
            rv(r),
            binary_of(
                parse_expr(vars_view(vars@), v@.subrange(a0 as int, a1 as int)),
                parse_expr(vars_view(vars@), v@.subrange(b0 as int, b1 as int)),
                op,
            ),
        ),
        !(expr_floats(vars_view(vars@), v@.subrange(a0 as int, a1 as int)) || expr_floats(
            vars_view(vars@),
            v@.subrange(b0 as int, b1 as int),
        ) || is_approx_ok(parse_expr(vars_view(vars@), v@.subrange(a0 as int, a1 as int)))
            || is_approx_ok(parse_expr(vars_view(vars@), v@.subrange(b0 as int, b1 as int))))
            ==> rv(r) == binary_of(
            parse_expr(vars_view(vars@), v@.subrange(a0 as int, a1 as int)),
            parse_expr(vars_view(vars@), v@.subrange(b0 as int, b1 as int)),
            op,
        ),
        r matches Ok(x) ==> value_wf(x@),
    decreases b1 - a0, 0nat,
{
    let x = parse_exec(vars, v, a0, a1)?;
    let y = parse_exec(vars, v, b0, b1)?;
    binary_exec(x, y, op)
}

/// Calls, constants, `i`, variables and literals.
fn parse_leaf_exec(vars: &Vec<Var>, v: &Vec<char>, a: usize, b: usize, f: FormAt) -> (r: Result<Value, Diagnostic>)
    requires
        a <= b <= v.len(),
        byte_len(v@) <= usize::MAX,
        vars_wf(vars_view(vars@)),
        f@ == form(v@.subrange(a as int, b as int)),
        f is Call || f is Constant || f is Imaginary || f is Atom,
    ensures
        ok_or_fail(rv(r), parse_stripped(vars_view(vars@), v@.subrange(a as int, b as int))),
        !stripped_floats(vars_view(vars@), v@.subrange(a as int, b as int)) ==> rv(r)
            == parse_stripped(vars_view(vars@), v@.subrange(a as int, b as int)),
        r matches Ok(x) ==> value_wf(x@),
    decreases b - a, 1nat,
{
    let ghost vs = vars_view(vars@);
    let ghost s = v@.subrange(a as int, b as int);
    proof {
        lemma_form_bounds(s);
        lemma_parse_leaf(vars_view(vars@), s);
    }
    match f {
        FormAt::Call(k) => {
            assert(s.subrange(k + 1, s.len() - 1) == v@.subrange(a + k + 1, b - 1));
            assert(s.take(k as int) == v@.subrange(a as int, a + k));
            let args = parse_args_exec(vars, v, a + k + 1, b - 1)?;
            let (na, nb) = trim_range(v, a, a + k);
            let name = string_of(v, na, nb);
            function_exec(name.as_str(), &args)
        },
        FormAt::Constant => {
            let name = string_of(v, a, b);
            approx_const_exec(name.as_str())
        },
        FormAt::Imaginary => {
            Ok(Value::Complex(rat_from_int(&int_from_u64(0)), rat_from_int(&int_from_u64(1))))
        },
        _ => {
            let name = crate::text::sub_vec(v, a, b);
            match vars_get(vars, &name) {
                Some(x) => {
                    proof {
                        crate::engine::vars::lemma_lookup_wf(vs, name@);
                    }
                    Ok(x)
                },
                None => parse_rational_exec(v, a, b),
            }
        },
    }
}

/// A value put in front of a list of values.
fn cons_value(x: Value, rest: Vec<Value>) -> (r: Vec<Value>)
    requires
        value_wf(x@),
        all_wf(values_view(rest@)),
    ensures
        values_view(r@) == seq![x@] + values_view(rest@),
        all_wf(values_view(r@)),
{
    let ghost rest_view = values_view(rest@);
    let ghost xv = x@;
    let mut out: Vec<Value> = Vec::new();
    out.push(x);
    let mut rest = rest;
    out.append(&mut rest);
    assert(values_view(out@) == seq![xv] + rest_view);
    assert(all_wf(values_view(out@))) by {
        assert forall|k: int| 0 <= k < values_view(out@).len() implies value_wf(
            #[trigger] values_view(out@)[k],
        ) by {
            if k > 0 {
                assert(values_view(out@)[k] == rest_view[k - 1]);
            }
        }
    }
    out
}

/// The comma-separated arguments in `v[lo..hi]`.
pub fn parse_args_exec(vars: &Vec<Var>, v: &Vec<char>, lo: usize, hi: usize) -> (r: Result<Vec<Value>, Diagnostic>)
    requires
        lo <= hi <= v.len(),
        byte_len(v@) <= usize::MAX,
        vars_wf(vars_view(vars@)),
    ensures
        ok_or_fail(args_outcome(r), parse_args(vars_view(vars@), v@.subrange(lo as int, hi as int))),
        !args_floats(vars_view(vars@), v@.subrange(lo as int, hi as int)) ==> args_outcome(r)
            == parse_args(vars_view(vars@), v@.subrange(lo as int, hi as int)),
        r matches Ok(xs) ==> all_wf(values_view(xs@)),
    decreases hi - lo, 3nat,
{
    match find_char(v, lo, hi, ',') {
        Some(c) => parse_args_comma_exec(vars, v, lo, c, hi),
        None => {
            let ghost s = v@.subrange(lo as int, hi as int);
            proof {
                lemma_parse_args_last(vars_view(vars@), s);
            }
            let (x0, x1) = trim_range(v, lo, hi);
            let x = parse_exec(vars, v, x0, x1)?;
            let mut out: Vec<Value> = Vec::new();
            out.push(x);
            assert(values_view(out@) == seq![out@[0]@]);
            Ok(out)
        },
    }
}

/// The arguments in `v[lo..hi]` whose first comma is at `c`.
#[verifier::spinoff_prover]
fn parse_args_comma_exec(vars: &Vec<Var>, v: &Vec<char>, lo: usize, c: usize, hi: usize) -> (r: Result<Vec<Value>, Diagnostic>)
    requires
        lo <= c < hi <= v.len(),
        first_index(v@.subrange(lo as int, hi as int), ',') == Some(c - lo),
        byte_len(v@) <= usize::MAX,
        vars_wf(vars_view(vars@)),
    ensures
        ok_or_fail(args_outcome(r), parse_args(vars_view(vars@), v@.subrange(lo as int, hi as int))),
        !args_floats(vars_view(vars@), v@.subrange(lo as int, hi as int)) ==> args_outcome(r)
            == parse_args(vars_view(vars@), v@.subrange(lo as int, hi as int)),
        r matches Ok(xs) ==> all_wf(values_view(xs@)),
    decreases hi - lo, 2nat,
{
    let ghost s = v@.subrange(lo as int, hi as int);
    proof {
        lemma_parse_args_comma(vars_view(vars@), s, c - lo);
    }
    assert(s.take(c - lo) == v@.subrange(lo as int, c as int));
    assert(s.skip(c - lo + 1) == v@.subrange(c + 1, hi as int));
    let (x0, x1) = trim_range(v, lo, c);
    let x = parse_exec(vars, v, x0, x1)?;
    let rest = parse_args_exec(vars, v, c + 1, hi)?;
    Ok(cons_value(x, rest))
}

} // verus!
