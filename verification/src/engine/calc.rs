//! The calculator: evaluation of input lines, variables defined by
//! assignments, previews, and saving and restoring the definitions.
use vstd::prelude::*;
use crate::engine::types::{
    DefinitionSnapshot, DiagView, Diagnostic, DiagnosticKind, EvalView, Evaluation, RestoreReport,
    SessionSnapshot, definitions_view, diagnostics_view, dg, err, opt_view,
};
use crate::engine::value::{SValue, Value, value_clone};
use crate::engine::ops::{ok_or_fail, res_fail, value_wf};
use crate::engine::display::{display, display_exec, display_floats, text_pair};
use crate::engine::parse::{expr_floats, parse_expr, parse_exec};
use crate::engine::syntax::{is_valid_name, valid_name};
use crate::engine::units::{base_name, base_name_str};
use crate::engine::complete::{complete_exec, complete_spec, completions_view};
use crate::engine::types::Completion;
use crate::engine::vars::{Var, VarView, lemma_vars_insert, vars_insert, vars_put, vars_view, vars_wf};
use crate::text::{
    byte_len, byte_len_range, chars_of, find_char, first_index, lemma_byte_len_subrange, range_is,
    str_eq, string_from, string_of, trim, trim_range,
};

verus! {

/// Names an assignment may not take: the units, the constants and the
/// common functions.
pub open spec fn reserved(name: Seq<char>) -> bool {
    (exists|k: int| 0 <= k < 34 && base_name(k) == name) || name == "pi"@ || name == "e"@ || name
        == "tau"@ || name == "i"@ || name == "sqrt"@ || name == "sin"@ || name == "cos"@ || name
        == "tan"@ || name == "ln"@ || name == "log"@
}

/// `reserved` over `v[lo..hi]`.
pub fn reserved_exec(v: &Vec<char>, lo: usize, hi: usize) -> (r: bool)
    requires
        lo <= hi <= v.len(),
    ensures
        r == reserved(v@.subrange(lo as int, hi as int)),
{
    let ghost name = v@.subrange(lo as int, hi as int);
    let mut k: usize = 0;
    while k < 34
        invariant
            k <= 34,
            lo <= hi <= v.len(),
            name == v@.subrange(lo as int, hi as int),
            forall|j: int| 0 <= j < k ==> base_name(j) != name,
        decreases 34 - k,
    {
        if range_is(v, lo, hi, base_name_str(k)) {
            return true;
        }
        k = k + 1;
    }
    range_is(v, lo, hi, "pi") || range_is(v, lo, hi, "e") || range_is(v, lo, hi, "tau") || range_is(
        v,
        lo,
        hi,
        "i",
    ) || range_is(v, lo, hi, "sqrt") || range_is(v, lo, hi, "sin") || range_is(v, lo, hi, "cos")
        || range_is(v, lo, hi, "tan") || range_is(v, lo, hi, "ln") || range_is(v, lo, hi, "log")
}

/// The name and expression of an assignment `name = expression`, split at
/// the first `=`.
pub open spec fn assignment_split(input: Seq<char>) -> Option<(Seq<char>, Seq<char>)> {
    match first_index(input, '=') {
        Some(k) => Some((trim(input.take(k)), trim(input.skip(k + 1)))),
        None => None,
    }
}

/// The assigned name, if any, and the value of an input line.
pub open spec fn eval_value(vars: Seq<VarView>, input: Seq<char>) -> Result<
    (Option<Seq<char>>, SValue),
    DiagView,
> {
    if byte_len(input) > 4096 {
        Err(
            DiagView {
                kind: DiagnosticKind::Limit,
                message: "Input exceeds 4096 bytes."@,
                start: 0,
                end: byte_len(input) as int,
            },
        )
    } else if input.len() == 0 {
        Err(dg(DiagnosticKind::Parse, "Expected an expression."@))
    } else {
        match assignment_split(input) {
            Some((name, rest)) => if !valid_name(name) || reserved(name) {
                Err(
                    DiagView {
                        kind: DiagnosticKind::Parse,
                        message: "Invalid assignment target."@,
                        start: 0,
                        end: byte_len(name) as int,
                    },
                )
            } else {
                match parse_expr(vars, rest) {
                    Err(e) => Err(e),
                    Ok(v) => Ok((Some(name), v)),
                }
            },
            None => match parse_expr(vars, input) {
                Err(e) => Err(e),
                Ok(v) => Ok((None, v)),
            },
        }
    }
}

/// Evaluating the line reaches an approximate computation: in the value of
/// its expression, or in showing a fraction's or an approximation's decimal
/// form.
pub open spec fn eval_floats(vars: Seq<VarView>, input: Seq<char>) -> bool {
    &&& byte_len(input) <= 4096
    &&& input.len() > 0
    &&& match assignment_split(input) {
        Some((name, rest)) => valid_name(name) && !reserved(name) && (expr_floats(vars, rest) || (
        parse_expr(vars, rest) matches Ok(v) && display_floats(v))),
        None => expr_floats(vars, input) || (parse_expr(vars, input) matches Ok(v) && display_floats(
            v,
        )),
    }
}

/// The refusal of a line longer than 4096 bytes.
pub open spec fn limit_error(input: Seq<char>) -> DiagView {
    DiagView {
        kind: DiagnosticKind::Limit,
        message: "Input exceeds 4096 bytes."@,
        start: 0,
        end: byte_len(input) as int,
    }
}

/// The variables after an input line: an assignment defines its name, with
/// the line as its source.
pub open spec fn eval_vars(vars: Seq<VarView>, input: Seq<char>) -> Seq<VarView> {
    match eval_value(vars, input) {
        Ok((Some(name), v)) => vars_insert(vars, VarView { name, value: v, source: input }),
        _ => vars,
    }
}

/// What evaluating an input line shows.
pub open spec fn eval_result(vars: Seq<VarView>, input: Seq<char>) -> Result<EvalView, DiagView> {
    match eval_value(vars, input) {
        Err(e) => Err(e),
        Ok((name, v)) => Ok(
            EvalView { primary: display(v).0, approximation: display(v).1, assignment: name },
        ),
    }
}

pub open spec fn eval_outcome(r: Result<Evaluation, Diagnostic>) -> Result<EvalView, DiagView> {
    match r {
        Ok(e) => Ok(e@),
        Err(d) => Err(d@),
    }
}

/// The definitions a snapshot lists: each variable's name and source, in
/// the order of the names.
pub open spec fn snapshot_defs(vars: Seq<VarView>) -> Seq<(Seq<char>, Seq<char>)> {
    Seq::new(vars.len(), |i: int| (vars[i].name, vars[i].source))
}

/// The variables after evaluating the sources in order, from none.
pub open spec fn restore_vars(defs: Seq<(Seq<char>, Seq<char>)>) -> Seq<VarView>
    decreases defs.len(),
{
    if defs.len() == 0 {
        Seq::empty()
    } else {
        eval_vars(restore_vars(defs.drop_last()), defs.last().1)
    }
}

/// No source reaches an approximate computation when the sources are
/// evaluated in order, from no variables.
pub open spec fn restore_exact(defs: Seq<(Seq<char>, Seq<char>)>) -> bool {
    forall|k: int| 0 <= k < defs.len() ==> !eval_floats(restore_vars(#[trigger] defs.take(k)), defs[k].1)
}

/// The failures of evaluating the sources in order, from no variables.
pub open spec fn restore_discarded(defs: Seq<(Seq<char>, Seq<char>)>) -> Seq<DiagView>
    decreases defs.len(),
{
    if defs.len() == 0 {
        Seq::empty()
    } else {
        match eval_result(restore_vars(defs.drop_last()), defs.last().1) {
            Err(e) => restore_discarded(defs.drop_last()).push(e),
            Ok(_) => restore_discarded(defs.drop_last()),
        }
    }
}

/// The diagnostic for each definition of a snapshot in an unknown format.
pub open spec fn format_discarded(defs: Seq<(Seq<char>, Seq<char>)>) -> Seq<DiagView> {
    Seq::new(
        defs.len(),
        |i: int|
            DiagView {
                kind: DiagnosticKind::Unsupported,
                message: "Unsupported calculator session format."@,
                start: 0,
                end: byte_len(defs[i].1) as int,
            },
    )
}

/// What `preview` shows: the line evaluated on the definitions restored
/// from a snapshot of `vars`; nothing for a blank line.
pub open spec fn preview_result(vars: Seq<VarView>, input: Seq<char>) -> Result<
    Option<EvalView>,
    DiagView,
> {
    if trim(input).len() == 0 {
        Ok(None)
    } else {
        match eval_result(restore_vars(snapshot_defs(vars)), input) {
            Err(e) => Err(e),
            Ok(v) => Ok(Some(v)),
        }
    }
}

/// Previewing the line reaches an approximate computation: in restoring
/// the stored definitions or in evaluating the line on them.
pub open spec fn preview_floats(vars: Seq<VarView>, input: Seq<char>) -> bool {
    &&& trim(input).len() > 0
    &&& (!restore_exact(snapshot_defs(vars)) || eval_floats(restore_vars(snapshot_defs(vars)), input))
}

pub open spec fn preview_outcome(r: Result<Option<Evaluation>, Diagnostic>) -> Result<
    Option<EvalView>,
    DiagView,
> {
    match r {
        Ok(Some(e)) => Ok(Some(e@)),
        Ok(None) => Ok(None),
        Err(d) => Err(d@),
    }
}

/// Whether a diagnostic reports a failure of the machine.
pub fn is_machine_failure(d: &Diagnostic) -> (r: bool)
    ensures
        r == res_fail(d@),
{
    d.span.start == 0 && d.span.end == 0 && ((d.kind == DiagnosticKind::Limit && str_eq(
        d.message.as_str(),
        "Constants unavailable.",
    )) || (d.kind == DiagnosticKind::Domain && str_eq(d.message.as_str(), "Could not format result.")))
}

/// The calculator: its variables, each with the line that defined it.
pub struct Calculator {
    vars: Vec<Var>,
}

impl Calculator {
    #[verifier::type_invariant]
    spec fn inv(&self) -> bool {
        vars_wf(vars_view(self.vars@))
    }
}

impl View for Calculator {
    type V = Seq<VarView>;

    closed spec fn view(&self) -> Seq<VarView> {
        vars_view(self.vars@)
    }
}

impl Calculator {
    /// A calculator without variables.
    pub fn new() -> (r: Self)
        ensures
            r@ == Seq::<VarView>::empty(),
    {
        let c = Calculator { vars: Vec::new() };
        assert(vars_view(c.vars@) == Seq::<VarView>::empty());
        c
    }

    /// `eval`: evaluates a line; an assignment is stored when `commit`
    /// holds. A failure of the machine may cut the evaluation short, before
    /// or after the assignment is stored.
    #[verifier::rlimit(50)]
    fn eval(&mut self, input: &str, commit: bool) -> (r: Result<Evaluation, Diagnostic>)
        ensures
            vars_wf(final(self)@),
            ok_or_fail(eval_outcome(r), eval_result(old(self)@, input@)),
            final(self)@ == (if commit {
                eval_vars(old(self)@, input@)
            } else {
                old(self)@
            }) || (r matches Err(d) && res_fail(d@) && final(self)@ == old(self)@),
            !eval_floats(old(self)@, input@) ==> eval_outcome(r) == eval_result(old(self)@, input@)
                && final(self)@ == (if commit {
                eval_vars(old(self)@, input@)
            } else {
                old(self)@
            }),
            byte_len(input@) > 4096 ==> eval_outcome(r) == Err::<EvalView, DiagView>(
                limit_error(input@),
            ) && final(self)@ == old(self)@,
    {
        proof {
            use_type_invariant(&*self);
        }
        let ghost vars0 = self@;
        let nbytes = input.as_bytes().len();
        if nbytes > 4096 {
            return Err(err(DiagnosticKind::Limit, string_from("Input exceeds 4096 bytes."), 0, nbytes));
        }
        let v = chars_of(input);
        let n = v.len();
        assert(v@.subrange(0, n as int) == v@);
        if n == 0 {
            return Err(err(DiagnosticKind::Parse, string_from("Expected an expression."), 0, 0));
        }
        let (name, value): (Option<String>, Value) = match find_char(&v, 0, n, '=') {
            Some(k) => {
                let (a, b) = trim_range(&v, 0, k);
                assert(v@.take(k as int) == v@.subrange(0, k as int));
                assert(v@.skip(k + 1) == v@.subrange(k + 1, n as int));
                if !is_valid_name(&v, a, b) || reserved_exec(&v, a, b) {
                    proof {
                        lemma_byte_len_subrange(v@, a as int, b as int);
                    }
                    let end = byte_len_range(&v, a, b);
                    return Err(err(DiagnosticKind::Parse, string_from("Invalid assignment target."), 0, end));
                }
                let (c, d) = trim_range(&v, k + 1, n);
                let x = parse_exec(&self.vars, &v, c, d)?;
                (Some(string_of(&v, a, b)), x)
            },
            None => {
                let x = parse_exec(&self.vars, &v, 0, n)?;
                (None, x)
            },
        };
        if commit {
            if let Some(nm) = &name {
                let d = Var { name: nm.clone(), value: value_clone(&value), source: string_from(input) };
                let mut vars = Vec::new();
                std::mem::swap(&mut vars, &mut self.vars);
                vars_put(&mut vars, d);
                self.vars = vars;
            }
        }
        let (primary, approximation) = display_exec(&value)?;
        Ok(Evaluation { primary, approximation, assignment: name })
    }

    /// Evaluates a line, storing an assignment.
    pub fn evaluate(&mut self, input: &str) -> (r: Result<Evaluation, Diagnostic>)
        ensures
            vars_wf(final(self)@),
            ok_or_fail(eval_outcome(r), eval_result(old(self)@, input@)),
            final(self)@ == eval_vars(old(self)@, input@) || (r matches Err(d) && res_fail(d@)
                && final(self)@ == old(self)@),
            !eval_floats(old(self)@, input@) ==> eval_outcome(r) == eval_result(old(self)@, input@)
                && final(self)@ == eval_vars(old(self)@, input@),
            byte_len(input@) > 4096 ==> eval_outcome(r) == Err::<EvalView, DiagView>(
                limit_error(input@),
            ) && final(self)@ == old(self)@,
    {
        self.eval(input, true)
    }

    /// The definitions, in the order of their names, with the current
    /// format number.
    pub fn snapshot(&self) -> (r: SessionSnapshot)
        ensures
            r.schema_version == 1,
            definitions_view(r.definitions@) == snapshot_defs(self@),
    {
        let mut defs: Vec<DefinitionSnapshot> = Vec::new();
        let mut i: usize = 0;
        while i < self.vars.len()
            invariant
                i <= self.vars@.len(),
                definitions_view(defs@) == snapshot_defs(self@).take(i as int),
            decreases self.vars@.len() - i,
        {
            let d = DefinitionSnapshot { name: self.vars[i].name.clone(), source: self.vars[i].source.clone() };
            let ghost dv = d@;
            assert(dv == snapshot_defs(self@)[i as int]);
            let ghost prev = defs@;
            defs.push(d);
            assert(definitions_view(defs@) == definitions_view(prev).push(dv));
            assert(snapshot_defs(self@).take(i + 1) == snapshot_defs(self@).take(i as int).push(dv));
            i = i + 1;
        }
        assert(snapshot_defs(self@).take(self.vars@.len() as int) == snapshot_defs(self@));
        SessionSnapshot { schema_version: 1, definitions: defs }
    }

    /// Replaces the variables by the definitions of a snapshot, evaluating
    /// their sources in order; the report counts those that evaluated and
    /// lists why the others did not. A snapshot in another format restores
    /// nothing. When no evaluation failed for want of machine resources, the
    /// result is exactly the one stated.
    pub fn restore(&mut self, s: &SessionSnapshot) -> (r: RestoreReport)
        ensures
            vars_wf(final(self)@),
            s.schema_version != 1 ==> final(self)@ == Seq::<VarView>::empty() && r.restored == 0
                && diagnostics_view(r.discarded@) == format_discarded(definitions_view(s.definitions@)),
            s.schema_version == 1 ==> r.restored + r.discarded@.len() == s.definitions@.len(),
            s.schema_version == 1 && (forall|k: int| 0 <= k < r.discarded@.len() ==> !res_fail(#[trigger] r.discarded@[k]@))
                ==> final(self)@ == restore_vars(definitions_view(s.definitions@))
                && diagnostics_view(r.discarded@) == restore_discarded(definitions_view(s.definitions@)),
            s.schema_version == 1 && restore_exact(definitions_view(s.definitions@)) ==> final(self)@
                == restore_vars(definitions_view(s.definitions@)) && diagnostics_view(r.discarded@)
                == restore_discarded(definitions_view(s.definitions@)),
    {
        let ghost defs = definitions_view(s.definitions@);
        self.vars = Vec::new();
        assert(self@ == Seq::<VarView>::empty());
        if s.schema_version != 1 {
            let mut discarded: Vec<Diagnostic> = Vec::new();
            let mut i: usize = 0;
            while i < s.definitions.len()
                invariant
                    i <= s.definitions@.len(),
                    defs == definitions_view(s.definitions@),
                    diagnostics_view(discarded@) == format_discarded(defs).take(i as int),
                decreases s.definitions@.len() - i,
            {
                let src = s.definitions[i].source.as_str();
                let end = src.as_bytes().len();
                let d = err(DiagnosticKind::Unsupported, string_from("Unsupported calculator session format."), 0, end);
                let ghost dv = d@;
                assert(dv == format_discarded(defs)[i as int]);
                let ghost prev = discarded@;
                discarded.push(d);
                assert(diagnostics_view(discarded@) == diagnostics_view(prev).push(dv));
                assert(format_discarded(defs).take(i + 1) == format_discarded(defs).take(i as int).push(dv));
                i = i + 1;
            }
            assert(format_discarded(defs).take(defs.len() as int) == format_discarded(defs));
            return RestoreReport { restored: 0, discarded };
        }
        let mut restored: usize = 0;
        let mut discarded: Vec<Diagnostic> = Vec::new();
        let mut i: usize = 0;
        while i < s.definitions.len()
            invariant
                i <= s.definitions@.len(),
                defs == definitions_view(s.definitions@),
                vars_wf(self@),
                restored + discarded@.len() == i,
                (forall|k: int| 0 <= k < discarded@.len() ==> !res_fail(#[trigger] discarded@[k]@)) ==> (
                self@ == restore_vars(defs.take(i as int)) && diagnostics_view(discarded@)
                    == restore_discarded(defs.take(i as int))),
                restore_exact(defs) ==> (self@ == restore_vars(defs.take(i as int)) && diagnostics_view(
                    discarded@,
                ) == restore_discarded(defs.take(i as int))),
            decreases s.definitions@.len() - i,
        {
            let ghost before = self@;
            let ghost clean = forall|k: int| 0 <= k < discarded@.len() ==> !res_fail(#[trigger] discarded@[k]@);
            let ghost old_discarded = discarded@;
            assert(defs.take(i + 1).drop_last() == defs.take(i as int));
            assert(defs.take(i + 1).last() == defs[i as int]);
            assert(restore_vars(defs.take(i + 1)) == eval_vars(restore_vars(defs.take(i as int)), defs[i as int].1));
            assert(restore_discarded(defs.take(i + 1)) == match eval_result(restore_vars(defs.take(i as int)), defs[i as int].1) {
                Err(e) => restore_discarded(defs.take(i as int)).push(e),
                Ok(_) => restore_discarded(defs.take(i as int)),
            });
            proof {
                if restore_exact(defs) {
                    assert(!eval_floats(restore_vars(defs.take(i as int)), defs[i as int].1));
                }
            }
            match self.evaluate(s.definitions[i].source.as_str()) {
                Ok(_) => {
                    restored = restored + 1;
                },
                Err(e) => {
                    discarded.push(e);
                },
            }
            proof {
                if forall|k: int| 0 <= k < discarded@.len() ==> !res_fail(#[trigger] discarded@[k]@) {
                    assert forall|k: int| 0 <= k < old_discarded.len() implies !res_fail(#[trigger] old_discarded[k]@) by {
                        assert(old_discarded[k] == discarded@[k]);
                    }
                    assert(diagnostics_view(old_discarded) == restore_discarded(defs.take(i as int)));
                    if discarded@.len() > old_discarded.len() {
                        assert(diagnostics_view(discarded@) == diagnostics_view(old_discarded).push(discarded@.last()@));
                    } else {
                        assert(diagnostics_view(discarded@) == diagnostics_view(old_discarded));
                    }
                    assert(diagnostics_view(discarded@) == restore_discarded(defs.take(i + 1)));
                }
                if restore_exact(defs) {
                    if discarded@.len() > old_discarded.len() {
                        assert(diagnostics_view(discarded@) == diagnostics_view(old_discarded).push(discarded@.last()@));
                    } else {
                        assert(diagnostics_view(discarded@) == diagnostics_view(old_discarded));
                    }
                }
            }
            i = i + 1;
        }
        assert(defs.take(defs.len() as int) == defs);
        RestoreReport { restored, discarded }
    }

    /// The functions, constants, units and variables whose names start with
    /// the identifier ending at byte offset `cursor`; none when `cursor` is
    /// not a character boundary of `input`.
    pub fn complete(&self, input: &str, cursor: usize) -> (r: Vec<Completion>)
        ensures
            completions_view(r@) == complete_spec(self@, input@, cursor as int),
    {
        complete_exec(&self.vars, input, cursor)
    }

    /// Evaluates a line on a fresh calculator restored from a snapshot of
    /// this one, leaving this one unchanged; a blank line gives nothing.
    /// A failure of the machine while restoring is reported as the error.
    pub fn preview(&self, input: &str) -> (r: Result<Option<Evaluation>, Diagnostic>)
        ensures
            ok_or_fail(preview_outcome(r), preview_result(self@, input@)),
            trim(input@).len() == 0 ==> r matches Ok(None),
            !preview_floats(self@, input@) ==> preview_outcome(r) == preview_result(self@, input@),
    {
        let v = chars_of(input);
        let (a, b) = trim_range(&v, 0, v.len());
        assert(v@.subrange(0, v@.len() as int) == v@);
        if a == b {
            return Ok(None);
        }
        assert(trim(input@).len() > 0);
        let mut c = Calculator::new();
        let snap = self.snapshot();
        let ghost defs = definitions_view(snap.definitions@);
        let report = c.restore(&snap);
        proof {
            crate::engine::machine::lemma_restore_discarded(defs);
            if restore_exact(defs) {
                assert forall|j: int| 0 <= j < report.discarded@.len() implies !res_fail(
                    #[trigger] report.discarded@[j]@,
                ) by {
                    assert(diagnostics_view(report.discarded@)[j] == report.discarded@[j]@);
                }
            }
        }
        let mut k: usize = 0;
        while k < report.discarded.len()
            invariant
                k <= report.discarded@.len(),
                trim(input@).len() > 0,
                forall|j: int| 0 <= j < k ==> !res_fail(#[trigger] report.discarded@[j]@),
                defs == snapshot_defs(self@),
                restore_exact(defs) ==> forall|j: int|
                    0 <= j < report.discarded@.len() ==> !res_fail(#[trigger] report.discarded@[j]@),
            decreases report.discarded@.len() - k,
        {
            if is_machine_failure(&report.discarded[k]) {
                return Err(report.discarded[k].clone());
            }
            k = k + 1;
        }
        match c.eval(input, true) {
            Ok(e) => Ok(Some(e)),
            Err(d) => Err(d),
        }
    }
}

impl Default for Calculator {
    fn default() -> (r: Self)
        ensures
            r@ == Seq::<VarView>::empty(),
    {
        Calculator::new()
    }
}

} // verus!
