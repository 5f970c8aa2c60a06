//! The calculator workspace: the line being typed, the transcript of
//! evaluated lines, the stored definitions, and the live preview and
//! completions.
use vstd::prelude::*;
use crate::domain::session::{
    CalculatorSnapshot, CalculatorSnapshotView, HistoryOutcomeSnapshot, HistorySnapshot,
    HistoryView, OutcomeView, clone_opt, history_snapshots_view, opt_chars,
};
use crate::engine::calc::{
    Calculator, eval_floats, eval_outcome, eval_result, eval_vars, preview_floats, preview_outcome,
    preview_result, restore_discarded, restore_exact, restore_vars, snapshot_defs,
};
use crate::engine::complete::{
    CompletionView, complete_spec, completions_view, cursor_index, cursor_index_exec,
    lemma_completion_replaces_word, word_start,
};
use crate::engine::ops::{ok_or_fail, res_fail};
use crate::engine::types::{
    Completion, DiagView, Diagnostic, EvalView, Evaluation, SessionSnapshot as CalcSession,
    definitions_view, diagnostics_view, session_view,
};
use crate::engine::vars::VarView;
use crate::text::{lemma_trim_empty, byte_len, starts, chars_of, string_from, string_of, trim, trim_range};

verus! {

/// A result in the transcript.
#[derive(Debug, PartialEq, Eq)]
pub enum HistoryOutcome {
    Value { primary: String, approximation: Option<String> },
    Error { message: String },
}

/// One evaluated line of the transcript.
#[derive(Debug, PartialEq, Eq)]
pub struct HistoryEntry {
    pub input: String,
    pub outcome: HistoryOutcome,
}

impl vstd::view::View for HistoryOutcome {
    type V = OutcomeView;

    open spec fn view(&self) -> OutcomeView {
        match self {
            HistoryOutcome::Value { primary, approximation } => OutcomeView::Value(
                primary@,
                opt_chars(*approximation),
            ),
            HistoryOutcome::Error { message } => OutcomeView::Error(message@),
        }
    }
}

impl vstd::view::View for HistoryEntry {
    type V = HistoryView;

    open spec fn view(&self) -> HistoryView {
        HistoryView { input: self.input@, outcome: self.outcome@ }
    }
}

pub open spec fn entries_view(h: Seq<HistoryEntry>) -> Seq<HistoryView> {
    Seq::new(h.len(), |i: int| h[i]@)
}

impl Clone for HistoryOutcome {
    fn clone(&self) -> (r: Self)
        ensures
            r@ == self@,
    {
        match self {
            HistoryOutcome::Value { primary, approximation } => HistoryOutcome::Value {
                primary: primary.clone(),
                approximation: clone_opt(approximation),
            },
            HistoryOutcome::Error { message } => HistoryOutcome::Error { message: message.clone() },
        }
    }
}

impl Clone for HistoryEntry {
    fn clone(&self) -> (r: Self)
        ensures
            r@ == self@,
    {
        HistoryEntry { input: self.input.clone(), outcome: self.outcome.clone() }
    }
}

impl HistoryEntry {
    /// The entry a persisted form describes.
    pub fn from_snapshot(value: HistorySnapshot) -> (r: Self)
        ensures
            r@ == value@,
    {
        let outcome = match value.outcome {
            HistoryOutcomeSnapshot::Value { primary, approximation } => HistoryOutcome::Value {
                primary,
                approximation,
            },
            HistoryOutcomeSnapshot::Error { message } => HistoryOutcome::Error { message },
        };
        HistoryEntry { input: value.input, outcome }
    }

    /// The persisted form of the entry.
    pub fn snapshot(&self) -> (r: HistorySnapshot)
        ensures
            r@ == self@,
    {
        let outcome = match &self.outcome {
            HistoryOutcome::Value { primary, approximation } => HistoryOutcomeSnapshot::Value {
                primary: primary.clone(),
                approximation: clone_opt(approximation),
            },
            HistoryOutcome::Error { message } => HistoryOutcomeSnapshot::Error {
                message: message.clone(),
            },
        };
        HistorySnapshot { input: self.input.clone(), outcome }
    }
}

/// The live part of the workspace, rebuilt from the persisted definitions.
struct CalculatorRuntime {
    calculator: Calculator,
    preview: Result<Option<Evaluation>, Diagnostic>,
    completions: Vec<Completion>,
    history_cursor: Option<usize>,
    restore_warning: Option<String>,
}

/// The calculator workspace as plain values.
pub struct CalcStateView {
    pub input: Seq<char>,
    pub history: Seq<HistoryView>,
    pub session: (u16, Seq<(Seq<char>, Seq<char>)>),
    pub vars: Seq<VarView>,
    pub preview: Result<Option<EvalView>, DiagView>,
    pub completions: Seq<CompletionView>,
    pub cursor: Option<usize>,
    pub warning: Option<Seq<char>>,
}

/// The calculator workspace.
pub struct CalculatorState {
    input: String,
    history: Vec<HistoryEntry>,
    session: CalcSession,
    runtime: CalculatorRuntime,
}

impl CalculatorState {
    /// A transcript position, when there is one, names an entry.
    #[verifier::type_invariant]
    spec fn inv(&self) -> bool {
        self.runtime.history_cursor matches Some(i) ==> i < self.history@.len()
    }
}

impl vstd::view::View for CalculatorState {
    type V = CalcStateView;

    closed spec fn view(&self) -> CalcStateView {
        CalcStateView {
            input: self.input@,
            history: entries_view(self.history@),
            session: session_view(self.session),
            vars: self.runtime.calculator@,
            preview: preview_outcome(self.runtime.preview),
            completions: completions_view(self.runtime.completions@),
            cursor: self.runtime.history_cursor,
            warning: opt_chars(self.runtime.restore_warning),
        }
    }
}

/// The preview and the completions match the line being typed.
pub open spec fn refreshed(v: CalcStateView) -> bool {
    &&& ok_or_fail(v.preview, preview_result(v.vars, v.input))
    &&& (!preview_floats(v.vars, v.input) ==> v.preview == preview_result(v.vars, v.input))
    &&& (trim(v.input).len() == 0 ==> v.preview == Ok::<Option<EvalView>, DiagView>(None))
    &&& v.completions == complete_spec(v.vars, v.input, byte_len(v.input) as int)
}

/// The workspace apart from its preview and completions.
pub open spec fn same_but_live(a: CalcStateView, b: CalcStateView) -> bool {
    &&& a.input == b.input
    &&& a.history == b.history
    &&& a.session == b.session
    &&& a.vars == b.vars
    &&& a.cursor == b.cursor
    &&& a.warning == b.warning
}

/// The transcript keeps its last hundred entries.
pub open spec fn capped(h: Seq<HistoryView>) -> Seq<HistoryView> {
    if h.len() > 100 {
        h.drop_first()
    } else {
        h
    }
}

/// The transcript entry for a result.
pub open spec fn outcome_of(r: Result<EvalView, DiagView>) -> OutcomeView {
    match r {
        Ok(e) => OutcomeView::Value(e.primary, e.approximation),
        Err(d) => OutcomeView::Error(d.message),
    }
}

/// The workspace after the trimmed line `t` was evaluated to `outcome`,
/// leaving the variables `vars`.
pub open spec fn evaluated_to(
    s: CalcStateView,
    t: Seq<char>,
    outcome: OutcomeView,
    vars: Seq<VarView>,
) -> CalcStateView {
    CalcStateView {
        input: Seq::empty(),
        history: capped(s.history.push(HistoryView { input: t, outcome })),
        session: if outcome is Value {
            (1u16, snapshot_defs(vars))
        } else {
            s.session
        },
        vars,
        preview: Ok(None),
        completions: complete_spec(vars, Seq::empty(), 0),
        cursor: None,
        warning: if outcome is Value {
            None
        } else {
            s.warning
        },
    }
}

/// The workspace after evaluating the trimmed line `t`.
pub open spec fn evaluated(s: CalcStateView, t: Seq<char>) -> CalcStateView {
    evaluated_to(s, t, outcome_of(eval_result(s.vars, t)), eval_vars(s.vars, t))
}

/// The last transcript entry reports a failure of the machine.
pub open spec fn machine_failed(s: CalcStateView) -> bool {
    s.history.len() > 0 && (s.history.last().outcome == OutcomeView::Error(
        "Constants unavailable."@,
    ) || s.history.last().outcome == OutcomeView::Error("Could not format result."@))
}

/// Appends `entry`, dropping the oldest entry past a hundred.
fn push_capped(history: &mut Vec<HistoryEntry>, entry: HistoryEntry)
    ensures
        entries_view(final(history)@) == capped(entries_view(old(history)@).push(entry@)),
{
    let ghost before = entries_view(history@);
    let ghost ev = entry@;
    history.push(entry);
    assert(entries_view(history@) == before.push(ev));
    if history.len() > 100 {
        history.remove(0);
        assert(entries_view(history@) == before.push(ev).drop_first());
    }
}

/// The line was replaced by `input`, the transcript position dropped.
pub open spec fn after_set_input(a: CalcStateView, b: CalcStateView, input: Seq<char>) -> bool {
    &&& b.input == input
    &&& b.cursor is None
    &&& b.history == a.history
    &&& b.session == a.session
    &&& b.vars == a.vars
    &&& b.warning == a.warning
    &&& refreshed(b)
}

/// The characters between the byte offsets `start` and `end` were replaced
/// by `insert` when both are character boundaries in order; otherwise
/// nothing changed.
pub open spec fn after_complete(
    a: CalcStateView,
    b: CalcStateView,
    start: usize,
    end: usize,
    insert: Seq<char>,
) -> bool {
    match (cursor_index(a.input, start as int), cursor_index(a.input, end as int)) {
        (Some(i), Some(j)) => if i <= j {
            &&& b.input == a.input.take(i) + insert + a.input.skip(j)
            &&& refreshed(b)
            &&& b.history == a.history
            &&& b.session == a.session
            &&& b.vars == a.vars
            &&& b.cursor == a.cursor
            &&& b.warning == a.warning
        } else {
            b == a
        },
        _ => b == a,
    }
}

/// The input moved one entry back through the transcript.
pub open spec fn after_history_up(a: CalcStateView, b: CalcStateView) -> bool {
    if a.history.len() == 0 {
        b == a
    } else {
        let next = match a.cursor {
            None => a.history.len() - 1,
            Some(i) => if i == 0 {
                0
            } else {
                i - 1
            },
        };
        &&& b.cursor == Some(next as usize)
        &&& b.input == a.history[next].input
        &&& b.history == a.history
        &&& b.session == a.session
        &&& b.vars == a.vars
        &&& b.warning == a.warning
        &&& refreshed(b)
    }
}

/// The input moved one entry forward through the transcript, or was
/// cleared past its end.
pub open spec fn after_history_down(a: CalcStateView, b: CalcStateView) -> bool {
    match a.cursor {
        None => b == a,
        Some(i) => {
            &&& (i + 1 < a.history.len() ==> b.cursor == Some((i + 1) as usize) && b.input
                == a.history[i + 1].input)
            &&& (i + 1 >= a.history.len() ==> b.cursor is None && b.input == Seq::<char>::empty())
            &&& b.history == a.history
            &&& b.session == a.session
            &&& b.vars == a.vars
            &&& b.warning == a.warning
            &&& refreshed(b)
        },
    }
}

/// The transcript was cleared; everything else stayed.
pub open spec fn after_clear_history(a: CalcStateView, b: CalcStateView) -> bool {
    b == (CalcStateView { history: Seq::empty(), cursor: None, ..a })
}

/// The trimmed line was evaluated into the transcript; a blank line
/// changed nothing. A line that reaches no approximate computation is
/// evaluated exactly. Otherwise the machine may fail: the transcript still
/// gains the line with the failure, and the variables are left as they were
/// or as the line sets them.
pub open spec fn after_evaluate(a: CalcStateView, b: CalcStateView) -> bool {
    let t = trim(a.input);
    if t.len() == 0 {
        b == a
    } else {
        &&& (!eval_floats(a.vars, t) ==> b == evaluated(a, t))
        &&& b == evaluated(a, t) || machine_failed(b) && b == evaluated_to(
            a,
            t,
            b.history.last().outcome,
            b.vars,
        ) && (b.vars == a.vars || b.vars == eval_vars(a.vars, t))
        &&& b.history.len() == if a.history.len() >= 100 {
            a.history.len()
        } else {
            a.history.len() + 1
        }
    }
}

/// The workspace `r` was rebuilt from the persisted form `snapshot`: the
/// input, transcript and definitions are kept, and the variables are those
/// the definitions restore. Definitions in another format are dropped with
/// a warning, as are definitions that no longer evaluate. When restoring
/// reaches no approximate computation, the variables and the warning are
/// exactly these; otherwise a failure of the machine may also leave the
/// warning.
pub open spec fn restored_from(snapshot: CalculatorSnapshotView, r: CalcStateView) -> bool {
    &&& r.input == snapshot.input
    &&& r.history == snapshot.history
    &&& r.session == snapshot.session
    &&& r.cursor is None
    &&& refreshed(r)
    &&& (snapshot.session.0 != 1 ==> r.vars == Seq::<VarView>::empty() && r.warning == if snapshot.session.1.len() > 0 {
        Some(reset_warning())
    } else {
        None
    })
    &&& (snapshot.session.0 == 1 && restore_exact(snapshot.session.1) ==> r.vars == restore_vars(
        snapshot.session.1,
    ) && r.warning == (if restore_discarded(snapshot.session.1).len() > 0 {
        Some(reset_warning())
    } else {
        None
    }))
    &&& (snapshot.session.0 == 1 ==> ((r.vars == restore_vars(snapshot.session.1) && r.warning == (
    if restore_discarded(snapshot.session.1).len() > 0 {
        Some(reset_warning())
    } else {
        None
    })) || r.warning == Some(reset_warning())))
}

/// Evaluating never lets a transcript of at most a hundred entries grow
/// past a hundred.
pub proof fn lemma_history_capped(a: CalcStateView, b: CalcStateView)
    requires
        after_evaluate(a, b),
        a.history.len() <= 100,
    ensures
        b.history.len() <= 100,
{
}

/// Accepting an offered completion completes the identifier being typed:
/// the input becomes its text before that identifier followed by the
/// completed name, which starts with the identifier.
pub proof fn lemma_accept_completion(a: CalcStateView, b: CalcStateView, i: int)
    requires
        refreshed(a),
        byte_len(a.input) <= usize::MAX,
        0 <= i < a.completions.len(),
        after_complete(
            a,
            b,
            a.completions[i].start as usize,
            a.completions[i].end as usize,
            a.completions[i].insert,
        ),
    ensures
        ({
            let j = word_start(a.input, a.input.len() as int);
            &&& b.input == a.input.take(j) + a.completions[i].insert
            &&& starts(a.completions[i].insert, a.input.skip(j))
            &&& b.history == a.history
            &&& b.vars == a.vars
            &&& refreshed(b)
        }),
{
    lemma_completion_replaces_word(a.vars, a.input, i);
    let j = word_start(a.input, a.input.len() as int);
    assert(a.input.skip(a.input.len() as int) == Seq::<char>::empty());
    assert(a.input.subrange(j, a.input.len() as int) == a.input.skip(j));
    assert(a.input.take(j) + a.completions[i].insert + Seq::<char>::empty() == a.input.take(j)
        + a.completions[i].insert);
}

/// The warning shown when stored definitions could not be restored.
pub open spec fn reset_warning() -> Seq<char> {
    "Stored calculator variables were reset because their format is unsupported."@
}

impl Default for CalculatorState {
    fn default() -> (r: Self)
        ensures
            r@.input == Seq::<char>::empty(),
            r@.history == Seq::<HistoryView>::empty(),
            r@.session == (1u16, Seq::<(Seq<char>, Seq<char>)>::empty()),
            r@.vars == Seq::<VarView>::empty(),
            r@.preview == Ok::<Option<EvalView>, DiagView>(None),
            r@.completions == Seq::<CompletionView>::empty(),
            r@.cursor is None,
            r@.warning is None,
    {
        let r = CalculatorState {
            input: String::new(),
            history: Vec::new(),
            session: CalcSession::default(),
            runtime: CalculatorRuntime {
                calculator: Calculator::new(),
                preview: Ok(None),
                completions: Vec::new(),
                history_cursor: None,
                restore_warning: None,
            },
        };
        assert(entries_view(r.history@) =~= Seq::<HistoryView>::empty());
        assert(completions_view(r.runtime.completions@) =~= Seq::<CompletionView>::empty());
        assert(definitions_view(r.session.definitions@) =~= Seq::<(Seq<char>, Seq<char>)>::empty());
        r
    }
}

impl CalculatorState {
    /// Recomputes the preview and the completions for the current line.
    fn refresh_preview(&mut self)
        ensures
            same_but_live(final(self)@, old(self)@),
            refreshed(final(self)@),
    {
        proof {
            use_type_invariant(&*self);
        }
        let preview = self.runtime.calculator.preview(self.input.as_str());
        let len = self.input.as_str().as_bytes().len();
        let completions = self.runtime.calculator.complete(self.input.as_str(), len);
        self.runtime.preview = preview;
        self.runtime.completions = completions;
    }

    /// Rebuilds the live calculator from the stored definitions; a warning
    /// is kept when some of them could not be restored.
    pub fn restore_runtime(&mut self)
        ensures
            final(self)@.input == old(self)@.input,
            final(self)@.history == old(self)@.history,
            final(self)@.session == old(self)@.session,
            final(self)@.cursor == old(self)@.cursor,
            refreshed(final(self)@),
            old(self)@.session.0 != 1 ==> final(self)@.vars == Seq::<VarView>::empty()
                && final(self)@.warning == if old(self)@.session.1.len() > 0 {
                Some(reset_warning())
            } else {
                old(self)@.warning
            },
            old(self)@.session.0 == 1 && restore_exact(old(self)@.session.1) ==> final(self)@.vars
                == restore_vars(old(self)@.session.1) && final(self)@.warning == (
            if restore_discarded(old(self)@.session.1).len() > 0 {
                Some(reset_warning())
            } else {
                old(self)@.warning
            }),
            old(self)@.session.0 == 1 ==> ((final(self)@.vars == restore_vars(old(self)@.session.1)
                && final(self)@.warning == (if restore_discarded(old(self)@.session.1).len() > 0 {
                Some(reset_warning())
            } else {
                old(self)@.warning
            })) || final(self)@.warning == Some(reset_warning())),
    {
        proof {
            use_type_invariant(&*self);
        }
        let mut calculator = Calculator::new();
        std::mem::swap(&mut calculator, &mut self.runtime.calculator);
        let report = calculator.restore(&self.session);
        self.runtime.calculator = calculator;
        assert(diagnostics_view(report.discarded@).len() == report.discarded@.len());
        assert(definitions_view(self.session.definitions@).len() == self.session.definitions@.len());
        if report.discarded.len() > 0 {
            self.runtime.restore_warning = Some(
                string_from("Stored calculator variables were reset because their format is unsupported."),
            );
        }
        self.refresh_preview();
    }

    /// The line being typed.
    pub fn input(&self) -> (r: &str)
        ensures
            r@ == self@.input,
    {
        self.input.as_str()
    }

    /// The transcript.
    pub fn history(&self) -> (r: &[HistoryEntry])
        ensures
            entries_view(r@) == self@.history,
    {
        self.history.as_slice()
    }

    /// The preview of the line being typed.
    pub fn preview(&self) -> (r: &Result<Option<Evaluation>, Diagnostic>)
        ensures
            preview_outcome(*r) == self@.preview,
    {
        &self.runtime.preview
    }

    /// The completions of the line being typed.
    pub fn completions(&self) -> (r: &[Completion])
        ensures
            completions_view(r@) == self@.completions,
    {
        self.runtime.completions.as_slice()
    }

    /// The warning left by restoring the definitions, if any.
    pub fn restore_warning(&self) -> (r: Option<&str>)
        ensures
            match r {
                Some(w) => self@.warning == Some(w@),
                None => self@.warning is None,
            },
    {
        match &self.runtime.restore_warning {
            Some(w) => Some(w.as_str()),
            None => None,
        }
    }

    /// Replaces the line being typed; the transcript position is dropped.
    pub fn set_input(&mut self, input: String)
        ensures
            after_set_input(old(self)@, final(self)@, input@),

    {
        proof {
            use_type_invariant(&*self);
        }
        self.runtime.history_cursor = None;
        self.input = input;
        self.refresh_preview();
    }

    /// Replaces the byte range `replacement` of the line by `insert`, when
    /// both ends are character boundaries in order; otherwise nothing
    /// changes.
    pub fn complete(&mut self, replacement: std::ops::Range<usize>, insert: &str)
        ensures
            after_complete(old(self)@, final(self)@, replacement.start, replacement.end, insert@),

    {
        proof {
            use_type_invariant(&*self);
        }
        let v = chars_of(self.input.as_str());
        let nbytes = self.input.as_str().as_bytes().len();
        let a = match cursor_index_exec(&v, replacement.start) {
            Some(a) => a,
            None => {
                return;
            },
        };
        let b = match cursor_index_exec(&v, replacement.end) {
            Some(b) => b,
            None => {
                return;
            },
        };
        if a > b {
            return;
        }
        let mut s = string_of(&v, 0, a);
        crate::text::push_str(&mut s, insert);
        let rest = string_of(&v, b, v.len());
        crate::text::push_str(&mut s, rest.as_str());
        assert(v@.subrange(0, a as int) == v@.take(a as int));
        assert(v@.subrange(b as int, v@.len() as int) == v@.skip(b as int));
        self.input = s;
        self.refresh_preview();
    }

    /// Moves back through the transcript, putting an earlier line in the
    /// input.
    pub fn history_up(&mut self)
        ensures
            after_history_up(old(self)@, final(self)@),

    {
        proof {
            use_type_invariant(&*self);
        }
        if self.history.len() == 0 {
            return;
        }
        let next = match self.runtime.history_cursor {
            None => self.history.len() - 1,
            Some(index) => index.saturating_sub(1),
        };
        self.runtime.history_cursor = Some(next);
        self.input = self.history[next].input.clone();
        self.refresh_preview();
    }

    /// Moves forward through the transcript; past its end the input is
    /// cleared.
    pub fn history_down(&mut self)
        ensures
            after_history_down(old(self)@, final(self)@),

    {
        proof {
            use_type_invariant(&*self);
        }
        if let Some(index) = self.runtime.history_cursor {
            let n = self.history.len();
            assert(index < n);
            if index + 1 < n {
                self.runtime.history_cursor = Some(index + 1);
                self.input = self.history[index + 1].input.clone();
            } else {
                self.runtime.history_cursor = None;
                self.input = String::new();
            }
            self.refresh_preview();
        }
    }

    /// Clears the transcript; the input and the stored definitions stay.
    pub fn clear_history(&mut self)
        ensures
            after_clear_history(old(self)@, final(self)@),

    {
        proof {
            use_type_invariant(&*self);
        }
        self.runtime.history_cursor = None;
        self.history = Vec::new();
        assert(entries_view(self.history@) =~= Seq::<HistoryView>::empty());
    }

    /// Evaluates the trimmed input: the transcript gains the line and its
    /// result, the input is cleared, and an evaluation that succeeds is
    /// stored as the persisted definitions. A blank input does nothing.
    #[verifier::rlimit(80)]
    #[verifier::spinoff_prover]
    pub fn evaluate(&mut self)
        ensures
            after_evaluate(old(self)@, final(self)@),

    {
        proof {
            use_type_invariant(&*self);
        }
        let v = chars_of(self.input.as_str());
        let (a, b) = trim_range(&v, 0, v.len());
        assert(v@.subrange(0, v@.len() as int) == v@);
        if a == b {
            return;
        }
        let input = string_of(&v, a, b);
        let ghost s0 = self@;
        let ghost t = input@;
        assert(t == trim(s0.input));
        let mut calculator = Calculator::new();
        std::mem::swap(&mut calculator, &mut self.runtime.calculator);
        let result = calculator.evaluate(input.as_str());
        let ghost nv = calculator@;
        let ghost r = eval_outcome(result);
        self.runtime.calculator = calculator;
        let outcome = match result {
            Ok(value) => {
                self.session = self.runtime.calculator.snapshot();
                self.runtime.restore_warning = None;
                HistoryOutcome::Value { primary: value.primary, approximation: value.approximation }
            },
            Err(error) => HistoryOutcome::Error { message: error.message },
        };
        let ghost oc = outcome@;
        assert(oc == outcome_of(r));
        assert(nv == eval_vars(s0.vars, t) || nv == s0.vars);
        assert(r == eval_result(s0.vars, t) && nv == eval_vars(s0.vars, t) || (r matches Err(d) && res_fail(d)));
        assert(self@.session == if oc is Value { (1u16, snapshot_defs(nv)) } else { s0.session });
        assert(self@.warning == if oc is Value { None } else { s0.warning });
        let entry = HistoryEntry { input, outcome };
        self.runtime.history_cursor = None;
        let mut history = Vec::new();
        std::mem::swap(&mut history, &mut self.history);
        push_capped(&mut history, entry);
        self.history = history;
        self.input = String::new();
        proof {
            lemma_trim_empty();
        }
        self.refresh_preview();
        assert(self@ == evaluated_to(s0, t, oc, nv));
    }

    /// The workspace a persisted form describes, with the live calculator
    /// rebuilt from the stored definitions.
    pub fn from_snapshot(snapshot: CalculatorSnapshot) -> (r: Self)
        ensures
            restored_from(snapshot@, r@),

    {
        let CalculatorSnapshot { input, history: stored, session } = snapshot;
        let ghost expected = history_snapshots_view(stored@);
        let mut history: Vec<HistoryEntry> = Vec::new();
        let mut i: usize = 0;
        while i < stored.len()
            invariant
                i <= stored@.len(),
                expected == history_snapshots_view(stored@),
                entries_view(history@) == expected.take(i as int),
            decreases stored@.len() - i,
        {
            let e = HistoryEntry::from_snapshot(stored[i].clone());
            let ghost prev = history@;
            history.push(e);
            assert(entries_view(history@) == entries_view(prev).push(e@));
            assert(expected.take(i + 1) == expected.take(i as int).push(e@));
            i = i + 1;
        }
        assert(expected.take(stored@.len() as int) == expected);
        let mut state = CalculatorState {
            input,
            history,
            session,
            runtime: CalculatorRuntime {
                calculator: Calculator::new(),
                preview: Ok(None),
                completions: Vec::new(),
                history_cursor: None,
                restore_warning: None,
            },
        };
        state.restore_runtime();
        state
    }

    /// The persisted form: input, transcript and definitions.
    pub fn snapshot(&self) -> (r: CalculatorSnapshot)
        ensures
            r@ == (CalculatorSnapshotView {
                input: self@.input,
                history: self@.history,
                session: self@.session,
            }),
    {
        let mut history: Vec<HistorySnapshot> = Vec::new();
        let mut i: usize = 0;
        while i < self.history.len()
            invariant
                i <= self.history@.len(),
                history_snapshots_view(history@) == entries_view(self.history@).take(i as int),
            decreases self.history@.len() - i,
        {
            let h = self.history[i].snapshot();
            let ghost prev = history@;
            history.push(h);
            assert(history_snapshots_view(history@) == history_snapshots_view(prev).push(h@));
            assert(entries_view(self.history@).take(i + 1) == entries_view(self.history@).take(
                i as int,
            ).push(h@));
            i = i + 1;
        }
        assert(entries_view(self.history@).take(self.history@.len() as int) == entries_view(
            self.history@,
        ));
        CalculatorSnapshot { input: self.input.clone(), history, session: self.session.clone() }
    }
}

/// The operator of a stored two-operand calculator record.
#[derive(Clone, Copy, Debug, PartialEq, Eq, Structural)]
pub enum LegacyOperation {
    Add,
    Subtract,
    Multiply,
    Divide,
}

/// The symbol of a legacy operator.
pub open spec fn symbol_spec(op: LegacyOperation) -> Seq<char> {
    match op {
        LegacyOperation::Add => "+"@,
        LegacyOperation::Subtract => "-"@,
        LegacyOperation::Multiply => "*"@,
        LegacyOperation::Divide => "/"@,
    }
}

impl LegacyOperation {
    /// The operator's symbol.
    pub fn symbol(&self) -> (r: &'static str)
        ensures
            r@ == symbol_spec(*self),
    {
        match self {
            LegacyOperation::Add => "+",
            LegacyOperation::Subtract => "-",
            LegacyOperation::Multiply => "*",
            LegacyOperation::Divide => "/",
        }
    }
}

/// A stored calculator record as read: the fields of the current workspace
/// and those of the two-operand record format, each present or at its
/// default.
pub struct CalculatorStateWire {
    pub input: String,
    pub history: Vec<HistoryEntry>,
    pub session: CalcSession,
    pub left: Option<String>,
    pub right: Option<String>,
    pub operation: Option<LegacyOperation>,
    pub result: Option<String>,
}

/// The record holds something of the current workspace.
pub open spec fn wire_is_current(w: CalculatorStateWire) -> bool {
    w.input@.len() > 0 || w.history@.len() > 0 || w.session.schema_version != 1
        || w.session.definitions@.len() > 0
}

/// The line `left op right` of a legacy record, the operator `+` when none
/// was stored.
pub open spec fn legacy_line(left: Seq<char>, right: Seq<char>, op: Option<LegacyOperation>) -> Seq<
    char,
> {
    let sym = match op {
        Some(o) => symbol_spec(o),
        None => "+"@,
    };
    left + " "@ + sym + " "@ + right
}

impl CalculatorState {
    /// The workspace a stored record describes. A record with current fields
    /// keeps them, with a fresh live calculator. Otherwise a legacy record
    /// with both operands becomes the line `left op right`: in the transcript
    /// with its stored result, or as the input when it has none. Any other
    /// record gives the empty workspace.
    pub fn from_wire(wire: CalculatorStateWire) -> (r: Self)
        ensures
            wire_is_current(wire) ==> r@ == (CalcStateView {
                input: wire.input@,
                history: entries_view(wire.history@),
                session: session_view(wire.session),
                vars: Seq::empty(),
                preview: Ok(None),
                completions: Seq::empty(),
                cursor: None,
                warning: None,
            }),
            !wire_is_current(wire) ==> {
                &&& r@.session == (1u16, Seq::<(Seq<char>, Seq<char>)>::empty())
                &&& r@.vars == Seq::<VarView>::empty()
                &&& r@.preview == Ok::<Option<EvalView>, DiagView>(None)
                &&& r@.completions == Seq::<CompletionView>::empty()
                &&& r@.cursor is None
                &&& r@.warning is None
                &&& match (wire.left, wire.right) {
                    (Some(l), Some(rt)) => match wire.result {
                        Some(res) => r@.input == Seq::<char>::empty() && r@.history == seq![
                            HistoryView {
                                input: legacy_line(l@, rt@, wire.operation),
                                outcome: OutcomeView::Value(res@, None),
                            },
                        ],
                        None => r@.input == legacy_line(l@, rt@, wire.operation) && r@.history
                            == Seq::<HistoryView>::empty(),
                    },
                    _ => r@.input == Seq::<char>::empty() && r@.history
                        == Seq::<HistoryView>::empty(),
                }
            },
    {
        let CalculatorStateWire { input, history, session, left, right, operation, result } = wire;
        if input.as_str().as_bytes().len() > 0 || history.len() > 0 || session.schema_version != 1
            || session.definitions.len() > 0 {
            let r = CalculatorState {
                input,
                history,
                session,
                runtime: CalculatorRuntime {
                    calculator: Calculator::new(),
                    preview: Ok(None),
                    completions: Vec::new(),
                    history_cursor: None,
                    restore_warning: None,
                },
            };
            assert(completions_view(r.runtime.completions@) =~= Seq::<CompletionView>::empty());
            return r;
        }
        let mut state = CalculatorState::default();
        match (left, right) {
            (Some(l), Some(rt)) => {
                let sym = match operation {
                    Some(op) => op.symbol(),
                    None => "+",
                };
                let mut line = l;
                crate::text::push_str(&mut line, " ");
                crate::text::push_str(&mut line, sym);
                crate::text::push_str(&mut line, " ");
                crate::text::push_str(&mut line, rt.as_str());
                match result {
                    Some(res) => {
                        let entry = HistoryEntry {
                            input: line,
                            outcome: HistoryOutcome::Value { primary: res, approximation: None },
                        };
                        let mut h = Vec::new();
                        h.push(entry);
                        assert(entries_view(h@) =~= seq![entry@]);
                        state.history = h;
                    },
                    None => {
                        state.input = line;
                    },
                }
            },
            _ => {},
        }
        state
    }
}

} // verus!
