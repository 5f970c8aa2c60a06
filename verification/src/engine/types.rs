//! The calculator's public data: diagnostics, completions, results and
//! session snapshots.
use vstd::prelude::*;
use std::ops::Range;
use crate::text::string_from;

verus! {

/// What kind of problem a diagnostic reports.
#[derive(Clone, Copy, Debug, PartialEq, Eq, Structural)]
pub enum DiagnosticKind {
    Lex,
    Parse,
    UnknownIdentifier,
    Domain,
    Dimension,
    Limit,
    Unsupported,
}

/// A problem found while evaluating, with a byte range of the input.
#[derive(Debug, PartialEq, Eq)]
pub struct Diagnostic {
    pub kind: DiagnosticKind,
    pub message: String,
    pub span: Range<usize>,
}

impl Clone for Diagnostic {
    fn clone(&self) -> (r: Self)
        ensures
            r@ == self@,
    {
        Diagnostic {
            kind: self.kind,
            message: self.message.clone(),
            span: Range { start: self.span.start, end: self.span.end },
        }
    }
}

/// A diagnostic as plain values.
pub struct DiagView {
    pub kind: DiagnosticKind,
    pub message: Seq<char>,
    pub start: int,
    pub end: int,
}

impl View for Diagnostic {
    type V = DiagView;

    open spec fn view(&self) -> DiagView {
        DiagView {
            kind: self.kind,
            message: self.message@,
            start: self.span.start as int,
            end: self.span.end as int,
        }
    }
}

/// A diagnostic with an empty span at the start of the input.
pub open spec fn dg(kind: DiagnosticKind, message: Seq<char>) -> DiagView {
    DiagView { kind, message, start: 0, end: 0 }
}

/// `err`: builds a diagnostic.
pub fn err(kind: DiagnosticKind, message: String, start: usize, end: usize) -> (r: Diagnostic)
    ensures
        r@ == (DiagView { kind, message: message@, start: start as int, end: end as int }),
{
    Diagnostic { kind, message, span: Range { start, end } }
}

/// A diagnostic with a fixed message and an empty span at the start.
pub fn err0(kind: DiagnosticKind, message: &str) -> (r: Diagnostic)
    ensures
        r@ == dg(kind, message@),
{
    err(kind, string_from(message), 0, 0)
}

/// What a completion inserts.
#[derive(Clone, Copy, Debug, PartialEq, Eq, Structural)]
pub enum CompletionKind {
    Function,
    Constant,
    Unit,
    Variable,
}

/// One completion candidate: the byte range of the input it replaces and the
/// text that replaces it.
#[derive(Debug, PartialEq, Eq)]
pub struct Completion {
    pub replacement: Range<usize>,
    pub insert: String,
    pub display: String,
    pub kind: CompletionKind,
}

impl Clone for Completion {
    fn clone(&self) -> (r: Self)
        ensures
            r.replacement == self.replacement,
            r.insert@ == self.insert@,
            r.display@ == self.display@,
            r.kind == self.kind,
    {
        Completion {
            replacement: Range { start: self.replacement.start, end: self.replacement.end },
            insert: self.insert.clone(),
            display: self.display.clone(),
            kind: self.kind,
        }
    }
}

/// The displayed result of an evaluation.
#[derive(Debug, PartialEq, Eq)]
pub struct Evaluation {
    pub primary: String,
    pub approximation: Option<String>,
    pub assignment: Option<String>,
}

/// An evaluation as plain values.
pub struct EvalView {
    pub primary: Seq<char>,
    pub approximation: Option<Seq<char>>,
    pub assignment: Option<Seq<char>>,
}

pub open spec fn opt_view(o: Option<String>) -> Option<Seq<char>> {
    match o {
        Some(s) => Some(s@),
        None => None,
    }
}

impl Clone for Evaluation {
    fn clone(&self) -> (r: Self)
        ensures
            r@ == self@,
    {
        Evaluation {
            primary: self.primary.clone(),
            approximation: match &self.approximation {
                Some(a) => Some(a.clone()),
                None => None,
            },
            assignment: match &self.assignment {
                Some(a) => Some(a.clone()),
                None => None,
            },
        }
    }
}

impl View for Evaluation {
    type V = EvalView;

    open spec fn view(&self) -> EvalView {
        EvalView {
            primary: self.primary@,
            approximation: opt_view(self.approximation),
            assignment: opt_view(self.assignment),
        }
    }
}

/// One stored variable definition: its name and the source text that
/// defined it.
#[derive(Debug, PartialEq, Eq)]
pub struct DefinitionSnapshot {
    pub name: String,
    pub source: String,
}

impl View for DefinitionSnapshot {
    type V = (Seq<char>, Seq<char>);

    open spec fn view(&self) -> (Seq<char>, Seq<char>) {
        (self.name@, self.source@)
    }
}

impl Clone for DefinitionSnapshot {
    fn clone(&self) -> (r: Self)
        ensures
            r@ == self@,
    {
        DefinitionSnapshot { name: self.name.clone(), source: self.source.clone() }
    }
}

/// The persisted form of a calculator session.
#[derive(Debug, PartialEq, Eq)]
pub struct SessionSnapshot {
    pub schema_version: u16,
    pub definitions: Vec<DefinitionSnapshot>,
}

/// The definitions of a snapshot as (name, source) pairs.
pub open spec fn definitions_view(d: Seq<DefinitionSnapshot>) -> Seq<(Seq<char>, Seq<char>)> {
    Seq::new(d.len(), |i: int| d[i]@)
}

/// A calculator session as plain values: format number and definitions.
pub open spec fn session_view(s: SessionSnapshot) -> (u16, Seq<(Seq<char>, Seq<char>)>) {
    (s.schema_version, definitions_view(s.definitions@))
}

impl Clone for SessionSnapshot {
    fn clone(&self) -> (r: Self)
        ensures
            session_view(r) == session_view(*self),
    {
        let mut definitions: Vec<DefinitionSnapshot> = Vec::new();
        let mut i: usize = 0;
        while i < self.definitions.len()
            invariant
                i <= self.definitions@.len(),
                definitions_view(definitions@) == definitions_view(self.definitions@).take(i as int),
            decreases self.definitions@.len() - i,
        {
            let d = self.definitions[i].clone();
            let ghost prev = definitions@;
            definitions.push(d);
            assert(definitions_view(definitions@) == definitions_view(prev).push(d@));
            assert(definitions_view(self.definitions@).take(i + 1) == definitions_view(
                self.definitions@,
            ).take(i as int).push(d@));
            i = i + 1;
        }
        assert(definitions_view(self.definitions@).take(self.definitions@.len() as int)
            == definitions_view(self.definitions@));
        SessionSnapshot { schema_version: self.schema_version, definitions }
    }
}

impl Default for SessionSnapshot {
    fn default() -> (r: Self)
        ensures
            r.schema_version == 1,
            r.definitions@.len() == 0,
    {
        SessionSnapshot { schema_version: 1, definitions: Vec::new() }
    }
}

/// The diagnostics of a list as plain values.
pub open spec fn diagnostics_view(d: Seq<Diagnostic>) -> Seq<DiagView> {
    Seq::new(d.len(), |i: int| d[i]@)
}

/// How many stored definitions a restore re-created, and why the others were
/// discarded.
#[derive(Clone, Debug, PartialEq, Eq)]
pub struct RestoreReport {
    pub restored: usize,
    pub discarded: Vec<Diagnostic>,
}

} // verus!
