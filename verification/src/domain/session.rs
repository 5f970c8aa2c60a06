//! The persisted form of the application's state, with its format number.
use vstd::prelude::*;
use crate::engine::types::{SessionSnapshot as CalcSession, session_view};
use crate::text::string_from;

verus! {

/// The current format of persisted sessions.
pub const CURRENT_SCHEMA_VERSION: u16 = 1;

/// A project as plain values.
pub struct ProjectView {
    pub title: Seq<char>,
    pub summary: Seq<char>,
    pub url: Seq<char>,
}

/// Portfolio content as plain values.
pub struct PortfolioView {
    pub display_name: Seq<char>,
    pub headline: Seq<char>,
    pub about: Seq<char>,
    pub projects: Seq<ProjectView>,
    pub email: Seq<char>,
    pub website: Seq<char>,
    pub github: Seq<char>,
}

/// A calculator result as plain values.
pub enum OutcomeView {
    Value(Seq<char>, Option<Seq<char>>),
    Error(Seq<char>),
}

/// A history entry as plain values.
pub struct HistoryView {
    pub input: Seq<char>,
    pub outcome: OutcomeView,
}

/// Persisted calculator data as plain values.
pub struct CalculatorSnapshotView {
    pub input: Seq<char>,
    pub history: Seq<HistoryView>,
    pub session: (u16, Seq<(Seq<char>, Seq<char>)>),
}

/// Color converter state as plain values.
pub struct ColorView {
    pub hex_input: Seq<char>,
    pub rgb: Seq<u8>,
}

/// A persisted session as plain values.
pub struct SessionView {
    pub schema_version: u16,
    pub portfolio: PortfolioView,
    pub calculator: CalculatorSnapshotView,
    pub text: Seq<char>,
    pub color: ColorView,
}

pub open spec fn opt_chars(o: Option<String>) -> Option<Seq<char>> {
    match o {
        Some(s) => Some(s@),
        None => None,
    }
}

pub fn clone_opt(o: &Option<String>) -> (r: Option<String>)
    ensures
        opt_chars(r) == opt_chars(*o),
{
    match o {
        Some(s) => Some(s.clone()),
        None => None,
    }
}

/// Top-level data persisted by the application.
#[derive(Debug, PartialEq, Eq)]
pub struct SessionSnapshot {
    pub schema_version: u16,
    pub portfolio: PortfolioSnapshot,
    pub calculator: CalculatorSnapshot,
    pub text_analyzer: TextAnalyzerSnapshot,
    pub color_converter: ColorConverterSnapshot,
}

/// Persisted portfolio content.
#[derive(Debug, PartialEq, Eq)]
pub struct PortfolioSnapshot {
    pub display_name: String,
    pub headline: String,
    pub about: String,
    pub projects: Vec<ProjectSnapshot>,
    pub email: String,
    pub website: String,
    pub github: String,
}

/// Persisted project content.
#[derive(Debug, PartialEq, Eq)]
pub struct ProjectSnapshot {
    pub title: String,
    pub summary: String,
    pub url: String,
}

/// Persisted calculator data: the input, the transcript and the variable
/// definitions; computed values are not kept.
#[derive(Debug, PartialEq, Eq)]
pub struct CalculatorSnapshot {
    pub input: String,
    pub history: Vec<HistorySnapshot>,
    pub session: CalcSession,
}

/// One persisted calculator history entry.
#[derive(Debug, PartialEq, Eq)]
pub struct HistorySnapshot {
    pub input: String,
    pub outcome: HistoryOutcomeSnapshot,
}

/// Persisted calculator result.
#[derive(Debug, PartialEq, Eq)]
pub enum HistoryOutcomeSnapshot {
    Value { primary: String, approximation: Option<String> },
    Error { message: String },
}

/// Persisted text analyzer input.
#[derive(Debug, PartialEq, Eq)]
pub struct TextAnalyzerSnapshot {
    pub text: String,
}

/// Persisted color converter state.
#[derive(Debug, PartialEq, Eq)]
pub struct ColorConverterSnapshot {
    pub hex_input: String,
    pub rgb: [u8; 3],
}

impl View for ProjectSnapshot {
    type V = ProjectView;

    open spec fn view(&self) -> ProjectView {
        ProjectView { title: self.title@, summary: self.summary@, url: self.url@ }
    }
}

pub open spec fn project_snapshots_view(p: Seq<ProjectSnapshot>) -> Seq<ProjectView> {
    Seq::new(p.len(), |i: int| p[i]@)
}

impl View for PortfolioSnapshot {
    type V = PortfolioView;

    open spec fn view(&self) -> PortfolioView {
        PortfolioView {
            display_name: self.display_name@,
            headline: self.headline@,
            about: self.about@,
            projects: project_snapshots_view(self.projects@),
            email: self.email@,
            website: self.website@,
            github: self.github@,
        }
    }
}

impl View for HistoryOutcomeSnapshot {
    type V = OutcomeView;

    open spec fn view(&self) -> OutcomeView {
        match self {
            HistoryOutcomeSnapshot::Value { primary, approximation } => OutcomeView::Value(
                primary@,
                opt_chars(*approximation),
            ),
            HistoryOutcomeSnapshot::Error { message } => OutcomeView::Error(message@),
        }
    }
}

impl View for HistorySnapshot {
    type V = HistoryView;

    open spec fn view(&self) -> HistoryView {
        HistoryView { input: self.input@, outcome: self.outcome@ }
    }
}

pub open spec fn history_snapshots_view(h: Seq<HistorySnapshot>) -> Seq<HistoryView> {
    Seq::new(h.len(), |i: int| h[i]@)
}

impl View for CalculatorSnapshot {
    type V = CalculatorSnapshotView;

    open spec fn view(&self) -> CalculatorSnapshotView {
        CalculatorSnapshotView {
            input: self.input@,
            history: history_snapshots_view(self.history@),
            session: session_view(self.session),
        }
    }
}

impl View for ColorConverterSnapshot {
    type V = ColorView;

    open spec fn view(&self) -> ColorView {
        ColorView { hex_input: self.hex_input@, rgb: self.rgb@ }
    }
}

impl View for SessionSnapshot {
    type V = SessionView;

    open spec fn view(&self) -> SessionView {
        SessionView {
            schema_version: self.schema_version,
            portfolio: self.portfolio@,
            calculator: self.calculator@,
            text: self.text_analyzer.text@,
            color: self.color_converter@,
        }
    }
}

impl Clone for ProjectSnapshot {
    fn clone(&self) -> (r: Self)
        ensures
            r@ == self@,
    {
        ProjectSnapshot { title: self.title.clone(), summary: self.summary.clone(), url: self.url.clone() }
    }
}

impl Clone for PortfolioSnapshot {
    fn clone(&self) -> (r: Self)
        ensures
            r@ == self@,
    {
        let mut projects: Vec<ProjectSnapshot> = Vec::new();
        let mut i: usize = 0;
        while i < self.projects.len()
            invariant
                i <= self.projects@.len(),
                project_snapshots_view(projects@) == project_snapshots_view(self.projects@).take(i as int),
            decreases self.projects@.len() - i,
        {
            let p = self.projects[i].clone();
            let ghost prev = projects@;
            projects.push(p);
            assert(project_snapshots_view(projects@) == project_snapshots_view(prev).push(p@));
            assert(project_snapshots_view(self.projects@).take(i + 1) == project_snapshots_view(
                self.projects@,
            ).take(i as int).push(p@));
            i = i + 1;
        }
        assert(project_snapshots_view(self.projects@).take(self.projects@.len() as int)
            == project_snapshots_view(self.projects@));
        PortfolioSnapshot {
            display_name: self.display_name.clone(),
            headline: self.headline.clone(),
            about: self.about.clone(),
            projects,
            email: self.email.clone(),
            website: self.website.clone(),
            github: self.github.clone(),
        }
    }
}

impl Clone for HistoryOutcomeSnapshot {
    fn clone(&self) -> (r: Self)
        ensures
            r@ == self@,
    {
        match self {
            HistoryOutcomeSnapshot::Value { primary, approximation } => HistoryOutcomeSnapshot::Value {
                primary: primary.clone(),
                approximation: clone_opt(approximation),
            },
            HistoryOutcomeSnapshot::Error { message } => HistoryOutcomeSnapshot::Error {
                message: message.clone(),
            },
        }
    }
}

impl Clone for HistorySnapshot {
    fn clone(&self) -> (r: Self)
        ensures
            r@ == self@,
    {
        HistorySnapshot { input: self.input.clone(), outcome: self.outcome.clone() }
    }
}

impl Clone for CalculatorSnapshot {
    fn clone(&self) -> (r: Self)
        ensures
            r@ == self@,
    {
        let mut history: Vec<HistorySnapshot> = Vec::new();
        let mut i: usize = 0;
        while i < self.history.len()
            invariant
                i <= self.history@.len(),
                history_snapshots_view(history@) == history_snapshots_view(self.history@).take(i as int),
            decreases self.history@.len() - i,
        {
            let h = self.history[i].clone();
            let ghost prev = history@;
            history.push(h);
            assert(history_snapshots_view(history@) == history_snapshots_view(prev).push(h@));
            assert(history_snapshots_view(self.history@).take(i + 1) == history_snapshots_view(
                self.history@,
            ).take(i as int).push(h@));
            i = i + 1;
        }
        assert(history_snapshots_view(self.history@).take(self.history@.len() as int)
            == history_snapshots_view(self.history@));
        CalculatorSnapshot { input: self.input.clone(), history, session: self.session.clone() }
    }
}

impl Clone for TextAnalyzerSnapshot {
    fn clone(&self) -> (r: Self)
        ensures
            r.text@ == self.text@,
    {
        TextAnalyzerSnapshot { text: self.text.clone() }
    }
}

impl Clone for ColorConverterSnapshot {
    fn clone(&self) -> (r: Self)
        ensures
            r@ == self@,
    {
        ColorConverterSnapshot { hex_input: self.hex_input.clone(), rgb: self.rgb }
    }
}

impl Clone for SessionSnapshot {
    fn clone(&self) -> (r: Self)
        ensures
            r@ == self@,
    {
        SessionSnapshot {
            schema_version: self.schema_version,
            portfolio: self.portfolio.clone(),
            calculator: self.calculator.clone(),
            text_analyzer: self.text_analyzer.clone(),
            color_converter: self.color_converter.clone(),
        }
    }
}

/// Empty portfolio content.
pub open spec fn empty_portfolio() -> PortfolioView {
    PortfolioView {
        display_name: Seq::empty(),
        headline: Seq::empty(),
        about: Seq::empty(),
        projects: Seq::empty(),
        email: Seq::empty(),
        website: Seq::empty(),
        github: Seq::empty(),
    }
}

/// The color converter's initial state: `#336699`.
pub open spec fn default_color() -> ColorView {
    ColorView { hex_input: "#336699"@, rgb: seq![51u8, 102u8, 153u8] }
}

impl Default for PortfolioSnapshot {
    fn default() -> (r: Self)
        ensures
            r@ == empty_portfolio(),
    {
        let r = PortfolioSnapshot {
            display_name: String::new(),
            headline: String::new(),
            about: String::new(),
            projects: Vec::new(),
            email: String::new(),
            website: String::new(),
            github: String::new(),
        };
        assert(project_snapshots_view(r.projects@) =~= Seq::<ProjectView>::empty());
        assert(r@ == empty_portfolio());
        r
    }
}

impl Default for ProjectSnapshot {
    fn default() -> (r: Self)
        ensures
            r@ == (ProjectView { title: Seq::empty(), summary: Seq::empty(), url: Seq::empty() }),
    {
        ProjectSnapshot { title: String::new(), summary: String::new(), url: String::new() }
    }
}

impl Default for HistoryOutcomeSnapshot {
    fn default() -> (r: Self)
        ensures
            r@ == OutcomeView::Error(Seq::empty()),
    {
        HistoryOutcomeSnapshot::Error { message: String::new() }
    }
}

impl Default for HistorySnapshot {
    fn default() -> (r: Self)
        ensures
            r@ == (HistoryView { input: Seq::empty(), outcome: OutcomeView::Error(Seq::empty()) }),
    {
        HistorySnapshot { input: String::new(), outcome: HistoryOutcomeSnapshot::default() }
    }
}

impl Default for CalculatorSnapshot {
    fn default() -> (r: Self)
        ensures
            r@ == (CalculatorSnapshotView {
                input: Seq::empty(),
                history: Seq::empty(),
                session: (1u16, Seq::empty()),
            }),
    {
        let r = CalculatorSnapshot { input: String::new(), history: Vec::new(), session: CalcSession::default() };
        assert(r@.history == Seq::<HistoryView>::empty());
        assert(r@.session.1 == Seq::<(Seq<char>, Seq<char>)>::empty());
        r
    }
}

impl Default for TextAnalyzerSnapshot {
    fn default() -> (r: Self)
        ensures
            r.text@ == Seq::<char>::empty(),
    {
        TextAnalyzerSnapshot { text: String::new() }
    }
}

impl Default for ColorConverterSnapshot {
    fn default() -> (r: Self)
        ensures
            r@ == default_color(),
    {
        let rgb: [u8; 3] = [51, 102, 153];
        proof {
            broadcast use vstd::array::group_array_axioms;
            assert(rgb@.len() == 3);
            assert(rgb[0] == 51 && rgb[1] == 102 && rgb[2] == 153);
            assert(rgb@ =~= seq![51u8, 102u8, 153u8]);
        }
        ColorConverterSnapshot { hex_input: string_from("#336699"), rgb }
    }
}

/// The default session: format zero, empty content, a calculator session
/// in the current format, the initial color.
pub open spec fn empty_session() -> SessionView {
    SessionView {
        schema_version: 0,
        portfolio: empty_portfolio(),
        calculator: CalculatorSnapshotView {
            input: Seq::empty(),
            history: Seq::empty(),
            session: (1u16, Seq::empty()),
        },
        text: Seq::empty(),
        color: default_color(),
    }
}

impl Default for SessionSnapshot {
    fn default() -> (r: Self)
        ensures
            r@ == empty_session(),
    {
        SessionSnapshot {
            schema_version: 0,
            portfolio: PortfolioSnapshot::default(),
            calculator: CalculatorSnapshot::default(),
            text_analyzer: TextAnalyzerSnapshot::default(),
            color_converter: ColorConverterSnapshot::default(),
        }
    }
}

/// `migrate`: a session in the current format, and whether it had to
/// change.
pub fn migrate(snapshot: SessionSnapshot) -> (r: (SessionSnapshot, bool))
    ensures
        r.1 == (snapshot.schema_version != CURRENT_SCHEMA_VERSION),
        r.0@ == (SessionView { schema_version: CURRENT_SCHEMA_VERSION, ..snapshot@ }),
{
    let mut snapshot = snapshot;
    if snapshot.schema_version == CURRENT_SCHEMA_VERSION {
        return (snapshot, false);
    }
    snapshot.schema_version = CURRENT_SCHEMA_VERSION;
    (snapshot, true)
}

} // verus!
