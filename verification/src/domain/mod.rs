//! The application's state apart from its windows: the portfolio, the
//! calculator, the text analyzer and the color converter, changed by
//! commands and persisted as one session.
pub mod session;
pub mod portfolio;
pub mod text_analyzer;
pub mod color_converter;
pub mod calculator;

use vstd::prelude::*;
use vstd::view::View as _;
use crate::domain::calculator::{
    CalcStateView, CalculatorState, after_clear_history, after_complete, after_evaluate,
    after_history_down, after_history_up, after_set_input, restored_from,
};
use crate::domain::color_converter::{ColorConverterState, ColorError, hex_rgb, hex_text, hex_valid};
use crate::domain::portfolio::{
    Portfolio, PortfolioError, PortfolioField, ProjectField, View, empty_project, with_field,
    with_project_field,
};
use crate::domain::session::{
    CURRENT_SCHEMA_VERSION, CalculatorSnapshotView, ColorView, PortfolioView, SessionSnapshot,
    SessionView,
};
use crate::domain::text_analyzer::TextAnalyzerState;

verus! {

/// A change to the application's state.
#[derive(Debug, PartialEq, Eq)]
#[allow(inconsistent_fields)]
pub enum Command {
    Navigate(View),
    AddProject,
    SetPortfolioField { field: PortfolioField, value: String },
    SetProjectField { index: usize, field: ProjectField, value: String },
    CalculatorSetInput(String),
    CalculatorComplete { replacement: std::ops::Range<usize>, insert: String },
    CalculatorHistoryUp,
    CalculatorHistoryDown,
    CalculatorEvaluate,
    CalculatorClearHistory,
    TextAnalyzerSetText(String),
    ColorApplyHex(String),
    ColorSetRgb([u8; 3]),
}

impl Clone for Command {
    fn clone(&self) -> (r: Self)
        ensures
            r == *self,
    {
        match self {
            Command::Navigate(view) => Command::Navigate(*view),
            Command::AddProject => Command::AddProject,
            Command::SetPortfolioField { field, value } => Command::SetPortfolioField {
                field: *field,
                value: value.clone(),
            },
            Command::SetProjectField { index, field, value } => Command::SetProjectField {
                index: *index,
                field: *field,
                value: value.clone(),
            },
            Command::CalculatorSetInput(input) => Command::CalculatorSetInput(input.clone()),
            Command::CalculatorComplete { replacement, insert } => Command::CalculatorComplete {
                replacement: std::ops::Range { start: replacement.start, end: replacement.end },
                insert: insert.clone(),
            },
            Command::CalculatorHistoryUp => Command::CalculatorHistoryUp,
            Command::CalculatorHistoryDown => Command::CalculatorHistoryDown,
            Command::CalculatorEvaluate => Command::CalculatorEvaluate,
            Command::CalculatorClearHistory => Command::CalculatorClearHistory,
            Command::TextAnalyzerSetText(text) => Command::TextAnalyzerSetText(text.clone()),
            Command::ColorApplyHex(input) => Command::ColorApplyHex(input.clone()),
            Command::ColorSetRgb(rgb) => Command::ColorSetRgb(*rgb),
        }
    }
}

/// Why a command could not be applied.
#[derive(Clone, Copy, Debug, PartialEq, Eq, Structural)]
pub enum CoreError {
    Portfolio(PortfolioError),
    Color(ColorError),
}

/// The application's state as plain values.
pub struct CoreView {
    pub portfolio: PortfolioView,
    pub calculator: CalcStateView,
    pub text: Seq<char>,
    pub color: ColorView,
    pub active_view: View,
}

/// The application's state and the session it was restored from.
pub struct CoreState {
    pub portfolio: Portfolio,
    pub calculator: CalculatorState,
    pub text_analyzer: TextAnalyzerState,
    pub color_converter: ColorConverterState,
    pub active_view: View,
    persisted: SessionSnapshot,
}

impl vstd::view::View for CoreState {
    type V = CoreView;

    closed spec fn view(&self) -> CoreView {
        CoreView {
            portfolio: self.portfolio@,
            calculator: self.calculator@,
            text: self.text_analyzer.text_view(),
            color: self.color_converter@,
            active_view: self.active_view,
        }
    }
}

/// The state `c` was restored from the session `s`.
pub open spec fn core_restored_from(s: SessionView, c: CoreView) -> bool {
    &&& c.portfolio == s.portfolio
    &&& restored_from(s.calculator, c.calculator)
    &&& c.text == s.text
    &&& c.color == s.color
    &&& c.active_view == View::Home
}

/// The session that persists the state `c`, in the current format.
pub open spec fn session_of(c: CoreView) -> SessionView {
    SessionView {
        schema_version: CURRENT_SCHEMA_VERSION,
        portfolio: c.portfolio,
        calculator: CalculatorSnapshotView {
            input: c.calculator.input,
            history: c.calculator.history,
            session: c.calculator.session,
        },
        text: c.text,
        color: c.color,
    }
}

/// What applying `command` to the state `a` gives: the state `b` and the
/// answer `r`.
pub open spec fn dispatched(a: CoreView, command: Command, b: CoreView, r: Result<(), CoreError>) -> bool {
    match command {
        Command::Navigate(view) => r is Ok && b == (CoreView { active_view: view, ..a }),
        Command::AddProject => r is Ok && b == (CoreView {
            portfolio: PortfolioView {
                projects: a.portfolio.projects.push(empty_project()),
                ..a.portfolio
            },
            ..a
        }),
        Command::SetPortfolioField { field, value } => r is Ok && b == (CoreView {
            portfolio: with_field(a.portfolio, field, value@),
            ..a
        }),
        Command::SetProjectField { index, field, value } => if index < a.portfolio.projects.len() {
            r is Ok && b == (CoreView {
                portfolio: PortfolioView {
                    projects: a.portfolio.projects.update(
                        index as int,
                        with_project_field(a.portfolio.projects[index as int], field, value@),
                    ),
                    ..a.portfolio
                },
                ..a
            })
        } else {
            r == Err::<(), CoreError>(CoreError::Portfolio(PortfolioError::ProjectNotFound { index }))
                && b == a
        },
        Command::CalculatorSetInput(input) => r is Ok && b == (CoreView { calculator: b.calculator, ..a })
            && after_set_input(a.calculator, b.calculator, input@),
        Command::CalculatorComplete { replacement, insert } => r is Ok && b == (CoreView {
            calculator: b.calculator,
            ..a
        }) && after_complete(a.calculator, b.calculator, replacement.start, replacement.end, insert@),
        Command::CalculatorHistoryUp => r is Ok && b == (CoreView { calculator: b.calculator, ..a })
            && after_history_up(a.calculator, b.calculator),
        Command::CalculatorHistoryDown => r is Ok && b == (CoreView { calculator: b.calculator, ..a })
            && after_history_down(a.calculator, b.calculator),
        Command::CalculatorEvaluate => r is Ok && b == (CoreView { calculator: b.calculator, ..a })
            && after_evaluate(a.calculator, b.calculator),
        Command::CalculatorClearHistory => r is Ok && b == (CoreView { calculator: b.calculator, ..a })
            && after_clear_history(a.calculator, b.calculator),
        Command::TextAnalyzerSetText(text) => r is Ok && b == (CoreView { text: text@, ..a }),
        Command::ColorApplyHex(input) => if hex_valid(input@) {
            r is Ok && b == (CoreView {
                color: ColorView { hex_input: hex_text(hex_rgb(input@)), rgb: hex_rgb(input@) },
                ..a
            })
        } else {
            r == Err::<(), CoreError>(CoreError::Color(ColorError::InvalidHex)) && b == (CoreView {
                color: ColorView { hex_input: input@, rgb: a.color.rgb },
                ..a
            })
        },
        Command::ColorSetRgb(rgb) => r is Ok && b == (CoreView {
            color: ColorView { hex_input: hex_text(rgb@), rgb: rgb@ },
            ..a
        }),
    }
}

impl Default for CoreState {
    fn default() -> (r: Self)
        ensures
            r@.portfolio == crate::domain::session::empty_portfolio(),
            restored_from(
                CalculatorSnapshotView { input: Seq::empty(), history: Seq::empty(), session: (1u16, Seq::empty()) },
                r@.calculator,
            ),
            r@.text == Seq::<char>::empty(),
            r@.color == crate::domain::session::default_color(),
            r@.active_view == View::Home,
    {
        let mut s = SessionSnapshot::default();
        s.schema_version = CURRENT_SCHEMA_VERSION;
        Self::from_snapshot(s)
    }
}

impl CoreState {
    /// The state a persisted session describes, on the home view.
    pub fn from_snapshot(snapshot: SessionSnapshot) -> (r: Self)
        ensures
            core_restored_from(snapshot@, r@),
    {
        let portfolio = Portfolio::from_snapshot(snapshot.portfolio.clone());
        let calculator = CalculatorState::from_snapshot(snapshot.calculator.clone());
        let text_analyzer = TextAnalyzerState::from_snapshot(snapshot.text_analyzer.clone());
        let color_converter = ColorConverterState::from_snapshot(snapshot.color_converter.clone());
        CoreState {
            portfolio,
            calculator,
            text_analyzer,
            color_converter,
            active_view: View::Home,
            persisted: snapshot,
        }
    }

    /// Applies one command; a command that cannot be applied is refused with
    /// its reason.
    pub fn dispatch(&mut self, command: Command) -> (r: Result<(), CoreError>)
        ensures
            dispatched(old(self)@, command, final(self)@, r),
    {
        match command {
            Command::Navigate(view) => self.active_view = view,
            Command::AddProject => self.portfolio.add_project(),
            Command::SetPortfolioField { field, value } => self.portfolio.set_field(field, value),
            Command::SetProjectField { index, field, value } => {
                match self.portfolio.set_project_field(index, field, value) {
                    Ok(()) => {},
                    Err(e) => {
                        return Err(CoreError::Portfolio(e));
                    },
                }
            },
            Command::CalculatorSetInput(input) => self.calculator.set_input(input),
            Command::CalculatorComplete { replacement, insert } => {
                self.calculator.complete(replacement, insert.as_str());
            },
            Command::CalculatorHistoryUp => self.calculator.history_up(),
            Command::CalculatorHistoryDown => self.calculator.history_down(),
            Command::CalculatorEvaluate => self.calculator.evaluate(),
            Command::CalculatorClearHistory => self.calculator.clear_history(),
            Command::TextAnalyzerSetText(text) => self.text_analyzer.set_text(text),
            Command::ColorApplyHex(input) => {
                match self.color_converter.apply_hex(input.as_str()) {
                    Ok(()) => {},
                    Err(e) => {
                        return Err(CoreError::Color(e));
                    },
                }
            },
            Command::ColorSetRgb(rgb) => self.color_converter.set_rgb(rgb),
        }
        Ok(())
    }

    /// The persisted session of the current state, in the current format.
    pub fn snapshot(&self) -> (r: SessionSnapshot)
        ensures
            r@ == session_of(self@),
    {
        let mut snapshot = self.persisted.clone();
        snapshot.schema_version = CURRENT_SCHEMA_VERSION;
        snapshot.portfolio = self.portfolio.snapshot();
        snapshot.calculator = self.calculator.snapshot();
        snapshot.text_analyzer = self.text_analyzer.snapshot();
        snapshot.color_converter = self.color_converter.snapshot();
        snapshot
    }
}

/// Restoring a session and persisting the state again gives the same
/// session back, in the current format.
pub proof fn lemma_session_round_trip(s: SessionView, c: CoreView)
    requires
        core_restored_from(s, c),
    ensures
        session_of(c) == (SessionView { schema_version: CURRENT_SCHEMA_VERSION, ..s }),
{
}

} // verus!
