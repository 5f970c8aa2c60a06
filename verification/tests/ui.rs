use portfolio_core::domain::calculator::{
    CalculatorState, CalculatorStateWire, HistoryEntry, HistoryOutcome, LegacyOperation,
};
use portfolio_core::domain::color_converter::{format_hex, parse_hex_color};
use portfolio_core::domain::portfolio::View;
use portfolio_core::domain::session::{
    CURRENT_SCHEMA_VERSION, ColorConverterSnapshot, PortfolioSnapshot, SessionSnapshot,
    TextAnalyzerSnapshot,
};
use portfolio_core::domain::text_analyzer::analyze_text;
use portfolio_core::domain::{Command, CoreState};
use portfolio_core::engine::types::SessionSnapshot as CalculatorSession;
use portfolio_core::ui::{
    PaletteTarget, PortfolioApp, palette_entries, palette_filter, portfolio_menu_items,
    session_or_default, tool_menu_items,
};

fn legacy_wire(
    left: Option<&str>,
    right: Option<&str>,
    operation: Option<LegacyOperation>,
    result: Option<&str>,
) -> CalculatorStateWire {
    CalculatorStateWire {
        input: String::new(),
        history: Vec::<HistoryEntry>::new(),
        session: CalculatorSession::default(),
        left: left.map(str::to_owned),
        right: right.map(str::to_owned),
        operation,
        result: result.map(str::to_owned),
    }
}

fn color_message(input: &str) -> &'static str {
    parse_hex_color(input)
        .expect_err("invalid hex must be rejected")
        .message()
}

#[test]
fn app_calculator_state_evaluates_and_previews_without_mutation() {
    let mut calculator = CalculatorState::default();
    calculator.set_input("x = 2".to_owned());
    assert!(matches!(calculator.preview(), Ok(Some(_))));
    calculator.evaluate();
    calculator.set_input("x^2".to_owned());
    calculator.evaluate();
    assert!(matches!(
        calculator.history().last().map(|entry| &entry.outcome),
        Some(HistoryOutcome::Value { primary, .. }) if primary == "4"
    ));
}

#[test]
fn persistence_round_trips_calculator_session_through_the_adapter() {
    let mut app = PortfolioApp::default();
    app.core
        .dispatch(Command::CalculatorSetInput("x = 2".to_owned()))
        .expect("calculator input command must succeed");
    app.core
        .dispatch(Command::CalculatorEvaluate)
        .expect("calculator evaluate command must succeed");
    app.core
        .dispatch(Command::TextAnalyzerSetText("ab".to_owned()))
        .expect("text analyzer command must succeed");
    let snapshot = session_or_default(Some(app.core.snapshot()));
    assert_eq!(snapshot.schema_version, CURRENT_SCHEMA_VERSION);
    assert_eq!(snapshot.calculator.session.definitions.len(), 1);
    assert_eq!(snapshot.calculator.history.len(), 1);
    assert_eq!(snapshot.text_analyzer.text, "ab");
}

#[test]
fn persisted_state_does_not_include_transient_workspace() {
    let mut app = PortfolioApp::default();
    app.workspace.mobile_view = View::Calculator;
    app.workspace.calculator_open = true;
    let stored = app.core.snapshot();
    let restored = PortfolioApp {
        core: CoreState::from_snapshot(session_or_default(Some(stored))),
        ..PortfolioApp::default()
    };
    assert_eq!(restored.workspace.mobile_view, View::Home);
    assert!(!restored.workspace.calculator_open);
}

#[test]
fn legacy_app_record_loads_and_migrates_through_the_adapter() {
    // The record written before sessions had a format number: the four
    // slices and no `schema_version`, which reads as zero.
    let legacy = SessionSnapshot {
        schema_version: 0,
        portfolio: PortfolioSnapshot {
            display_name: "Ada".to_owned(),
            ..PortfolioSnapshot::default()
        },
        calculator: portfolio_core::domain::session::CalculatorSnapshot {
            input: String::new(),
            history: Vec::new(),
            session: CalculatorSession {
                schema_version: 1,
                definitions: Vec::new(),
            },
        },
        text_analyzer: TextAnalyzerSnapshot {
            text: "hi".to_owned(),
        },
        color_converter: ColorConverterSnapshot {
            hex_input: "#336699".to_owned(),
            rgb: [51, 102, 153],
        },
    };
    let snapshot = session_or_default(Some(legacy));
    assert_eq!(snapshot.schema_version, CURRENT_SCHEMA_VERSION);
    assert_eq!(snapshot.portfolio.display_name, "Ada");
    assert_eq!(snapshot.text_analyzer.text, "hi");
    assert_eq!(snapshot.color_converter, ColorConverterSnapshot::default());
}

#[test]
fn the_domain_rail_holds_exactly_six_visible_entries() {
    assert_eq!(
        portfolio_menu_items().len() + tool_menu_items().len(),
        6,
        "the rail must stay at its n ≤ 6 display cap"
    );
    // The portfolio editor is an object-level action, never a rail entry.
    assert!(!portfolio_menu_items()
        .iter()
        .chain(&tool_menu_items())
        .any(|(_, view)| *view == View::EditPortfolio));
}

#[test]
fn palette_lists_every_rail_workspace_and_editor_action() {
    let entries = palette_entries(false, false, false);
    for (_, view) in portfolio_menu_items().iter().chain(&tool_menu_items()) {
        assert!(entries
            .iter()
            .any(|entry| entry.target == PaletteTarget::Navigate(*view)));
    }
    assert!(entries
        .iter()
        .any(|entry| entry.target == PaletteTarget::Navigate(View::EditPortfolio)));
    // No tile toggle in a mobile context, no Quit on the web.
    assert!(!entries
        .iter()
        .any(|entry| entry.target == PaletteTarget::ToggleTile));
    assert!(!entries.iter().any(|entry| entry.target == PaletteTarget::Quit));
    let desktop = palette_entries(false, false, true);
    assert!(desktop
        .iter()
        .any(|entry| entry.target == PaletteTarget::ToggleTile));
    let native_entries = palette_entries(false, true, true);
    assert!(native_entries
        .iter()
        .any(|entry| entry.target == PaletteTarget::Quit));
}

#[test]
fn palette_filter_is_case_insensitive_and_order_stable() {
    let entries = palette_entries(false, true, true);
    assert_eq!(palette_filter("", &entries), entries);
    // "calc" matches only the Calculator workspace.
    let calc = palette_filter("calc", &entries);
    assert_eq!(calc.len(), 1);
    assert_eq!(calc[0].target, PaletteTarget::Navigate(View::Calculator));
    // Uppercase query matches the lowercase label.
    let text = palette_filter("TEXT", &entries);
    assert_eq!(text.len(), 1);
    assert_eq!(text[0].target, PaletteTarget::Navigate(View::TextAnalyzer));
    // No match yields an empty list, not a panic.
    assert!(palette_filter("zzzz", &entries).is_empty());
}

#[test]
fn app_migrates_legacy_calculator_record() {
    // (left:Some("2"),right:Some("3"),operation:Some(Add),result:Some("5"))
    let state = CalculatorState::from_wire(legacy_wire(
        Some("2"),
        Some("3"),
        Some(LegacyOperation::Add),
        Some("5"),
    ));
    assert_eq!(state.history().len(), 1);
    assert_eq!(state.history()[0].input, "2 + 3");
    assert!(matches!(
        &state.history()[0].outcome,
        HistoryOutcome::Value { primary, .. } if primary == "5"
    ));
}

#[test]
fn app_migrates_incomplete_legacy_calculator_to_empty_repl() {
    // (left:Some("2"))
    let state = CalculatorState::from_wire(legacy_wire(Some("2"), None, None, None));
    assert!(state.input().is_empty());
    assert!(state.history().is_empty());
}

#[test]
fn app_analyze_empty_text() {
    let stats = analyze_text("");
    assert_eq!(stats.characters, 0);
    assert_eq!(stats.words, 0);
    assert_eq!(stats.lines, 0);
}

#[test]
fn app_analyze_unicode_text() {
    let stats = analyze_text("hello 世界");
    assert_eq!(stats.characters, 8);
    assert_eq!(stats.words, 2);
    assert_eq!(stats.lines, 1);
}

#[test]
fn app_analyze_repeated_whitespace() {
    let stats = analyze_text("  one\t two \n three ");
    assert_eq!(stats.characters, 19);
    assert_eq!(stats.words, 3);
    assert_eq!(stats.lines, 2);
}

#[test]
fn app_analyze_trailing_newline() {
    let stats = analyze_text("hello 世界\n");
    assert_eq!(stats.characters, 9);
    assert_eq!(stats.words, 2);
    assert_eq!(stats.lines, 2);
}

#[test]
fn app_parse_hex_with_prefix() {
    assert_eq!(
        parse_hex_color("#336699").expect("valid hex with prefix must parse"),
        [51, 102, 153]
    );
}

#[test]
fn app_parse_hex_lowercase_no_prefix() {
    assert_eq!(
        parse_hex_color("ff0080").expect("valid lowercase hex must parse"),
        [255, 0, 128]
    );
}

#[test]
fn app_parse_hex_wrong_length_fails() {
    assert_eq!(
        color_message("#33669"),
        "Use a 6-digit hex color such as #336699."
    );
    assert_eq!(
        color_message("#3366990"),
        "Use a 6-digit hex color such as #336699."
    );
}

#[test]
fn app_parse_hex_non_hex_digits_fail() {
    assert_eq!(
        color_message("#33gg99"),
        "Use a 6-digit hex color such as #336699."
    );
}

#[test]
fn app_format_hex_canonicalizes() {
    assert_eq!(format_hex([51, 102, 153]), "#336699");
    assert_eq!(format_hex([255, 0, 128]), "#FF0080");
}

#[test]
fn persistence_keeps_calculator_session_and_resets_workspace() {
    let mut app = PortfolioApp::default();
    app.core
        .dispatch(Command::CalculatorSetInput("x = 2".to_owned()))
        .expect("calculator input command must succeed");
    app.core
        .dispatch(Command::CalculatorEvaluate)
        .expect("calculator evaluate command must succeed");
    app.core
        .dispatch(Command::TextAnalyzerSetText("ab".to_owned()))
        .expect("text analyzer command must succeed");
    app.workspace.mobile_view = View::Calculator;
    app.workspace.calculator_open = true;
    let restored = PortfolioApp {
        core: CoreState::from_snapshot(session_or_default(Some(app.core.snapshot()))),
        ..PortfolioApp::default()
    };
    let snapshot = restored.core.snapshot();
    assert_eq!(snapshot.calculator.session.definitions.len(), 1);
    assert_eq!(snapshot.calculator.history.len(), 1);
    assert_eq!(restored.workspace.mobile_view, View::Home);
    assert!(!restored.workspace.calculator_open);
}

#[test]
fn calculator_state_evaluates_and_previews_without_mutation() {
    let mut calculator = CalculatorState::default();
    calculator.set_input("x = 2".to_owned());
    assert!(matches!(calculator.preview(), Ok(Some(_))));
    calculator.evaluate();
    calculator.set_input("x^2".to_owned());
    calculator.evaluate();
    assert!(matches!(
        calculator.history().last().map(|entry| &entry.outcome),
        Some(HistoryOutcome::Value { primary, .. }) if primary == "4"
    ));
}
