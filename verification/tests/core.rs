use portfolio_core::domain::calculator::{
    CalculatorState, CalculatorStateWire, HistoryEntry, HistoryOutcome, LegacyOperation,
};
use portfolio_core::domain::color_converter::{ColorError, format_hex, parse_hex_color};
use portfolio_core::domain::portfolio::{Portfolio, PortfolioError, Project, ProjectField};
use portfolio_core::domain::session::{CURRENT_SCHEMA_VERSION, SessionSnapshot, migrate};
use portfolio_core::domain::text_analyzer::{TextStats, analyze_text};
use portfolio_core::engine::types::SessionSnapshot as CalculatorSession;

fn wire(
    left: Option<&str>,
    right: Option<&str>,
    operation: Option<LegacyOperation>,
    result: Option<&str>,
) -> CalculatorStateWire {
    CalculatorStateWire {
        input: String::new(),
        history: Vec::<HistoryEntry>::new(),
        session: CalculatorSession::default(),
        left: left.map(str::to_owned),
        right: right.map(str::to_owned),
        operation,
        result: result.map(str::to_owned),
    }
}

#[test]
fn restoring_snapshot_rebuilds_live_calculator_runtime() {
    let mut calculator = CalculatorState::default();
    calculator.set_input("x = 2".to_owned());
    calculator.evaluate();

    let mut restored = CalculatorState::from_snapshot(calculator.snapshot());
    restored.set_input("x^2".to_owned());
    restored.evaluate();

    assert!(matches!(
        restored.history().last().map(|entry| &entry.outcome),
        Some(HistoryOutcome::Value { primary, .. }) if primary == "4"
    ));
}

#[test]
fn calculator_migrates_legacy_calculator_record() {
    // (left:Some("2"),right:Some("3"),operation:Some(Add),result:Some("5"))
    let state = CalculatorState::from_wire(wire(
        Some("2"),
        Some("3"),
        Some(LegacyOperation::Add),
        Some("5"),
    ));
    assert_eq!(state.history().len(), 1);
    assert_eq!(state.history()[0].input, "2 + 3");
    assert!(matches!(
        &state.history()[0].outcome,
        HistoryOutcome::Value { primary, .. } if primary == "5"
    ));
}

#[test]
fn calculator_migrates_incomplete_legacy_calculator_to_empty_repl() {
    // (left:Some("2"))
    let state = CalculatorState::from_wire(wire(Some("2"), None, None, None));
    assert!(state.input().is_empty());
    assert!(state.history().is_empty());
}

#[test]
fn clear_history_drops_transcript_but_keeps_input_and_definitions() {
    let mut calculator = CalculatorState::default();
    calculator.set_input("x = 2".to_owned());
    calculator.evaluate();
    calculator.set_input("x^2".to_owned());
    calculator.evaluate();
    assert_eq!(calculator.history().len(), 2);

    calculator.set_input("x + 1".to_owned());
    calculator.clear_history();

    assert!(calculator.history().is_empty());
    assert_eq!(calculator.input(), "x + 1");
    // The variable session survives a clear, so definitions still apply.
    assert!(matches!(
        calculator.preview(),
        Ok(Some(evaluation)) if evaluation.primary == "3"
    ));
}

#[test]
fn color_converter_parse_hex_with_prefix() {
    assert_eq!(parse_hex_color("#336699"), Ok([51, 102, 153]));
}

#[test]
fn color_converter_parse_hex_lowercase_no_prefix() {
    assert_eq!(parse_hex_color("ff0080"), Ok([255, 0, 128]));
}

#[test]
fn color_converter_parse_hex_wrong_length_fails() {
    assert_eq!(parse_hex_color("#33669"), Err(ColorError::InvalidHex));
    assert_eq!(parse_hex_color("#3366990"), Err(ColorError::InvalidHex));
}

#[test]
fn color_converter_parse_hex_non_hex_digits_fail() {
    assert_eq!(parse_hex_color("#33gg99"), Err(ColorError::InvalidHex));
}

#[test]
fn color_converter_format_hex_canonicalizes() {
    assert_eq!(format_hex([51, 102, 153]), "#336699");
    assert_eq!(format_hex([255, 0, 128]), "#FF0080");
}

#[test]
fn add_project_and_update_fields_are_domain_transitions() {
    let mut portfolio = Portfolio::default();
    portfolio.add_project();
    portfolio
        .set_project_field(0, ProjectField::Title, "Example".to_owned())
        .expect("updating an existing project must succeed");
    assert_eq!(portfolio.projects[0].title, "Example");
}

#[test]
fn missing_project_is_reported_without_mutation() {
    let mut portfolio = Portfolio::default();
    let error = portfolio
        .set_project_field(0, ProjectField::Url, "https://example.test".to_owned())
        .expect_err("missing project must fail");
    assert_eq!(error, PortfolioError::ProjectNotFound { index: 0 });
}

#[test]
fn portfolio_round_trips_through_session_snapshot() {
    let portfolio = Portfolio {
        display_name: "Ada".to_owned(),
        projects: vec![Project {
            title: "Calculator".to_owned(),
            ..Project::default()
        }],
        ..Portfolio::default()
    };
    let restored = Portfolio::from_snapshot(portfolio.snapshot());
    assert_eq!(restored, portfolio);
}

#[test]
fn default_snapshot_uses_current_schema() {
    let snapshot = SessionSnapshot {
        schema_version: CURRENT_SCHEMA_VERSION,
        ..SessionSnapshot::default()
    };
    assert_eq!(snapshot.schema_version, CURRENT_SCHEMA_VERSION);
}

#[test]
fn migration_updates_schema_without_framework_types() {
    let snapshot = SessionSnapshot::default();
    let (migrated, changed) = migrate(snapshot);
    assert!(changed);
    assert_eq!(migrated.schema_version, CURRENT_SCHEMA_VERSION);
}

#[test]
fn text_analyzer_analyze_empty_text() {
    assert_eq!(
        analyze_text(""),
        TextStats {
            characters: 0,
            words: 0,
            lines: 0
        }
    );
}

#[test]
fn text_analyzer_analyze_unicode_text() {
    assert_eq!(
        analyze_text("hello 世界"),
        TextStats {
            characters: 8,
            words: 2,
            lines: 1
        }
    );
}

#[test]
fn text_analyzer_analyze_repeated_whitespace() {
    assert_eq!(
        analyze_text("  one\t two \n three "),
        TextStats {
            characters: 19,
            words: 3,
            lines: 2
        }
    );
}

#[test]
fn text_analyzer_analyze_trailing_newline() {
    assert_eq!(
        analyze_text("hello 世界\n"),
        TextStats {
            characters: 9,
            words: 2,
            lines: 2
        }
    );
}
