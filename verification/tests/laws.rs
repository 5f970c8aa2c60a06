use portfolio_core::domain::calculator::{CalculatorState, HistoryOutcome, LegacyOperation};
use portfolio_core::domain::color_converter::{
    ColorConverterState, ColorError, format_hex, parse_hex_color,
};
use portfolio_core::domain::portfolio::{
    PortfolioError, PortfolioField, ProjectField, View, is_valid_email, is_valid_url,
};
use portfolio_core::domain::session::{CURRENT_SCHEMA_VERSION, SessionSnapshot};
use portfolio_core::domain::text_analyzer::TextAnalyzerState;
use portfolio_core::domain::{Command, CoreError, CoreState};
use portfolio_core::engine::calc::Calculator;
use portfolio_core::engine::types::DiagnosticKind;
use portfolio_core::ui::{
    HubAction, PaletteEffect, PaletteTarget, PortfolioApp, WorkspaceState, about_hub,
    calculator_hub, contact_hub, contains_str, open_window_count, palette_entries,
    palette_filter, projects_hub, session_or_default, tile_grid,
};

#[test]
fn reassigning_a_variable_replaces_only_its_value() {
    let mut calculator = Calculator::new();
    calculator.evaluate("x = 2").expect("assignment must evaluate");
    calculator.evaluate("y = 5").expect("assignment must evaluate");
    calculator.evaluate("x = 3").expect("reassignment must evaluate");
    assert_eq!(calculator.evaluate("x").expect("x").primary, "3");
    assert_eq!(calculator.evaluate("y").expect("y").primary, "5");
    assert_eq!(calculator.snapshot().definitions.len(), 2);
}

#[test]
fn preview_leaves_the_calculator_unchanged() {
    let calculator = Calculator::new();
    assert!(matches!(calculator.preview("z = 4"), Ok(Some(_))));
    assert!(calculator.snapshot().definitions.is_empty());
    assert!(matches!(calculator.preview("   "), Ok(None)));
}

#[test]
fn unknown_names_and_bad_syntax_are_reported() {
    let word = Calculator::new().evaluate("nosuchname + 1").expect_err("unknown name");
    assert_eq!(word.kind, DiagnosticKind::Lex);
    assert_eq!(word.message, "Invalid number.");
    let function = Calculator::new().evaluate("nosuch(1)").expect_err("unknown function");
    assert_eq!(function.kind, DiagnosticKind::UnknownIdentifier);
    assert_eq!(function.message, "Unknown function: nosuch.");
    let unit = Calculator::new().evaluate("5 m to nosuchunit").expect_err("unknown unit");
    assert_eq!(unit.kind, DiagnosticKind::UnknownIdentifier);
    assert!(Calculator::new().evaluate("1 +").is_err());
}

#[test]
fn exact_rationals_and_decimals() {
    let third = Calculator::new().evaluate("2/6").expect("fraction");
    assert_eq!(third.primary, "1/3");
    assert_eq!(
        Calculator::new().evaluate("1.5 * 2").expect("decimal").primary,
        "3"
    );
    assert_eq!(
        Calculator::new().evaluate("1_000 + 1e3").expect("literals").primary,
        "2000"
    );
}

#[test]
fn hex_format_then_parse_gives_the_color_back() {
    for rgb in [[0u8, 0, 0], [255, 255, 255], [18, 52, 171], [51, 102, 153]] {
        assert_eq!(parse_hex_color(&format_hex(rgb)), Ok(rgb));
    }
}

#[test]
fn refused_hex_keeps_the_color_and_the_text_as_typed() {
    let mut color = ColorConverterState::default();
    assert_eq!(color.apply_hex("#12"), Err(ColorError::InvalidHex));
    assert_eq!(color.rgb(), [51, 102, 153]);
    assert_eq!(color.hex_input(), "#12");
    assert_eq!(color.apply_hex("  abcdef "), Ok(()));
    assert_eq!(color.rgb(), [171, 205, 239]);
    assert_eq!(color.hex_input(), "#ABCDEF");
    color.set_rgb([1, 2, 3]);
    assert_eq!(color.hex_input(), "#010203");
}

#[test]
fn transcript_keeps_the_last_hundred_entries() {
    let mut calculator = CalculatorState::default();
    for i in 0..101 {
        calculator.set_input(format!("{i} + 0"));
        calculator.evaluate();
    }
    assert_eq!(calculator.history().len(), 100);
    assert_eq!(calculator.history()[0].input, "1 + 0");
    assert_eq!(calculator.history()[99].input, "100 + 0");
}

#[test]
fn blank_input_adds_nothing_to_the_transcript() {
    let mut calculator = CalculatorState::default();
    calculator.set_input("   ".to_owned());
    calculator.evaluate();
    assert!(calculator.history().is_empty());
    assert_eq!(calculator.input(), "   ");
}

#[test]
fn failed_evaluation_keeps_the_stored_definitions() {
    let mut calculator = CalculatorState::default();
    calculator.set_input("x = 2".to_owned());
    calculator.evaluate();
    calculator.set_input("x = (".to_owned());
    calculator.evaluate();
    assert!(matches!(
        &calculator.history()[1].outcome,
        HistoryOutcome::Error { .. }
    ));
    assert_eq!(calculator.snapshot().session.definitions.len(), 1);
}

#[test]
fn history_navigation_walks_the_transcript() {
    let mut calculator = CalculatorState::default();
    for line in ["1 + 1", "2 + 2"] {
        calculator.set_input(line.to_owned());
        calculator.evaluate();
    }
    calculator.history_up();
    assert_eq!(calculator.input(), "2 + 2");
    calculator.history_up();
    assert_eq!(calculator.input(), "1 + 1");
    calculator.history_up();
    assert_eq!(calculator.input(), "1 + 1");
    calculator.history_down();
    assert_eq!(calculator.input(), "2 + 2");
    calculator.history_down();
    assert_eq!(calculator.input(), "");
}

#[test]
fn completion_replaces_the_word_at_the_cursor() {
    let mut calculator = CalculatorState::default();
    calculator.set_input("sq".to_owned());
    let first = calculator.completions()[0].clone();
    assert_eq!(first.insert, "sqrt");
    calculator.complete(first.replacement.clone(), &first.insert);
    assert_eq!(calculator.input(), "sqrt");
    calculator.complete(9..12, "x");
    assert_eq!(calculator.input(), "sqrt");
}

#[test]
fn unsupported_stored_definitions_reset_with_a_warning() {
    let mut session = Calculator::new();
    session.evaluate("x = 2").expect("assignment");
    let mut stored = session.snapshot();
    stored.schema_version = 7;
    let restored = CalculatorState::from_snapshot(
        portfolio_core::domain::session::CalculatorSnapshot {
            input: String::new(),
            history: Vec::new(),
            session: stored,
        },
    );
    assert_eq!(
        restored.restore_warning(),
        Some("Stored calculator variables were reset because their format is unsupported.")
    );
}

#[test]
fn legacy_record_without_result_becomes_the_input() {
    let wire = portfolio_core::domain::calculator::CalculatorStateWire {
        input: String::new(),
        history: Vec::new(),
        session: portfolio_core::engine::types::SessionSnapshot {
            schema_version: 1,
            definitions: Vec::new(),
        },
        left: Some("6".to_owned()),
        right: Some("3".to_owned()),
        operation: Some(LegacyOperation::Divide),
        result: None,
    };
    let state = CalculatorState::from_wire(wire);
    assert_eq!(state.input(), "6 / 3");
    assert!(state.history().is_empty());
}

#[test]
fn session_round_trips_through_the_core_state() {
    let mut core = CoreState::default();
    core.dispatch(Command::SetPortfolioField {
        field: PortfolioField::DisplayName,
        value: "Ada".to_owned(),
    })
    .expect("field");
    core.dispatch(Command::AddProject).expect("project");
    core.dispatch(Command::SetProjectField {
        index: 0,
        field: ProjectField::Url,
        value: "https://example.test".to_owned(),
    })
    .expect("project field");
    core.dispatch(Command::ColorSetRgb([1, 2, 3])).expect("color");
    core.dispatch(Command::TextAnalyzerSetText("text".to_owned()))
        .expect("text");
    let first = core.snapshot();
    let again = CoreState::from_snapshot(core.snapshot()).snapshot();
    assert_eq!(first, again);
    assert_eq!(again.schema_version, CURRENT_SCHEMA_VERSION);
    assert_eq!(again.portfolio.projects[0].url, "https://example.test");
}

#[test]
fn refused_commands_leave_the_state_unchanged() {
    let mut core = CoreState::default();
    let before = core.snapshot();
    assert_eq!(
        core.dispatch(Command::SetProjectField {
            index: 3,
            field: ProjectField::Title,
            value: "x".to_owned(),
        }),
        Err(CoreError::Portfolio(PortfolioError::ProjectNotFound { index: 3 }))
    );
    assert_eq!(core.snapshot(), before);
    assert_eq!(
        core.dispatch(Command::ColorApplyHex("nope".to_owned())),
        Err(CoreError::Color(ColorError::InvalidHex))
    );
    assert_eq!(core.color_converter.rgb(), [51, 102, 153]);
    assert_eq!(core.dispatch(Command::Navigate(View::Contact)), Ok(()));
    assert_eq!(core.active_view, View::Contact);
}

#[test]
fn text_analyzer_state_counts_its_text() {
    let mut state = TextAnalyzerState::default();
    state.set_text("a b\nc".to_owned());
    let stats = state.stats();
    assert_eq!((stats.characters, stats.words, stats.lines), (5, 3, 2));
    assert_eq!(state.text(), "a b\nc");
}

#[test]
fn links_and_addresses_are_checked() {
    assert!(is_valid_url("https://example.test"));
    assert!(is_valid_url("http://example.test"));
    assert!(!is_valid_url("ftp://example.test"));
    assert!(is_valid_email("ada@example.test"));
    assert!(!is_valid_email("ada.example.test"));
}

#[test]
fn empty_and_mixed_case_queries_filter_alike() {
    let entries = palette_entries(true, false, true);
    assert_eq!(palette_filter("", &entries).len(), entries.len());
    assert_eq!(palette_filter("WiNdOwS", &entries), palette_filter("windows", &entries));
    let tile = palette_filter("windows", &entries);
    assert_eq!(tile.len(), 1);
    assert_eq!(tile[0].label, "Untile windows");
    assert!(contains_str("color converter", "or co"));
    assert!(!contains_str("color", "colour"));
    assert!(contains_str("anything", ""));
}

#[test]
fn tile_grid_is_the_smallest_square_that_holds_the_panes() {
    assert_eq!(tile_grid(0), (0, 0));
    assert_eq!(tile_grid(1), (1, 1));
    assert_eq!(tile_grid(2), (2, 1));
    assert_eq!(tile_grid(3), (2, 2));
    assert_eq!(tile_grid(4), (2, 2));
    assert_eq!(tile_grid(5), (3, 2));
    assert_eq!(tile_grid(7), (3, 3));
}

#[test]
fn palette_selection_wraps_at_both_ends() {
    let mut workspace = WorkspaceState::default();
    workspace.move_palette_selection(3, false, true);
    assert_eq!(workspace.palette_selection, 2);
    workspace.move_palette_selection(3, true, false);
    assert_eq!(workspace.palette_selection, 0);
    workspace.palette_selection = 9;
    workspace.move_palette_selection(4, false, false);
    assert_eq!(workspace.palette_selection, 3);
    workspace.move_palette_selection(0, true, true);
    assert_eq!(workspace.palette_selection, 3);
}

#[test]
fn navigation_opens_workspaces_and_routes_the_mobile_view() {
    let mut app = PortfolioApp::default();
    assert_eq!(open_window_count(&app.workspace), 0);
    app.navigate(View::Calculator, false);
    app.navigate(View::About, true);
    app.navigate(View::Home, false);
    assert_eq!(open_window_count(&app.workspace), 2);
    assert_eq!(app.workspace.mobile_view, View::About);
    assert_eq!(app.core.active_view, View::Home);
}

#[test]
fn palette_opens_empty_and_runs_its_targets() {
    let mut app = PortfolioApp::default();
    app.workspace.palette_query = "calc".to_owned();
    app.workspace.palette_selection = 2;
    app.open_palette();
    assert!(app.workspace.palette_open && app.workspace.palette_focus_requested);
    assert!(app.workspace.palette_query.is_empty());
    assert_eq!(app.workspace.palette_selection, 0);
    app.close_palette();
    assert!(!app.workspace.palette_open);
    assert_eq!(
        app.activate_palette_target(PaletteTarget::ToggleTile, false),
        PaletteEffect::Nothing
    );
    assert!(app.workspace.tiled);
    assert_eq!(
        app.activate_palette_target(PaletteTarget::ToggleTile, false),
        PaletteEffect::ResetWindows
    );
    assert_eq!(
        app.activate_palette_target(PaletteTarget::Quit, false),
        PaletteEffect::Quit
    );
    assert_eq!(
        app.activate_palette_target(PaletteTarget::Navigate(View::Projects), true),
        PaletteEffect::Nothing
    );
    assert_eq!(app.workspace.mobile_view, View::Projects);
}

#[test]
fn hub_actions_reach_the_domain_state() {
    assert_eq!(about_hub()[0].action, HubAction::EditPortfolio);
    assert_eq!(contact_hub()[0].label, "Edit portfolio");
    assert_eq!(projects_hub()[0].action, HubAction::AddProject);
    assert_eq!(calculator_hub()[0].label, "Clear history");
    let mut app = PortfolioApp::default();
    app.apply_hub_action(HubAction::AddProject, false);
    assert_eq!(app.core.portfolio.projects.len(), 1);
    app.apply_hub_action(HubAction::EditPortfolio, false);
    assert!(app.workspace.edit_open);
    app.core
        .dispatch(Command::CalculatorSetInput("1 + 1".to_owned()))
        .expect("input");
    app.core.dispatch(Command::CalculatorEvaluate).expect("evaluate");
    app.apply_hub_action(HubAction::ClearHistory, false);
    assert!(app.core.calculator.history().is_empty());
}

#[test]
fn color_messages_follow_the_hex_input() {
    let mut app = PortfolioApp::default();
    app.apply_color_hex("#zz0000".to_owned());
    assert_eq!(
        app.workspace.color_error.as_deref(),
        Some("Use a 6-digit hex color such as #336699.")
    );
    app.apply_color_hex("#00ff00".to_owned());
    assert_eq!(app.workspace.color_error, None);
    assert_eq!(app.core.color_converter.rgb(), [0, 255, 0]);
    app.apply_color_hex("bad".to_owned());
    app.set_color_rgb([9, 9, 9]);
    assert_eq!(app.workspace.color_error, None);
    assert_eq!(app.core.color_converter.hex_input(), "#090909");
}

#[test]
fn missing_session_starts_empty_in_the_current_format() {
    let fresh = session_or_default(None);
    assert_eq!(fresh.schema_version, CURRENT_SCHEMA_VERSION);
    assert_eq!(
        fresh,
        SessionSnapshot {
            schema_version: CURRENT_SCHEMA_VERSION,
            ..SessionSnapshot::default()
        }
    );
}

#[test]
fn each_diagnostic_kind_has_an_input() {
    let kind = |input: &str| Calculator::new().evaluate(input).expect_err("must fail");
    let arity = kind("gcd(2)");
    assert_eq!(arity.kind, DiagnosticKind::Parse);
    assert_eq!(arity.message, "gcd expects 2 arguments.");
    let zero = kind("1/0");
    assert_eq!(zero.kind, DiagnosticKind::Domain);
    assert_eq!(zero.message, "Division by zero.");
    let affine = kind("20 degC + 1 degC");
    assert_eq!(affine.kind, DiagnosticKind::Domain);
    assert_eq!(affine.message, "Affine temperature units can only be converted.");
    let units = kind("1 m + 1 s");
    assert_eq!(units.kind, DiagnosticKind::Dimension);
    assert_eq!(units.message, "Incompatible dimensions.");
    let complex = kind("2^i");
    assert_eq!(complex.kind, DiagnosticKind::Unsupported);
    assert_eq!(complex.message, "Powers require real scalars.");
    let factorial = kind("2000!");
    assert_eq!(factorial.kind, DiagnosticKind::Limit);
    assert_eq!(factorial.message, "Factorial exceeds 1024.");
}
