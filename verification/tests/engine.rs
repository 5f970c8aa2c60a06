use portfolio_core::engine::calc::Calculator;
use portfolio_core::engine::types::{DefinitionSnapshot, DiagnosticKind};

fn value(input: &str) -> String {
    Calculator::new()
        .evaluate(input)
        .expect("expression must evaluate")
        .primary
}

#[test]
fn precedence_and_exact_values() {
    assert_eq!(value("1 + 3 * 4"), "13");
    assert_eq!(value("2^3^2"), "512");
    assert_eq!(value("0xFF + 0b1"), "256");
    assert_eq!(value("2^100"), "1267650600228229401496703205376");
    assert_eq!(value("sqrt(-4)"), "2i");
}

#[test]
fn implicit_multiplication_precision_and_units() {
    assert_eq!(value("2pi"), "≈ 6.28318530717958647692528676656");
    assert_eq!(value("(1+2)(3+4)"), "21");
    let third = Calculator::new().evaluate("1/3").expect("fraction");
    assert_eq!(third.primary, "1/3");
    assert_eq!(
        third.approximation.as_deref(),
        Some("≈ 0.333333333333333333333333333333")
    );
    assert_eq!(value("5 m/s to km/h"), "18 km/h");
    assert_eq!(value("i*i"), "-1");
}

#[test]
fn affine_temperature_conversion() {
    assert_eq!(value("20 degC to degF"), "68 degF");
    assert!(Calculator::new().evaluate("20 degC + 1 degC").is_err());
}

#[test]
fn quantity_arithmetic_and_zero_denominators() {
    assert_eq!(value("2 m * 3 m"), "6 m²");
    assert_eq!(value("10 N / 5 Pa"), "2 m²");
    assert_eq!(value("1 / 2 s"), "1/2 1/s");
    assert!(Calculator::new().evaluate("5 m / 0 s").is_err());
}

#[test]
fn completion_matches_supported_functions() {
    let calculator = Calculator::new();
    let completions = calculator.complete("si", 2);
    assert!(completions.iter().any(|completion| completion.insert == "sin"));
    assert!(!completions.iter().any(|completion| completion.insert == "sinh"));
    assert_eq!(value("sin(0)"), "≈ 0.0");
}

#[test]
fn prefixed_and_powered_units() {
    assert_eq!(value("2 km to m"), "2000 m");
    assert_eq!(value("1 m/s^2 to m/s^2"), "1 m/s^2");
    assert_eq!(value("1 ft to in"), "12 in");
}

#[test]
fn integer_functions_and_arities() {
    assert_eq!(value("gcd(63,27)"), "9");
    assert_eq!(value("lcm(6,8)"), "24");
    assert_eq!(value("nCr(5,2)"), "10");
    assert_eq!(value("nPr(5,2)"), "20");
    assert_eq!(value("min(3,1,2)"), "1");
    assert_eq!(value("max(3,1,2)"), "3");
    assert!(Calculator::new().evaluate("gcd(2)").is_err());
}

#[test]
fn constants_flow_into_transcendental_functions() {
    let result = Calculator::new()
        .evaluate("sin(pi/2)")
        .expect("sine must evaluate");
    assert!(result.primary.starts_with("≈ 1"));
    assert!(Calculator::new().evaluate("ln(-1)").is_err());
}

#[test]
fn snapshots_restore_in_order_and_discard_invalid_definitions() {
    let mut calculator = Calculator::new();
    calculator
        .evaluate("x = 2")
        .expect("assignment must evaluate");
    calculator
        .evaluate("y = x + 3")
        .expect("dependent assignment must evaluate");
    let snapshot = calculator.snapshot();
    let mut restored = Calculator::new();
    let report = restored.restore(&snapshot);
    assert_eq!(report.restored, 2);
    assert_eq!(
        restored
            .evaluate("y^2")
            .expect("restored variable must evaluate")
            .primary,
        "25"
    );

    let mut invalid = snapshot.clone();
    invalid.definitions.push(DefinitionSnapshot {
        name: "bad".to_owned(),
        source: "bad = (".to_owned(),
    });
    let report = restored.restore(&invalid);
    assert_eq!(report.restored, 2);
    assert_eq!(report.discarded.len(), 1);
}

#[test]
fn input_limit_is_reported_before_evaluation() {
    let input = "1".repeat(4097);
    let error = Calculator::new()
        .evaluate(&input)
        .expect_err("oversized input must fail");
    assert_eq!(error.kind, DiagnosticKind::Limit);
}
