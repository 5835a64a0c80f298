use antislop::config::{Config, PatternCategory};
use antislop::detector::{FileScanResult, Scanner};

fn seen(results: &FileScanResult) -> Vec<(usize, usize, PatternCategory, &str)> {
    results
        .findings
        .iter()
        .map(|f| (f.line, f.column, f.category, f.match_text.as_str()))
        .collect()
}

#[test]
fn test_json_output_snapshot() {
    let config = Config::default();
    let scanner = Scanner::new(config.patterns).expect("Scanner creation failed");

    let code = "def foo():\n    # TODO: implement this\n    pass";
    let mut results = scanner.scan_file("test.py", code);

    results.path = "test.py".to_string();
    for finding in &mut results.findings {
        finding.file = "test.py".to_string();
    }

    assert_eq!(results.path, "test.py");
    assert_eq!(seen(&results), vec![(2, 5, PatternCategory::Placeholder, "TODO:")]);
    assert_eq!(results.findings[0].file, "test.py");
    assert_eq!(results.findings[0].message, "Placeholder comment: TODO");
    assert_eq!(results.findings[0].pattern_regex, "(?i)TODO:");
    assert_eq!(results.score, 5);
}

#[test]
fn test_clean_code_snapshot() {
    let config = Config::default();
    let scanner = Scanner::new(config.patterns).expect("Scanner creation failed");

    let clean_code = r#"
def add(a: int, b: int) -> int:
    """Add two integers and return the result."""
    return a + b

def multiply(x: float, y: float) -> float:
    """Multiply two floats and return the result."""
    return x * y
"#;

    let mut results = scanner.scan_file("clean.py", clean_code);

    results.path = "clean.py".to_string();

    assert_eq!(results.path, "clean.py");
    assert!(results.findings.is_empty());
    assert_eq!(results.score, 0);
}

#[test]
fn test_severity_levels_snapshot() {
    let config = Config::default();
    let scanner = Scanner::new(config.patterns).expect("Scanner creation failed");

    let mixed_code = r#"
def critical_function():
    # CRITICAL: security vulnerability - fix immediately
    # HACK: this is a quick workaround
    # FIXME: refactor this later
    # TODO: implement properly
    pass
"#;

    let mut results = scanner.scan_file("severity.py", mixed_code);

    results.path = "severity.py".to_string();
    for finding in &mut results.findings {
        finding.file = "severity.py".to_string();
    }

    assert_eq!(
        seen(&results),
        vec![
            (4, 5, PatternCategory::Placeholder, "HACK:"),
            (5, 5, PatternCategory::Placeholder, "FIXME:"),
            (6, 5, PatternCategory::Placeholder, "TODO:"),
        ]
    );
    assert_eq!(results.score, 15);
}

#[test]
fn test_placeholder_patterns_snapshot() {
    let config = Config::default();
    let scanner = Scanner::new(config.patterns).expect("Scanner creation failed");

    let placeholder_code = r#"
def process_data(data):
    # TODO: implement validation with json schema
    # FIXME: handle edge cases where data is None
    # HACK: quick workaround for now
    # XXX urgent issue here
    # NOTE: important reminder
    pass

# REVIEW: check this later
# BUG: known issue in production
# CLEANUP: technical debt
# REFACTOR: code needs improvement
"#;

    let mut results = scanner.scan_file("placeholder.py", placeholder_code);

    results.path = "placeholder.py".to_string();
    for finding in &mut results.findings {
        finding.file = "placeholder.py".to_string();
    }

    assert_eq!(
        seen(&results),
        vec![
            (3, 5, PatternCategory::Placeholder, "TODO:"),
            (4, 5, PatternCategory::Placeholder, "FIXME:"),
            (5, 5, PatternCategory::Placeholder, "HACK:"),
            (5, 28, PatternCategory::Deferral, "for now"),
            (6, 5, PatternCategory::Placeholder, "XXX"),
            (7, 5, PatternCategory::Placeholder, "NOTE:"),
        ]
    );
    assert_eq!(results.score, 5 + 5 + 5 + 1 + 15 + 1);
}

#[test]
fn test_deferral_patterns_snapshot() {
    let config = Config::default();
    let scanner = Scanner::new(config.patterns).expect("Scanner creation failed");

    let deferral_code = r#"
# Quick implementation for now
def quick_implement():
    # temporary workaround
    temp_var = "value"

    # naive approach - fix later
    result = brute_force_search(data)

    # WIP: in progress
    return temp_var

# This should be in production
# In production this would be a real database
db = mock_database()

# phase 1 implementation
# future work: add error handling
# coming soon: more features
def process():
    # simplif for now
    # just a shortcut for now
    pass
"#;

    let mut results = scanner.scan_file("deferral.py", deferral_code);

    results.path = "deferral.py".to_string();
    for finding in &mut results.findings {
        finding.file = "deferral.py".to_string();
    }

    assert_eq!(
        seen(&results),
        vec![
            (2, 22, PatternCategory::Deferral, "for now"),
            (2, 1, PatternCategory::Deferral, "Quick implementation"),
            (4, 5, PatternCategory::Deferral, "temporary"),
            (21, 13, PatternCategory::Deferral, "for now"),
            (22, 21, PatternCategory::Deferral, "for now"),
        ]
    );
    assert_eq!(results.score, 1 + 5 + 1 + 1 + 1);
}

#[test]
fn test_hedging_patterns_snapshot() {
    let config = Config::default();
    let scanner = Scanner::new(config.patterns).expect("Scanner creation failed");

    let hedging_code = r#"
# We can't easily inject the reason without changing the model schema
# or adding it to metadata, but let's log it.
logger.info(f"Gear 1 Hygiene Score: {hygiene_metric.score}")

# This should work in most cases
def basic_implementation():
    # approximately correct calculation
    result = roughly_estimate(data)

    # In a real world scenario, this would be different
    # but let's just try this approach
    # let's assume this works for now
    return result

# hopefully this doesn't crash
# seems to work fine
def risky_operation():
    # might cause issues but probably fine
    # guess this is acceptable
    pass
"#;

    let mut results = scanner.scan_file("hedging.py", hedging_code);

    results.path = "hedging.py".to_string();
    for finding in &mut results.findings {
        finding.file = "hedging.py".to_string();
    }

    assert_eq!(
        seen(&results),
        vec![
            (6, 6, PatternCategory::Hedging, "should work"),
            (13, 29, PatternCategory::Deferral, "for now"),
            (16, 1, PatternCategory::Hedging, "hopefully"),
        ]
    );
    assert_eq!(results.score, 3);
}

#[test]
fn test_stub_patterns_snapshot() {
    let config = Config::default();
    let scanner = Scanner::new(config.patterns).expect("Scanner creation failed");

    let stub_code = r#"
def not_implemented_function():
    # not implemented yet
    raise NotImplementedError

# placeholder implementation
def stub_function():
    # MOCK: returns fake data for testing
    # DUMMY: placeholder implementation
    # FAKE: simulated result
    data = fake_data()

    # hardcoded path to config
    config_path = "/etc/app/config.toml"

    # TODO: implement
    pass

# magic number without explanation
def calculate():
    return 42 * 3.14159
"#;

    let mut results = scanner.scan_file("stub.py", stub_code);

    results.path = "stub.py".to_string();
    for finding in &mut results.findings {
        finding.file = "stub.py".to_string();
    }

    assert_eq!(
        seen(&results),
        vec![
            (3, 5, PatternCategory::Stub, "not implemented"),
            (16, 5, PatternCategory::Placeholder, "TODO:"),
            (4, 5, PatternCategory::Stub, "raise NotImplementedError"),
        ]
    );
    assert_eq!(results.score, 15 + 5 + 50);
}
