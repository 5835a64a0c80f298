use antislop::config::{Config, PatternCategory};
use antislop::detector::Scanner;

#[test]
fn test_default_extensions_are_populated() {
    let config = Config::default();
    assert!(!config.file_extensions.is_empty(), "Default extensions should not be empty");

    let exts: Vec<&str> = config.file_extensions.iter().map(|s| s.as_str()).collect();
    assert!(exts.contains(&".py"), "Should include .py");
    assert!(exts.contains(&".rs"), "Should include .rs");
    assert!(exts.contains(&".js"), "Should include .js");
    assert!(exts.contains(&".ts"), "Should include .ts");
    assert!(exts.contains(&".go"), "Should include .go");
}

#[test]
fn test_default_max_file_size_is_reasonable() {
    let config = Config::default();
    assert!(config.max_file_size_kb >= 100, "Default max file size should be at least 100KB");
    assert!(config.max_file_size_kb <= 100000, "Default max file size should be under 100GB");
}

#[test]
fn test_scanner_with_different_extensions() {
    let config = Config::default();
    let scanner = Scanner::new(config.patterns).unwrap();

    let test_cases = vec![
        ("test.py", "# TODO: python"),
        ("test.rs", "// TODO: rust"),
        ("test.js", "// TODO: javascript"),
        ("test.go", "// TODO: go"),
        ("test.java", "// TODO: java"),
        ("test.rb", "# TODO: ruby"),
    ];

    for (filename, code) in test_cases {
        let result = scanner.scan_file(filename, code);
        assert!(!result.findings.is_empty(), "Should detect TODO in {}", filename);
    }
}

#[test]
fn test_config_validate_patterns_actually_validates() {
    let config = Config::default();
    assert!(config.validate_patterns().is_ok(), "Default patterns should be valid");
}

#[test]
fn test_patterns_for_category_filtering() {
    let config = Config::default();

    let placeholder = config.patterns_for_category(&PatternCategory::Placeholder);
    let stub = config.patterns_for_category(&PatternCategory::Stub);

    for p in placeholder {
        assert_eq!(p.category, PatternCategory::Placeholder);
    }

    for p in stub {
        assert_eq!(p.category, PatternCategory::Stub);
    }
}

#[test]
fn category_filter_keeps_order_and_count() {
    let config = Config::default();
    let hedging = config.patterns_for_category(&PatternCategory::Hedging);
    let texts: Vec<&str> = hedging.iter().map(|p| p.regex.as_str()).collect();
    assert_eq!(texts, vec!["(?i)hopefully", "(?i)should work", "(?i)this is a simple"]);
    assert!(config.patterns_for_category(&PatternCategory::NamingConvention).is_empty());
}

#[test]
fn the_main_items_are_at_the_root() {
    let scanner = antislop::Scanner::new(antislop::Config::default().patterns).unwrap();
    let result: antislop::FileScanResult = scanner.scan_file("a.py", "# TODO: x");
    let summary = antislop::ScanSummary::new(&[result]);
    assert_eq!(summary.total_score, 5);
    assert_eq!(antislop::Severity::Low.score(), 1);
    assert_eq!(antislop::Reporter::new(antislop::Format::Json).format(), antislop::Format::Json);
}
