use antislop::config::{
    default_extensions, default_max_file_size, default_patterns, Config, PatternCategory, Severity,
};
use antislop::Error;

#[test]
fn test_default_config_loads() {
    let config = Config::default();
    assert!(!config.patterns.is_empty());
    assert!(config.patterns.iter().any(|p| p.category == PatternCategory::Placeholder));
    assert!(config.patterns.iter().any(|p| p.category == PatternCategory::Deferral));
    assert!(config.patterns.iter().any(|p| p.category == PatternCategory::Hedging));
}

#[test]
fn test_severity_scores() {
    assert_eq!(Severity::Low.score(), 1);
    assert_eq!(Severity::Medium.score(), 5);
    assert_eq!(Severity::High.score(), 15);
    assert_eq!(Severity::Critical.score(), 50);
}

#[test]
fn test_validate_patterns() {
    let config = Config::default();
    assert!(config.validate_patterns().is_ok());
}

#[test]
fn severity_names_are_upper_case() {
    assert_eq!(Severity::Low.as_str(), "LOW");
    assert_eq!(Severity::Medium.as_str(), "MEDIUM");
    assert_eq!(Severity::High.as_str(), "HIGH");
    assert_eq!(Severity::Critical.as_str(), "CRITICAL");
}

#[test]
fn category_labels_are_lower_case() {
    assert_eq!(PatternCategory::Placeholder.label(), "placeholder");
    assert_eq!(PatternCategory::Deferral.label(), "deferral");
    assert_eq!(PatternCategory::Hedging.label(), "hedging");
    assert_eq!(PatternCategory::Stub.label(), "stub");
    assert_eq!(PatternCategory::NamingConvention.label(), "namingconvention");
}

#[test]
fn defaults_of_the_enums() {
    assert_eq!(Severity::default(), Severity::Medium);
    assert_eq!(PatternCategory::default(), PatternCategory::Placeholder);
}

#[test]
fn validate_patterns_names_the_first_bad_regex() {
    let mut config = Config::default();
    config.patterns[1].regex = "(unclosed".to_string();
    config.patterns[3].regex = "[also bad".to_string();
    match config.validate_patterns() {
        Err(Error::Regex(text, words)) => {
            assert_eq!(text, "(unclosed");
            assert!(!words.is_empty());
        }
        other => panic!("expected a regex error, got {:?}", other),
    }
}

#[test]
fn every_error_says_what_it_is() {
    assert_eq!(Error::Config("bad".to_string()).message(), "Config error: bad");
    assert_eq!(
        Error::ConfigInvalid("bad".to_string()).message(),
        "Invalid configuration: bad"
    );
    assert_eq!(
        Error::Regex("(".to_string(), "unclosed".to_string()).message(),
        "Invalid regex '(': unclosed"
    );
    assert_eq!(Error::Parse("bad".to_string()).message(), "Parse error: bad");
    assert_eq!(antislop::config_files(), vec!["antislop.toml", ".antislop.toml", ".antislop"]);
}

#[test]
fn the_built_in_rules_are_thirteen_and_more() {
    let rules = default_patterns();
    assert_eq!(rules.len(), 14);
    assert_eq!(rules[0].regex, "(?i)TODO:");
    assert_eq!(rules[0].severity, Severity::Medium);
    assert_eq!(rules[3].regex, "(?i)\\bXXX\\b");
    assert_eq!(rules[3].severity, Severity::High);
    assert_eq!(rules[12].ast_query.as_deref(), Some("(macro_invocation) @stub"));
    assert_eq!(rules[12].languages, vec!["Rust".to_string()]);
    assert_eq!(rules[13].regex, "NotImplementedError");
    assert_eq!(rules[13].severity, Severity::Critical);
    assert!(rules.iter().any(|p| p.category == PatternCategory::Stub));
    assert_eq!(default_extensions().len(), 18);
    assert_eq!(default_extensions()[0], ".rs");
    assert_eq!(default_max_file_size(), 1024);
    let config = Config::default();
    assert!(config.exclude.is_empty());
    assert!(config.exclude_patterns.is_empty());
}
