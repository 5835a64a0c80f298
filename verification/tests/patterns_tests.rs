use antislop::config::{Pattern, PatternCategory, RegexPattern, Severity};
use antislop::detector::PatternRegistry;
use antislop::Error;

fn rule(regex: &str, severity: Severity, message: &str, category: PatternCategory) -> Pattern {
    Pattern {
        regex: RegexPattern::new(regex.to_string()).unwrap().into_string(),
        severity,
        message: message.to_string(),
        category,
        ast_query: None,
        languages: vec![],
    }
}

#[test]
fn test_registry_creation() {
    let patterns = vec![rule("(?i)TODO:", Severity::Medium, "TODO", PatternCategory::Placeholder)];

    let registry = PatternRegistry::new(patterns);
    assert!(registry.is_ok());
    let registry = registry.unwrap();
    assert_eq!(registry.all().len(), 1);
}

#[test]
fn test_invalid_regex() {
    let result = RegexPattern::new("(?i)TODO:(".to_string());
    assert!(result.is_err());
}

#[test]
fn test_by_severity() {
    let patterns = vec![
        rule("(?i)HIGH:", Severity::High, "HIGH", PatternCategory::Stub),
        rule("(?i)MEDIUM:", Severity::Medium, "MEDIUM", PatternCategory::Stub),
        rule("(?i)LOW:", Severity::Low, "LOW", PatternCategory::Stub),
    ];

    let registry = PatternRegistry::new(patterns).unwrap();
    let high_patterns = registry.by_severity(Severity::High);
    assert_eq!(high_patterns.len(), 1);
    assert_eq!(high_patterns[0].pattern.severity, Severity::High);

    let medium_patterns = registry.by_severity(Severity::Medium);
    assert_eq!(medium_patterns.len(), 1);
    assert_eq!(medium_patterns[0].pattern.severity, Severity::Medium);

    let low_patterns = registry.by_severity(Severity::Low);
    assert_eq!(low_patterns.len(), 1);
    assert_eq!(low_patterns[0].pattern.severity, Severity::Low);

    let critical_patterns = registry.by_severity(Severity::Critical);
    assert_eq!(critical_patterns.len(), 0);
}

#[test]
fn registry_keeps_the_order_of_the_rules() {
    let patterns = vec![
        rule("b", Severity::Low, "second letter", PatternCategory::Stub),
        rule("a", Severity::Low, "first letter", PatternCategory::Stub),
        rule("c", Severity::High, "third letter", PatternCategory::Stub),
    ];
    let registry = PatternRegistry::new(patterns).unwrap();
    let texts: Vec<&str> = registry.all().iter().map(|p| p.pattern.regex.as_str()).collect();
    assert_eq!(texts, vec!["b", "a", "c"]);
    assert!(registry.all().iter().all(|p| p.compiled.is_some()));
    let low: Vec<&str> =
        registry.by_severity(Severity::Low).iter().map(|p| p.pattern.message.as_str()).collect();
    assert_eq!(low, vec!["second letter", "first letter"]);
}

#[test]
fn one_bad_regex_makes_no_registry() {
    let patterns = vec![
        Pattern::new("fine".to_string(), Severity::Low, "ok".to_string(), PatternCategory::Stub),
        Pattern::new("(broken".to_string(), Severity::Low, "bad".to_string(), PatternCategory::Stub),
        Pattern::new("[worse".to_string(), Severity::Low, "bad".to_string(), PatternCategory::Stub),
    ];
    match PatternRegistry::new(patterns) {
        Err(Error::Regex(text, words)) => {
            assert_eq!(text, "(broken");
            assert!(!words.is_empty());
        }
        Err(other) => panic!("expected a regex error, got {:?}", other),
        Ok(_) => panic!("a registry was made of a rule that does not compile"),
    }
}

#[test]
fn regex_error_message_names_the_pattern() {
    let err = RegexPattern::new("(".to_string()).unwrap_err();
    let text = err.message();
    assert!(text.starts_with("Invalid regex '(': "));
    assert!(text.len() > "Invalid regex '(': ".len());
}

#[test]
fn regex_pattern_keeps_its_text() {
    let p = RegexPattern::new("a+b".to_string()).unwrap();
    assert_eq!(p.as_str(), "a+b");
    assert_eq!(p.into_string(), "a+b");
}

#[test]
fn the_registry_parts_comment_rules_from_structural_rules() {
    let mut structural = Pattern::new(
        "todo!".to_string(),
        Severity::Critical,
        "stub".to_string(),
        PatternCategory::Stub,
    );
    structural.ast_query = Some("(macro_invocation) @m".to_string());
    structural.languages = vec!["Rust".to_string()];
    let patterns = vec![
        rule("a", Severity::Low, "first", PatternCategory::Stub),
        structural,
        rule("b", Severity::Low, "second", PatternCategory::Stub),
    ];
    let registry = PatternRegistry::new(patterns).unwrap();
    let comment: Vec<&str> =
        registry.comment_rules().iter().map(|p| p.pattern.message.as_str()).collect();
    let tree: Vec<&str> =
        registry.structural_rules().iter().map(|p| p.pattern.message.as_str()).collect();
    assert_eq!(comment, vec!["first", "second"]);
    assert_eq!(tree, vec!["stub"]);
}
