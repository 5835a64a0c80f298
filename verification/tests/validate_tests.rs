use antislop::config::{Pattern, PatternCategory, RegexPattern, Severity};
use antislop::profile::validate::{
    is_valid_language, validate_ast_query, validate_mece_compliance, validate_metadata,
    validate_patterns, validate_profile,
};
use antislop::profile::{Profile, ProfileMetadata};
use antislop::Error;

fn test_profile() -> Profile {
    Profile {
        metadata: ProfileMetadata {
            name: "test".to_string(),
            version: "1.0.0".to_string(),
            ..Default::default()
        },
        patterns: vec![Pattern {
            regex: RegexPattern::new("(?i)TODO:".to_string()).unwrap().into_string(),
            severity: Severity::Medium,
            message: "TODO comment".to_string(),
            category: PatternCategory::Placeholder,
            ast_query: None,
            languages: vec![],
        }],
    }
}

fn fault(r: Result<(), Error>) -> String {
    match r {
        Err(Error::ConfigInvalid(text)) => text,
        other => panic!("expected an invalid configuration, got {:?}", other),
    }
}

#[test]
fn test_validate_metadata_valid() {
    let profile = test_profile();
    assert!(validate_metadata(&profile).is_ok());
}

#[test]
fn test_validate_metadata_empty_name() {
    let mut profile = test_profile();
    profile.metadata.name = String::new();
    assert!(validate_metadata(&profile).is_err());
}

#[test]
fn test_validate_patterns_duplicate_regex() {
    let mut profile = test_profile();
    profile.patterns.push(profile.patterns[0].clone());
    assert!(validate_patterns(&profile).is_err());
}

#[test]
fn test_validate_ast_query_valid() {
    assert!(validate_ast_query("(function_declaration) @func").is_ok());
    assert!(validate_ast_query("(call_expression function: (identifier) @func)").is_ok());
}

#[test]
fn test_validate_ast_query_no_capture() {
    assert!(validate_ast_query("(function_declaration)").is_err());
}

#[test]
fn test_validate_ast_query_unbalanced() {
    assert!(validate_ast_query("(function_declaration @func").is_err());
    assert!(validate_ast_query("(function_declaration)) @func").is_err());
}

#[test]
fn test_validate_mece_compliance() {
    let profile = test_profile();
    let report = validate_mece_compliance(&profile).unwrap();
    assert!(report.is_compliant);
}

#[test]
fn test_is_valid_language() {
    assert!(is_valid_language("Python"));
    assert!(is_valid_language("Rust"));
    assert!(is_valid_language("JavaScript"));
    assert!(!is_valid_language("InvalidLanguage"));
}

#[test]
fn every_listed_language_is_valid_and_case_matters() {
    for lang in [
        "Python", "JavaScript", "TypeScript", "Rust", "Go", "Java", "C++", "C#", "Ruby",
        "Haskell", "Lua", "Scala",
    ] {
        assert!(is_valid_language(lang), "{}", lang);
    }
    assert!(!is_valid_language("python"));
    assert!(!is_valid_language(""));
}

#[test]
fn metadata_faults_in_order() {
    let mut p = test_profile();
    p.metadata.name = String::new();
    p.metadata.version = "not a version".to_string();
    assert_eq!(fault(validate_metadata(&p)), "Profile metadata.name is required");
    p.metadata.name = "n".to_string();
    assert_eq!(fault(validate_metadata(&p)), "Invalid semantic version: not a version");
    p.metadata.version = String::new();
    p.metadata.requires_version = Some("1.0".to_string());
    assert_eq!(fault(validate_metadata(&p)), "Invalid requires_version format: 1.0");
    p.metadata.requires_version = Some("1.0.0-rc.1+build".to_string());
    assert!(validate_metadata(&p).is_ok());
    p.metadata.version = "1.0.01".to_string();
    assert_eq!(fault(validate_metadata(&p)), "Invalid semantic version: 1.0.01");
}

#[test]
fn pattern_faults_name_the_index() {
    let mut p = test_profile();
    for _ in 0..11 {
        let mut next = p.patterns[0].clone();
        next.regex = format!("r{}", p.patterns.len());
        p.patterns.push(next);
    }
    p.patterns[11].regex = "r3".to_string();
    assert_eq!(
        fault(validate_patterns(&p)),
        "Duplicate pattern at index 11: regex 'r3' is already used"
    );
    p.patterns[11].regex = "fresh".to_string();
    p.patterns[10].message = String::new();
    assert_eq!(fault(validate_patterns(&p)), "Pattern at index 10 has empty message");
    p.patterns[10].message = "m".to_string();
    p.patterns[0].ast_query = Some("(x) @y".to_string());
    assert_eq!(
        fault(validate_profile(&p)),
        "Pattern at index 0 has ast_query but no languages specified"
    );
    p.patterns[0].languages = vec!["Rust".to_string(), "Cobol".to_string(), "Ada".to_string()];
    assert_eq!(
        fault(validate_profile(&p)),
        "Pattern at index 0 has unknown language 'Cobol'. Valid languages: Python, JavaScript, \
         TypeScript, Rust, Go, Java, C++, C#, Ruby, Haskell, Lua, Scala"
    );
    p.patterns[0].languages = vec!["Rust".to_string()];
    assert!(validate_profile(&p).is_ok());
    p.patterns[0].ast_query = Some("(x".to_string());
    assert_eq!(fault(validate_profile(&p)), "Unbalanced parentheses in AST query");
    p.patterns[0].ast_query = Some("(x)".to_string());
    assert_eq!(
        fault(validate_profile(&p)),
        "AST query must contain at least one capture (@capture)"
    );
}

#[test]
fn metadata_is_checked_before_the_rules() {
    let mut p = test_profile();
    p.metadata.name = String::new();
    p.patterns[0].message = String::new();
    assert_eq!(fault(validate_profile(&p)), "Profile metadata.name is required");
}

#[test]
fn parentheses_inside_strings_do_not_count() {
    assert!(validate_ast_query("((a) @x (#eq? @x \"(\"))").is_ok());
    assert!(validate_ast_query("((a) @x (#eq? @x \"\\\"(\"))").is_ok());
    assert!(validate_ast_query("(@x \"\\\")").is_err());
    assert!(validate_ast_query("(@x \"\")").is_ok());
    assert!(validate_ast_query(") @x (").is_err());
    assert!(validate_ast_query("@").is_ok());
    assert!(validate_ast_query("").is_err());
}

#[test]
fn overlaps_with_linters_warn_and_style_rules_violate() {
    let mut p = test_profile();
    p.patterns[0].regex = "\\.unwrap\\(\\)".to_string();
    p.patterns[0].message = "Unwrap".to_string();
    let mut style = p.patterns[0].clone();
    style.regex = "\\t".to_string();
    style.message = "Bad INDENTation".to_string();
    p.patterns.push(style);
    let report = validate_mece_compliance(&p).unwrap();
    assert_eq!(
        report.warnings,
        vec![
            "Pattern 'Unwrap' may overlap with clippy (consider if this is truly AI-specific)"
                .to_string(),
            "Pattern 'Bad INDENTation' may overlap with formatter (consider if this is truly \
             AI-specific)"
                .to_string(),
        ]
    );
    assert_eq!(
        report.violations,
        vec!["Pattern 'Bad INDENTation' appears to be a style check (should be handled by \
              formatters, not antislop)"
            .to_string()]
    );
    assert!(!report.is_compliant);
}
