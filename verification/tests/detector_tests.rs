use antislop::config::{Pattern, PatternCategory, Severity};
use antislop::detector::{Language, Scanner};

fn rule(regex: &str, severity: Severity, message: &str, category: PatternCategory) -> Pattern {
    Pattern {
        regex: regex.to_string(),
        severity,
        message: message.to_string(),
        category,
        ast_query: None,
        languages: vec![],
    }
}

fn test_patterns() -> Vec<Pattern> {
    vec![
        rule("(?i)TODO:", Severity::Medium, "Placeholder comment found", PatternCategory::Placeholder),
        rule("(?i)for now", Severity::Low, "Deferral phrase detected", PatternCategory::Deferral),
    ]
}

fn older_patterns() -> Vec<Pattern> {
    vec![
        rule("TODO:", Severity::Medium, "Placeholder comment found", PatternCategory::Placeholder),
        rule("for now", Severity::Low, "Deferral phrase detected", PatternCategory::Deferral),
        rule("hopefully", Severity::Low, "Hedging language detected", PatternCategory::Hedging),
    ]
}

#[test]
fn mod_test_scan_file_findings() {
    let scanner = Scanner::new(test_patterns()).unwrap();
    let code = r#"
# TODO: implement this later
# This is fine
# for now we'll do it this way
"#;
    let result = scanner.scan_file("test.py", code);
    assert_eq!(result.findings.len(), 2);
    assert_eq!(result.findings[0].category, PatternCategory::Placeholder);
    assert_eq!(result.findings[1].category, PatternCategory::Deferral);
}

#[test]
fn mod_test_score_calculation() {
    let scanner = Scanner::new(test_patterns()).unwrap();
    let code = "# TODO: fix this # for now we do this";
    let result = scanner.scan_file("test.py", code);
    assert_eq!(result.score, 6);
}

#[test]
fn test_language_detection() {
    assert_eq!(Language::from_path("test.py"), Language::Python);
    assert_eq!(Language::from_path("test.rs"), Language::Rust);
    assert_eq!(Language::from_path("test.js"), Language::JavaScript);
    assert_eq!(Language::from_path("test.tsx"), Language::Tsx);
    assert_eq!(Language::from_path("test.xyz"), Language::Unknown);
}

#[test]
fn detect_test_scan_file_findings() {
    let scanner = Scanner::new(older_patterns()).unwrap();
    let code = r#"
// TODO: implement this later
// This is fine
// for now we'll do it this way
"#;
    let result = scanner.scan_file("test.rs", code);
    assert_eq!(result.findings.len(), 2);
    assert_eq!(result.findings[0].category, PatternCategory::Placeholder);
    assert_eq!(result.findings[1].category, PatternCategory::Deferral);
}

#[test]
fn detect_test_score_calculation() {
    let scanner = Scanner::new(older_patterns()).unwrap();
    let code = "// TODO: fix this // hopefully it works";
    let result = scanner.scan_file("test.rs", code);
    assert_eq!(result.score, 6);
}

#[test]
fn every_extension_of_the_table_is_classified() {
    let table = [
        ("py", Language::Python),
        ("js", Language::JavaScript),
        ("mjs", Language::JavaScript),
        ("cjs", Language::JavaScript),
        ("ts", Language::TypeScript),
        ("jsx", Language::Jsx),
        ("tsx", Language::Tsx),
        ("rs", Language::Rust),
        ("go", Language::Go),
        ("java", Language::Java),
        ("kt", Language::Kotlin),
        ("kts", Language::Kotlin),
        ("c", Language::CCpp),
        ("cpp", Language::CCpp),
        ("cc", Language::CCpp),
        ("cxx", Language::CCpp),
        ("h", Language::CCpp),
        ("hpp", Language::CCpp),
        ("cs", Language::CSharp),
        ("rb", Language::Ruby),
        ("php", Language::Php),
        ("swift", Language::Swift),
        ("sh", Language::Shell),
        ("bash", Language::Shell),
        ("zsh", Language::Shell),
        ("fish", Language::Shell),
    ];
    for (ext, lang) in table {
        assert_eq!(Language::from_path(&format!("dir/file.{}", ext)), lang);
    }
}

#[test]
fn classification_lowers_the_extension_and_reads_the_last_component() {
    assert_eq!(Language::from_path("Main.PY"), Language::Python);
    assert_eq!(Language::from_path("a.rs/b"), Language::Unknown);
    assert_eq!(Language::from_path("a.b/c.go"), Language::Go);
    assert_eq!(Language::from_path(".py"), Language::Unknown);
    assert_eq!(Language::from_path("noext"), Language::Unknown);
    assert_eq!(Language::from_path(""), Language::Unknown);
    assert_eq!(Language::from_path("archive.tar.rb"), Language::Ruby);
    assert_eq!(Language::from_path("trailing."), Language::Unknown);
}

#[test]
fn grammars_are_at_hand_for_six_languages() {
    let with = [
        Language::Python,
        Language::JavaScript,
        Language::Jsx,
        Language::TypeScript,
        Language::Tsx,
        Language::Rust,
    ];
    for lang in with {
        assert!(lang.has_tree_sitter());
    }
    let without = [
        Language::Go,
        Language::Java,
        Language::Kotlin,
        Language::CCpp,
        Language::CSharp,
        Language::Ruby,
        Language::Php,
        Language::Swift,
        Language::Shell,
        Language::Unknown,
    ];
    for lang in without {
        assert!(!lang.has_tree_sitter());
    }
    assert_eq!(Language::Jsx.language_name(), "JavaScript");
    assert_eq!(Language::Tsx.language_name(), "TypeScript");
    assert_eq!(Language::Python.language_name(), "Python");
    assert_eq!(Language::Rust.language_name(), "Rust");
    assert_eq!(Language::Go.language_name(), "Unknown");
}
