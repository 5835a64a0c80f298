use antislop::config::{Pattern, PatternCategory, Severity};
use antislop::detector::{
    CategoryCounts, FileScanResult, Finding, ScanSummary, Scanner, SeverityCounts,
};
use antislop::diagnostics::{diagnostic, diagnostics, DiagnosticSeverity};
use antislop::run::{exit_code, sort_findings, summary_with_filenames};

fn finding(file: &str, severity: Severity, category: PatternCategory) -> Finding {
    Finding {
        file: file.to_string(),
        line: 1,
        column: 1,
        severity,
        category,
        message: "m".to_string(),
        match_text: "x".to_string(),
        pattern_regex: "r".to_string(),
    }
}

fn result(path: &str, findings: Vec<Finding>) -> FileScanResult {
    let score = findings.iter().map(|f| f.severity.score()).sum();
    FileScanResult { path: path.to_string(), findings, score }
}

#[test]
fn summary_counts_files_findings_and_scores() {
    let results = vec![
        result(
            "a.py",
            vec![
                finding("a.py", Severity::Medium, PatternCategory::Placeholder),
                finding("a.py", Severity::Critical, PatternCategory::Stub),
            ],
        ),
        result("b.py", vec![]),
        result("c.py", vec![finding("c.py", Severity::Medium, PatternCategory::Hedging)]),
    ];
    let summary = ScanSummary::new(&results);
    assert_eq!(summary.files_scanned, 3);
    assert_eq!(summary.files_with_findings, 2);
    assert_eq!(summary.total_findings, 3);
    assert_eq!(summary.total_score, 60);
    assert_eq!(
        summary.by_severity,
        SeverityCounts { low: 0, medium: 2, high: 0, critical: 1 }
    );
    assert_eq!(
        summary.by_category,
        CategoryCounts { placeholder: 1, deferral: 0, hedging: 1, stub: 1, naming_convention: 0 }
    );
    assert_eq!(summary.by_severity.get(&Severity::Medium), Some(2));
    assert_eq!(summary.by_severity.get(&Severity::Low), None);
    assert_eq!(summary.by_category.get(&PatternCategory::Stub), Some(1));
    assert_eq!(summary.by_category.get(&PatternCategory::Deferral), None);
    assert!(!summary.by_severity.is_empty());
    assert!(!summary.by_category.is_empty());
}

#[test]
fn summary_of_nothing_is_all_zero() {
    let summary = ScanSummary::new(&[]);
    assert_eq!(summary.files_scanned, 0);
    assert_eq!(summary.files_with_findings, 0);
    assert_eq!(summary.total_findings, 0);
    assert_eq!(summary.total_score, 0);
    assert!(summary.by_severity.is_empty());
    assert!(summary.by_category.is_empty());
}

#[test]
fn the_total_score_sums_the_scores_as_given_and_stops_at_the_largest() {
    let mut a = result("a", vec![finding("a", Severity::Low, PatternCategory::Stub)]);
    a.score = u32::MAX - 1;
    let b = result("b", vec![finding("b", Severity::Medium, PatternCategory::Stub)]);
    let summary = ScanSummary::new(&[a, b]);
    assert_eq!(summary.total_score, u32::MAX);
    assert_eq!(summary.total_findings, 2);
}

#[test]
fn counts_stop_at_the_largest_value() {
    let mut counts = SeverityCounts::new();
    counts.high = usize::MAX;
    counts.add(Severity::High);
    counts.add(Severity::Low);
    assert_eq!(counts.high, usize::MAX);
    assert_eq!(counts.low, 1);
    let mut by_category = CategoryCounts::new();
    by_category.add(PatternCategory::NamingConvention);
    by_category.add(PatternCategory::NamingConvention);
    assert_eq!(by_category.naming_convention, 2);
    assert_eq!(by_category.get(&PatternCategory::NamingConvention), Some(2));
}

#[test]
fn filename_findings_are_counted_into_the_summary() {
    let results = vec![
        result("a.py", vec![finding("a.py", Severity::Medium, PatternCategory::Placeholder)]),
        result("b.py", vec![]),
    ];
    let summary = ScanSummary::new(&results);
    let extra = vec![
        finding("b.py", Severity::High, PatternCategory::NamingConvention),
        finding("a.py", Severity::Medium, PatternCategory::NamingConvention),
        finding("b.py", Severity::High, PatternCategory::NamingConvention),
        finding("z.py", Severity::Low, PatternCategory::NamingConvention),
    ];
    let with = summary_with_filenames(&summary, &results, &extra);
    assert_eq!(with.files_scanned, 2);
    assert_eq!(with.files_with_findings, 3);
    assert_eq!(with.total_findings, 5);
    assert_eq!(with.total_score, 5 + 15 + 5 + 15 + 1);
    assert_eq!(with.by_severity, SeverityCounts { low: 1, medium: 2, high: 2, critical: 0 });
    assert_eq!(
        with.by_category,
        CategoryCounts { placeholder: 1, deferral: 0, hedging: 0, stub: 0, naming_convention: 4 }
    );
    let same = summary_with_filenames(&summary, &results, &vec![]);
    assert_eq!(same, summary);
}

#[test]
fn a_run_fails_on_any_score_or_error() {
    assert_eq!(exit_code(0, false), 0);
    assert_eq!(exit_code(1, false), 1);
    assert_eq!(exit_code(0, true), 1);
    assert_eq!(exit_code(u32::MAX, true), 1);
}

#[test]
fn diagnostics_count_from_zero() {
    let mut f = finding("a.py", Severity::Critical, PatternCategory::Deferral);
    f.line = 3;
    f.column = 5;
    f.match_text = "héllo".to_string();
    f.message = "msg".to_string();
    let d = diagnostic(&f);
    assert_eq!(d.line, 2);
    assert_eq!(d.start_character, 4);
    assert_eq!(d.end_character, 9);
    assert_eq!(d.severity, DiagnosticSeverity::Error);
    assert_eq!(d.code, "deferral");
    assert_eq!(d.source, "antislop");
    assert_eq!(d.message, "msg");
    f.line = 0;
    f.column = 0;
    f.severity = Severity::Low;
    let d = diagnostic(&f);
    assert_eq!(d.line, 0);
    assert_eq!(d.start_character, 0);
    assert_eq!(d.severity, DiagnosticSeverity::Information);
    f.severity = Severity::Medium;
    assert_eq!(diagnostic(&f).severity, DiagnosticSeverity::Warning);
    f.severity = Severity::High;
    assert_eq!(diagnostic(&f).severity, DiagnosticSeverity::Error);
    assert_eq!(diagnostics(&vec![f.clone(), f]).len(), 2);
}

fn rule(regex: &str, severity: Severity, category: PatternCategory) -> Pattern {
    Pattern::new(regex.to_string(), severity, format!("found {}", regex), category)
}

#[test]
fn a_finding_carries_the_match_and_its_position() {
    let scanner = Scanner::new(vec![rule("(?i)todo:", Severity::Medium, PatternCategory::Placeholder)])
        .unwrap();
    let result = scanner.scan_file("notes.txt", "x = 1\n  y = 2 # see ToDo: later\n");
    assert_eq!(result.path, "notes.txt");
    assert_eq!(result.findings.len(), 1);
    let f = &result.findings[0];
    assert_eq!(f.file, "notes.txt");
    assert_eq!(f.line, 2);
    assert_eq!(f.column, 13);
    assert_eq!(f.severity, Severity::Medium);
    assert_eq!(f.category, PatternCategory::Placeholder);
    assert_eq!(f.message, "found (?i)todo:");
    assert_eq!(f.match_text, "ToDo:");
    assert_eq!(f.pattern_regex, "(?i)todo:");
    assert_eq!(result.score, 5);
}

#[test]
fn findings_come_comment_by_comment_then_rule_by_rule() {
    let scanner = Scanner::new(vec![
        rule("b", Severity::Low, PatternCategory::Stub),
        rule("a", Severity::High, PatternCategory::Stub),
    ])
    .unwrap();
    let result = scanner.scan_file("f.txt", "# a b\n# b\n# a\n");
    let seen: Vec<(usize, &str)> =
        result.findings.iter().map(|f| (f.line, f.pattern_regex.as_str())).collect();
    assert_eq!(seen, vec![(1, "b"), (1, "a"), (2, "b"), (3, "a")]);
    assert_eq!(result.score, 1 + 15 + 1 + 15);
}

fn at(file: &str, line: usize, message: &str) -> Finding {
    let mut f = finding(file, Severity::Low, PatternCategory::Stub);
    f.line = line;
    f.message = message.to_string();
    f
}

#[test]
fn findings_are_sorted_by_file_then_line_and_ties_keep_their_order() {
    let findings = vec![
        at("b.rs", 3, "1"),
        at("a.rs", 9, "2"),
        at("b.rs", 1, "3"),
        at("a.rs", 9, "4"),
        at("a", 100, "5"),
        at("a.rs", 2, "6"),
        at("é.rs", 1, "7"),
        at("b.rs", 3, "8"),
        at("", 5, "9"),
        at("a.rs", 9, "10"),
        at("B.rs", 1, "11"),
        at("a.rs\u{0}", 1, "12"),
    ];
    let mut expected: Vec<(String, usize, String)> =
        findings.iter().map(|f| (f.file.clone(), f.line, f.message.clone())).collect();
    expected.sort_by_key(|f| (f.0.clone(), f.1));
    let sorted: Vec<(String, usize, String)> = sort_findings(findings)
        .into_iter()
        .map(|f| (f.file, f.line, f.message))
        .collect();
    assert_eq!(sorted, expected);
    let order: Vec<&str> = sorted.iter().map(|f| f.2.as_str()).collect();
    assert_eq!(order, vec!["9", "11", "5", "6", "2", "4", "10", "12", "3", "1", "8", "7"]);
    assert!(sort_findings(vec![]).is_empty());
}
