use antislop::config::{PatternCategory, Severity};
use antislop::detector::{CategoryCounts, Finding, ScanSummary, SeverityCounts};
use antislop::report::{
    category_color, report_human, report_json, report_sarif, sarif_level, severity_color,
    verdict, Format, Report, Reporter, SarifLevel,
};

fn make_finding(
    file: &str,
    line: usize,
    column: usize,
    severity: Severity,
    category: PatternCategory,
    message: &str,
    match_text: &str,
) -> Finding {
    Finding {
        file: file.to_string(),
        line,
        column,
        severity,
        category,
        message: message.to_string(),
        match_text: match_text.to_string(),
        pattern_regex: "test".to_string(),
    }
}

fn make_summary(total_score: u32, findings_count: usize) -> ScanSummary {
    let mut by_severity = SeverityCounts::new();
    let mut by_category = CategoryCounts::new();
    by_severity.medium = findings_count;
    by_category.stub = findings_count;
    ScanSummary {
        files_scanned: 1,
        files_with_findings: if findings_count > 0 { 1 } else { 0 },
        total_findings: findings_count,
        total_score,
        by_severity,
        by_category,
    }
}

#[test]
fn test_format_from_json_flag() {
    assert_eq!(Format::from_json_flag(true), Format::Json);
    assert_eq!(Format::from_json_flag(false), Format::Human);
}

#[test]
fn test_reporter_new() {
    let reporter = Reporter::new(Format::Human);
    assert_eq!(reporter.format(), Format::Human);
}

#[test]
fn test_verdict_determination() {
    assert_eq!(make_summary(0, 0).total_score, 0);
    assert_eq!(make_summary(5, 1).total_score, 5);
    assert_eq!(make_summary(15, 3).total_score, 15);
    assert_eq!(make_summary(75, 15).total_score, 75);
    assert_eq!(make_summary(150, 30).total_score, 150);
}

#[test]
fn test_sarif_finding_structure() {
    let finding = make_finding(
        "/path/to/file.py",
        42,
        10,
        Severity::Medium,
        PatternCategory::Placeholder,
        "Test message",
        "TODO",
    );

    assert_eq!(finding.file, "/path/to/file.py");
    assert_eq!(finding.line, 42);
    assert_eq!(finding.column, 10);
    assert_eq!(finding.severity, Severity::Medium);
    assert_eq!(finding.category, PatternCategory::Placeholder);
    assert_eq!(finding.message, "Test message");
    assert_eq!(finding.match_text, "TODO");
}

#[test]
fn test_make_finding() {
    let finding = make_finding(
        "test.py",
        42,
        5,
        Severity::High,
        PatternCategory::Placeholder,
        "Test message",
        "TODO",
    );
    assert_eq!(finding.file, "test.py");
    assert_eq!(finding.line, 42);
    assert_eq!(finding.column, 5);
    assert_eq!(finding.severity, Severity::High);
    assert_eq!(finding.category, PatternCategory::Placeholder);
    assert_eq!(finding.message, "Test message");
    assert_eq!(finding.match_text, "TODO");
}

#[test]
fn verdict_bands() {
    assert_eq!(verdict(0), "✓ Clean code!");
    assert_eq!(verdict(1), "⚠ Minor slop detected");
    assert_eq!(verdict(10), "⚠ Minor slop detected");
    assert_eq!(verdict(11), "⚠⚠ Moderate slop detected");
    assert_eq!(verdict(50), "⚠⚠ Moderate slop detected");
    assert_eq!(verdict(51), "⚠⚠⚠ High slop detected");
    assert_eq!(verdict(100), "⚠⚠⚠ High slop detected");
    assert_eq!(verdict(101), "💀💀💀 CRITICAL SLOP LEVEL");
    assert_eq!(verdict(u32::MAX), "💀💀💀 CRITICAL SLOP LEVEL");
}

#[test]
fn sarif_levels_follow_severity() {
    assert_eq!(sarif_level(&Severity::Critical), SarifLevel::Error);
    assert_eq!(sarif_level(&Severity::High), SarifLevel::Error);
    assert_eq!(sarif_level(&Severity::Medium), SarifLevel::Warning);
    assert_eq!(sarif_level(&Severity::Low), SarifLevel::Note);
}

#[test]
fn format_selection() {
    assert_eq!(Format::select(Some("json"), false), Format::Json);
    assert_eq!(Format::select(Some("sarif"), true), Format::Sarif);
    assert_eq!(Format::select(Some("anything"), true), Format::Human);
    assert_eq!(Format::select(None, true), Format::Json);
    assert_eq!(Format::select(None, false), Format::Human);
}

#[test]
fn colours_of_severities_and_categories() {
    assert_eq!(severity_color(&Severity::Low), "\x1b[2m");
    assert_eq!(severity_color(&Severity::Medium), "\x1b[33m");
    assert_eq!(severity_color(&Severity::High), "\x1b[31;1m");
    assert_eq!(severity_color(&Severity::Critical), "\x1b[91;4;1m");
    assert_eq!(category_color(&PatternCategory::Placeholder), "\x1b[96m");
    assert_eq!(category_color(&PatternCategory::Deferral), "\x1b[95m");
    assert_eq!(category_color(&PatternCategory::Hedging), "\x1b[93m");
    assert_eq!(category_color(&PatternCategory::Stub), "\x1b[91m");
    assert_eq!(category_color(&PatternCategory::NamingConvention), "\x1b[38;5;214m");
}

#[test]
fn test_reporter_report_json() {
    let reporter = Reporter::new(Format::Json);
    let results = vec![make_finding(
        "test.py",
        10,
        1,
        Severity::Medium,
        PatternCategory::Stub,
        "Test message",
        "TODO",
    )];
    let summary = make_summary(5, 1);

    let _ = reporter.report(results, summary);
}

#[test]
fn test_reporter_report_json_empty() {
    let reporter = Reporter::new(Format::Json);
    let results = vec![];
    let summary = make_summary(0, 0);

    let _ = reporter.report(results, summary);
}

#[test]
fn test_reporter_report_human_empty() {
    let reporter = Reporter::new(Format::Human);
    let results = vec![];
    let summary = make_summary(0, 0);

    let _ = reporter.report(results, summary);
}

#[test]
fn test_reporter_report_human_with_findings() {
    let reporter = Reporter::new(Format::Human);
    let results = vec![make_finding(
        "test.py",
        10,
        1,
        Severity::Medium,
        PatternCategory::Stub,
        "Test message",
        "TODO",
    )];
    let summary = make_summary(5, 1);

    let _ = reporter.report(results, summary);
}

#[test]
fn test_reporter_report_sarif() {
    let reporter = Reporter::new(Format::Sarif);
    let results = vec![make_finding(
        "test.py",
        10,
        1,
        Severity::Medium,
        PatternCategory::Placeholder,
        "Test message",
        "TODO",
    )];
    let summary = make_summary(5, 1);

    let _ = reporter.report(results, summary);
}

#[test]
fn test_report_sarif_empty() {
    let results = vec![];
    assert!(report_sarif(&results).is_empty());
}

#[test]
fn test_sarif_severity_mapping() {
    let results = vec![
        make_finding("test.rs", 1, 1, Severity::Critical, PatternCategory::Stub, "Critical issue", "TODO"),
        make_finding("test.rs", 2, 1, Severity::High, PatternCategory::Stub, "High issue", "FIXME"),
        make_finding("test.rs", 3, 1, Severity::Medium, PatternCategory::Stub, "Medium issue", "hack"),
        make_finding("test.rs", 4, 1, Severity::Low, PatternCategory::Stub, "Low issue", "xxx"),
    ];
    let records = report_sarif(&results);
    let levels: Vec<SarifLevel> = records.iter().map(|r| r.level).collect();
    assert_eq!(
        levels,
        vec![SarifLevel::Error, SarifLevel::Error, SarifLevel::Warning, SarifLevel::Note]
    );
}

#[test]
fn the_clean_report_is_one_green_line() {
    let text = report_human(&vec![], &make_summary(0, 0));
    assert_eq!(text, "\x1b[32m✓ No AI slop detected! Code is clean.\x1b[39m\n");
}

#[test]
fn the_human_report_shows_findings_then_summary() {
    let results = vec![make_finding(
        "test.py",
        10,
        3,
        Severity::Medium,
        PatternCategory::Stub,
        "Test message",
        "TODO",
    )];
    let text = match Reporter::new(Format::Human).report(results, make_summary(5, 1)).unwrap() {
        Report::Human(text) => text,
        other => panic!("unexpected {:?}", other),
    };
    let expected = [
        "\x1b[1m\x1b[36mtest.py\x1b[39m\x1b[0m \x1b[2m10\x1b[0m:\x1b[2m3\x1b[0m:\x1b[0m ",
        "\x1b[33mMEDIUM\x1b[0m \x1b[91m[stub]\x1b[0m\n",
        "  \x1b[2m│\x1b[0m \x1b[2mTest message\x1b[0m\n",
        "  \x1b[2m│\x1b[0m\n",
        "  \x1b[34m→\x1b[39m \x1b[33mTODO\x1b[39m\n",
        "\n",
        "\x1b[2m────────────────────────────────────────────────────────────\x1b[0m\n",
        "\x1b[36m📁\x1b[39m 1 scanned, 1 with findings\n",
        "\x1b[33m⚠\x1b[39m 1 total findings\n",
        "\x1b[31m💀\x1b[39m \x1b[1m5\x1b[0m sloppy score\n",
        "\n",
        "  By severity: \x1b[33m1 MEDIUM \x1b[0m\n",
        "\n",
        "  By category: \x1b[91m1 stub \x1b[0m\n",
        "\n",
        "⚠ Minor slop detected\n",
    ]
    .concat();
    assert_eq!(text, expected);
}

#[test]
fn the_json_report_names_tiers_in_lower_case() {
    let results = vec![make_finding(
        "a.rs",
        7,
        2,
        Severity::Critical,
        PatternCategory::NamingConvention,
        "m",
        "x",
    )];
    let mut summary = make_summary(50, 1);
    summary.by_severity.critical = 2;
    summary.by_category.placeholder = 3;
    let out = report_json(&results, &summary);
    assert_eq!(out.summary.files_scanned, 1);
    assert_eq!(out.summary.files_with_findings, 1);
    assert_eq!(out.summary.total_findings, 1);
    assert_eq!(out.summary.total_score, 50);
    assert_eq!(
        out.summary.by_severity,
        vec![("medium".to_string(), 1), ("critical".to_string(), 2)]
    );
    assert_eq!(
        out.summary.by_category,
        vec![("placeholder".to_string(), 3), ("stub".to_string(), 1)]
    );
    assert_eq!(out.findings.len(), 1);
    let f = &out.findings[0];
    assert_eq!(f.file, "a.rs");
    assert_eq!(f.line, 7);
    assert_eq!(f.column, 2);
    assert_eq!(f.severity, "critical");
    assert_eq!(f.category, "namingconvention");
    assert_eq!(f.message, "m");
    assert_eq!(f.match_text, "x");
}

#[test]
fn a_sarif_region_spans_the_matched_bytes() {
    let results = vec![make_finding(
        "a.rs",
        7,
        2,
        Severity::Low,
        PatternCategory::Hedging,
        "m",
        "héllo",
    )];
    let records = report_sarif(&results);
    assert_eq!(records.len(), 1);
    let r = &records[0];
    assert_eq!(r.rule_id, "hedging");
    assert_eq!(r.uri, "a.rs");
    assert_eq!(r.start_line, 7);
    assert_eq!(r.start_column, 2);
    assert_eq!(r.end_line, 7);
    assert_eq!(r.end_column, 8);
    assert_eq!(r.level, SarifLevel::Note);
    assert_eq!(r.message, "m");
}
