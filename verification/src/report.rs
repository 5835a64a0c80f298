//! Reporting: what a report says, before it is printed.
//!
//! A report is made here as a value: the text of the human-readable report,
//! or the records of the JSON and of the SARIF report.  Printing them, and
//! writing the records in their file format, is the caller's work.

use vstd::prelude::*;
use owo_colors::OwoColorize;
use crate::config::{PatternCategory, Severity};
use crate::detector::{CategoryCounts, Finding, FindingSpec, ScanSummary, SeverityCounts};
use crate::text::{decimal, decimal_of, repeat, repeated, str_eq};
use crate::Error;

verus! {

/// Output format.
#[derive(Debug, Clone, Copy, PartialEq, Eq, Structural)]
pub enum Format {
    /// Human-readable colored terminal output.
    Human,
    /// Machine-readable JSON output.
    Json,
    /// SARIF XML/JSON output for integrations.
    Sarif,
}

impl Format {
    /// The format that a format name and the JSON flag select: a name
    /// decides where one is given, and any name but `json` and `sarif` means
    /// the human-readable format.
    pub open spec fn selected(name: Option<Seq<char>>, json: bool) -> Format {
        match name {
            Some(n) => if n == "json"@ {
                Format::Json
            } else if n == "sarif"@ {
                Format::Sarif
            } else {
                Format::Human
            },
            None => if json {
                Format::Json
            } else {
                Format::Human
            },
        }
    }

    /// Create format from JSON flag.
    pub fn from_json_flag(json: bool) -> (f: Self)
        ensures
            f == Format::selected(None, json),
    {
        if json {
            Format::Json
        } else {
            Format::Human
        }
    }

    /// The format that the command line selects.
    pub fn select(name: Option<&str>, json: bool) -> (f: Self)
        ensures
            f == Format::selected(name.deep_view(), json),
    {
        match name {
            Some(n) => {
                if str_eq(n, "json") {
                    Format::Json
                } else if str_eq(n, "sarif") {
                    Format::Sarif
                } else {
                    Format::Human
                }
            },
            None => Format::from_json_flag(json),
        }
    }
}

/// The level of a result in a SARIF log.
#[derive(Debug, Clone, Copy, PartialEq, Eq, Structural)]
pub enum SarifLevel {
    Error,
    Warning,
    Note,
}

/// The SARIF level that stands for a severity.
pub open spec fn level_of(severity: Severity) -> SarifLevel {
    match severity {
        Severity::Critical | Severity::High => SarifLevel::Error,
        Severity::Medium => SarifLevel::Warning,
        Severity::Low => SarifLevel::Note,
    }
}

/// The SARIF level that stands for a severity.
pub fn sarif_level(severity: &Severity) -> (level: SarifLevel)
    ensures
        level == level_of(*severity),
{
    match severity {
        Severity::Critical | Severity::High => SarifLevel::Error,
        Severity::Medium => SarifLevel::Warning,
        Severity::Low => SarifLevel::Note,
    }
}

/// The verdict on a total score.
pub open spec fn verdict_of(total_score: u32) -> Seq<char> {
    if total_score == 0 {
        "✓ Clean code!"@
    } else if total_score <= 10 {
        "⚠ Minor slop detected"@
    } else if total_score <= 50 {
        "⚠⚠ Moderate slop detected"@
    } else if total_score <= 100 {
        "⚠⚠⚠ High slop detected"@
    } else {
        "💀💀💀 CRITICAL SLOP LEVEL"@
    }
}

/// The verdict on a total score: clean at 0, minor up to 10, moderate up to
/// 50, high up to 100, critical beyond.
pub fn verdict(total_score: u32) -> (text: &'static str)
    ensures
        text@ == verdict_of(total_score),
{
    if total_score == 0 {
        "✓ Clean code!"
    } else if total_score <= 10 {
        "⚠ Minor slop detected"
    } else if total_score <= 50 {
        "⚠⚠ Moderate slop detected"
    } else if total_score <= 100 {
        "⚠⚠⚠ High slop detected"
    } else {
        "💀💀💀 CRITICAL SLOP LEVEL"
    }
}

/// The terminal escape sequence in which a severity is shown.
pub open spec fn severity_code(severity: Severity) -> Seq<char> {
    match severity {
        Severity::Low => "\x1b[2m"@,
        Severity::Medium => "\x1b[33m"@,
        Severity::High => "\x1b[31;1m"@,
        Severity::Critical => "\x1b[91;4;1m"@,
    }
}

/// The terminal escape sequence in which a severity is shown: dim, yellow,
/// bold red, and bold underlined bright red.
pub fn severity_color(severity: &Severity) -> (code: &'static str)
    ensures
        code@ == severity_code(*severity),
{
    match severity {
        Severity::Low => "\x1b[2m",
        Severity::Medium => "\x1b[33m",
        Severity::High => "\x1b[31;1m",
        Severity::Critical => "\x1b[91;4;1m",
    }
}

/// The terminal escape sequence in which a category is shown.
pub open spec fn category_code(category: PatternCategory) -> Seq<char> {
    match category {
        PatternCategory::Placeholder => "\x1b[96m"@,
        PatternCategory::Deferral => "\x1b[95m"@,
        PatternCategory::Hedging => "\x1b[93m"@,
        PatternCategory::Stub => "\x1b[91m"@,
        PatternCategory::NamingConvention => "\x1b[38;5;214m"@,
    }
}

/// The terminal escape sequence in which a category is shown.
pub fn category_color(category: &PatternCategory) -> (code: &'static str)
    ensures
        code@ == category_code(*category),
{
    match category {
        PatternCategory::Placeholder => "\x1b[96m",
        PatternCategory::Deferral => "\x1b[95m",
        PatternCategory::Hedging => "\x1b[93m",
        PatternCategory::Stub => "\x1b[91m",
        PatternCategory::NamingConvention => "\x1b[38;5;214m",
    }
}

/// A text in green, as `owo_colors` writes it.
pub open spec fn green_of(text: Seq<char>) -> Seq<char> {
    "\x1b[32m"@ + text + "\x1b[39m"@
}

/// A text in cyan, as `owo_colors` writes it.
pub open spec fn cyan_of(text: Seq<char>) -> Seq<char> {
    "\x1b[36m"@ + text + "\x1b[39m"@
}

/// A text in yellow, as `owo_colors` writes it.
pub open spec fn yellow_of(text: Seq<char>) -> Seq<char> {
    "\x1b[33m"@ + text + "\x1b[39m"@
}

/// A text in blue, as `owo_colors` writes it.
pub open spec fn blue_of(text: Seq<char>) -> Seq<char> {
    "\x1b[34m"@ + text + "\x1b[39m"@
}

/// A text in red, as `owo_colors` writes it.
pub open spec fn red_of(text: Seq<char>) -> Seq<char> {
    "\x1b[31m"@ + text + "\x1b[39m"@
}

/// A dimmed text, as `owo_colors` writes it.
pub open spec fn dimmed_of(text: Seq<char>) -> Seq<char> {
    "\x1b[2m"@ + text + "\x1b[0m"@
}

/// A bold text, as `owo_colors` writes it.
pub open spec fn bold_of(text: Seq<char>) -> Seq<char> {
    "\x1b[1m"@ + text + "\x1b[0m"@
}

/// Prints a text through `OwoColorize::green`: the escape sequence for a
/// green foreground, the text, and the sequence for the default foreground.
#[verifier::external_body]
pub(crate) fn green(text: &str) -> (s: String)
    ensures
        s@ == green_of(text@),
{
    text.green().to_string()
}

/// Prints a text through `OwoColorize::cyan`: the escape sequence for a
/// cyan foreground, the text, and the sequence for the default foreground.
#[verifier::external_body]
pub(crate) fn cyan(text: &str) -> (s: String)
    ensures
        s@ == cyan_of(text@),
{
    text.cyan().to_string()
}

/// Prints a text through `OwoColorize::yellow`: the escape sequence for a
/// yellow foreground, the text, and the sequence for the default foreground.
#[verifier::external_body]
pub(crate) fn yellow(text: &str) -> (s: String)
    ensures
        s@ == yellow_of(text@),
{
    text.yellow().to_string()
}

/// Prints a text through `OwoColorize::blue`: the escape sequence for a
/// blue foreground, the text, and the sequence for the default foreground.
#[verifier::external_body]
pub(crate) fn blue(text: &str) -> (s: String)
    ensures
        s@ == blue_of(text@),
{
    text.blue().to_string()
}

/// Prints a text through `OwoColorize::red`: the escape sequence for a red
/// foreground, the text, and the sequence for the default foreground.
#[verifier::external_body]
pub(crate) fn red(text: &str) -> (s: String)
    ensures
        s@ == red_of(text@),
{
    text.red().to_string()
}

/// Prints a text through `OwoColorize::dimmed`: the escape sequence for
/// faint text, the text, and the sequence that resets all attributes.
#[verifier::external_body]
pub(crate) fn dimmed(text: &str) -> (s: String)
    ensures
        s@ == dimmed_of(text@),
{
    text.dimmed().to_string()
}

/// Prints a text through `OwoColorize::bold`: the escape sequence for bold
/// text, the text, and the sequence that resets all attributes.
#[verifier::external_body]
pub(crate) fn bold(text: &str) -> (s: String)
    ensures
        s@ == bold_of(text@),
{
    text.bold().to_string()
}

/// What the human-readable report says of one finding: a header with the
/// file, the position, the severity and the category; the message; and the
/// text that matched.
pub open spec fn finding_text(f: FindingSpec) -> Seq<char> {
    "\x1b[1m"@ + cyan_of(f.file) + "\x1b[0m"@ + " "@ + dimmed_of(decimal_of(f.line)) + ":"@
        + dimmed_of(decimal_of(f.column)) + ":"@ + "\x1b[0m"@ + " "@ + severity_code(f.severity)
        + f.severity.name() + "\x1b[0m"@ + " "@ + category_code(f.category) + "["@
        + f.category.tag() + "]"@ + "\x1b[0m"@ + "\n"@ + "  "@ + dimmed_of("│"@) + " "@
        + dimmed_of(f.message) + "\n"@ + "  "@ + dimmed_of("│"@) + "\n"@ + "  "@ + blue_of("→"@)
        + " "@ + yellow_of(f.match_text) + "\n"@ + "\n"@
}

/// Writes what the human-readable report says of one finding.
pub fn write_finding(out: &mut String, finding: &Finding)
    ensures
        final(out)@ == old(out)@ + finding_text(finding.deep_view()),
{
    let mut text = "\x1b[1m".to_owned();
    text.push_str(cyan(finding.file.as_str()).as_str());
    text.push_str("\x1b[0m");
    text.push_str(" ");
    text.push_str(dimmed(decimal(finding.line).as_str()).as_str());
    text.push_str(":");
    text.push_str(dimmed(decimal(finding.column).as_str()).as_str());
    text.push_str(":");
    text.push_str("\x1b[0m");
    text.push_str(" ");
    text.push_str(severity_color(&finding.severity));
    text.push_str(finding.severity.as_str());
    text.push_str("\x1b[0m");
    text.push_str(" ");
    text.push_str(category_color(&finding.category));
    text.push_str("[");
    text.push_str(finding.category.label());
    text.push_str("]");
    text.push_str("\x1b[0m");
    text.push_str("\n");
    text.push_str("  ");
    text.push_str(dimmed("│").as_str());
    text.push_str(" ");
    text.push_str(dimmed(finding.message.as_str()).as_str());
    text.push_str("\n");
    text.push_str("  ");
    text.push_str(dimmed("│").as_str());
    text.push_str("\n");
    text.push_str("  ");
    text.push_str(blue("→").as_str());
    text.push_str(" ");
    text.push_str(yellow(finding.match_text.as_str()).as_str());
    text.push_str("\n");
    text.push_str("\n");
    out.push_str(text.as_str());
}

/// One entry of a list of counts: the colour, the count and the name.
pub open spec fn count_entry(code: Seq<char>, count: usize, name: Seq<char>) -> Seq<char> {
    if count == 0 {
        Seq::empty()
    } else {
        code + decimal_of(count as nat) + " "@ + name + " \x1b[0m"@
    }
}

/// Writes one entry of a list of counts, unless the count is zero.
fn write_count(out: &mut String, code: &str, count: usize, name: &str)
    ensures
        final(out)@ == old(out)@ + count_entry(code@, count, name@),
{
    if count == 0 {
        assert(out@ + Seq::<char>::empty() =~= out@);
        return ;
    }
    let mut text = code.to_owned();
    text.push_str(decimal(count).as_str());
    text.push_str(" ");
    text.push_str(name);
    text.push_str(" \x1b[0m");
    out.push_str(text.as_str());
}

/// The counts by severity, from the most severe down; nothing where no
/// finding was counted.
pub open spec fn severity_lines(counts: SeverityCounts) -> Seq<char> {
    if counts.low == 0 && counts.medium == 0 && counts.high == 0 && counts.critical == 0 {
        Seq::empty()
    } else {
        "\n"@ + "  By severity: "@ + count_entry(
            severity_code(Severity::Critical),
            counts.critical,
            Severity::Critical.name(),
        ) + count_entry(severity_code(Severity::High), counts.high, Severity::High.name())
            + count_entry(severity_code(Severity::Medium), counts.medium, Severity::Medium.name())
            + count_entry(severity_code(Severity::Low), counts.low, Severity::Low.name()) + "\n"@
    }
}

/// The counts by category; nothing where no finding was counted.
pub open spec fn category_lines(counts: CategoryCounts) -> Seq<char> {
    if counts.placeholder == 0 && counts.deferral == 0 && counts.hedging == 0 && counts.stub == 0
        && counts.naming_convention == 0 {
        Seq::empty()
    } else {
        "\n"@ + "  By category: "@ + count_entry(
            category_code(PatternCategory::Placeholder),
            counts.placeholder,
            PatternCategory::Placeholder.tag(),
        ) + count_entry(
            category_code(PatternCategory::Stub),
            counts.stub,
            PatternCategory::Stub.tag(),
        ) + count_entry(
            category_code(PatternCategory::Deferral),
            counts.deferral,
            PatternCategory::Deferral.tag(),
        ) + count_entry(
            category_code(PatternCategory::Hedging),
            counts.hedging,
            PatternCategory::Hedging.tag(),
        ) + count_entry(
            category_code(PatternCategory::NamingConvention),
            counts.naming_convention,
            PatternCategory::NamingConvention.tag(),
        ) + "\n"@
    }
}

/// What the human-readable report says in summary: the numbers of files and
/// findings, the score, the counts by severity and by category, and the
/// verdict.
pub open spec fn summary_text(summary: ScanSummary) -> Seq<char> {
    dimmed_of(repeated("─"@, 60)) + "\n"@ + cyan_of("📁"@) + " "@ + decimal_of(
        summary.files_scanned as nat,
    ) + " scanned, "@ + decimal_of(summary.files_with_findings as nat) + " with findings"@ + "\n"@
        + yellow_of("⚠"@) + " "@ + decimal_of(summary.total_findings as nat) + " total findings"@
        + "\n"@ + red_of("💀"@) + " "@ + bold_of(decimal_of(summary.total_score as nat))
        + " sloppy score"@ + "\n"@ + severity_lines(summary.by_severity) + category_lines(
        summary.by_category,
    ) + "\n"@ + verdict_of(summary.total_score) + "\n"@
}

/// Writes the counts by severity.
fn write_severities(out: &mut String, counts: &SeverityCounts)
    ensures
        final(out)@ == old(out)@ + severity_lines(*counts),
{
    if counts.low == 0 && counts.medium == 0 && counts.high == 0 && counts.critical == 0 {
        assert(out@ + Seq::<char>::empty() =~= out@);
        return ;
    }
    let mut text = "\n".to_owned();
    text.push_str("  By severity: ");
    write_count(
        &mut text,
        severity_color(&Severity::Critical),
        counts.critical,
        Severity::Critical.as_str(),
    );
    write_count(&mut text, severity_color(&Severity::High), counts.high, Severity::High.as_str());
    write_count(
        &mut text,
        severity_color(&Severity::Medium),
        counts.medium,
        Severity::Medium.as_str(),
    );
    write_count(&mut text, severity_color(&Severity::Low), counts.low, Severity::Low.as_str());
    text.push_str("\n");
    out.push_str(text.as_str());
}

/// Writes the counts by category.
fn write_categories(out: &mut String, counts: &CategoryCounts)
    ensures
        final(out)@ == old(out)@ + category_lines(*counts),
{
    if counts.placeholder == 0 && counts.deferral == 0 && counts.hedging == 0 && counts.stub == 0
        && counts.naming_convention == 0 {
        assert(out@ + Seq::<char>::empty() =~= out@);
        return ;
    }
    let mut text = "\n".to_owned();
    text.push_str("  By category: ");
    write_count(
        &mut text,
        category_color(&PatternCategory::Placeholder),
        counts.placeholder,
        PatternCategory::Placeholder.label(),
    );
    write_count(
        &mut text,
        category_color(&PatternCategory::Stub),
        counts.stub,
        PatternCategory::Stub.label(),
    );
    write_count(
        &mut text,
        category_color(&PatternCategory::Deferral),
        counts.deferral,
        PatternCategory::Deferral.label(),
    );
    write_count(
        &mut text,
        category_color(&PatternCategory::Hedging),
        counts.hedging,
        PatternCategory::Hedging.label(),
    );
    write_count(
        &mut text,
        category_color(&PatternCategory::NamingConvention),
        counts.naming_convention,
        PatternCategory::NamingConvention.label(),
    );
    text.push_str("\n");
    out.push_str(text.as_str());
}

/// Print summary statistics.
pub fn print_summary(out: &mut String, summary: &ScanSummary)
    ensures
        final(out)@ == old(out)@ + summary_text(*summary),
{
    let mut text = dimmed(repeat("─", 60).as_str());
    text.push_str("\n");
    text.push_str(cyan("📁").as_str());
    text.push_str(" ");
    text.push_str(decimal(summary.files_scanned).as_str());
    text.push_str(" scanned, ");
    text.push_str(decimal(summary.files_with_findings).as_str());
    text.push_str(" with findings");
    text.push_str("\n");
    text.push_str(yellow("⚠").as_str());
    text.push_str(" ");
    text.push_str(decimal(summary.total_findings).as_str());
    text.push_str(" total findings");
    text.push_str("\n");
    text.push_str(red("💀").as_str());
    text.push_str(" ");
    text.push_str(bold(decimal(summary.total_score as usize).as_str()).as_str());
    text.push_str(" sloppy score");
    text.push_str("\n");
    write_severities(&mut text, &summary.by_severity);
    write_categories(&mut text, &summary.by_category);
    text.push_str("\n");
    text.push_str(verdict(summary.total_score));
    text.push_str("\n");
    out.push_str(text.as_str());
}

/// What the human-readable report says of some findings, one after another.
pub open spec fn findings_text(findings: Seq<FindingSpec>) -> Seq<char>
    decreases findings.len(),
{
    if findings.len() == 0 {
        Seq::empty()
    } else {
        findings_text(findings.drop_last()) + finding_text(findings.last())
    }
}

/// The human-readable report: a line of praise where there is no finding,
/// else every finding and the summary.
pub open spec fn human_text(findings: Seq<FindingSpec>, summary: ScanSummary) -> Seq<char> {
    if findings.len() == 0 {
        green_of("✓ No AI slop detected! Code is clean."@) + "\n"@
    } else {
        findings_text(findings) + summary_text(summary)
    }
}

/// Human-readable terminal output.
pub fn report_human(results: &Vec<Finding>, summary: &ScanSummary) -> (text: String)
    ensures
        text@ == human_text(results.deep_view(), *summary),
{
    if results.len() == 0 {
        let mut text = green("✓ No AI slop detected! Code is clean.");
        text.push_str("\n");
        return text;
    }
    let ghost all = results.deep_view();
    let mut text = String::new();
    let mut i: usize = 0;
    assert(all.take(0) =~= Seq::<FindingSpec>::empty());
    while i < results.len()
        invariant
            i <= results.len(),
            all == results.deep_view(),
            text@ == findings_text(all.take(i as int)),
        decreases results.len() - i,
    {
        proof {
            assert(all.take(i + 1).drop_last() =~= all.take(i as int));
            assert(all.take(i + 1).last() == results[i as int].deep_view());
        }
        write_finding(&mut text, &results[i]);
        i += 1;
    }
    assert(all.take(i as int) =~= all);
    print_summary(&mut text, summary);
    text
}

/// The lower-case name of a severity.
pub open spec fn severity_tag(severity: Severity) -> Seq<char> {
    match severity {
        Severity::Low => "low"@,
        Severity::Medium => "medium"@,
        Severity::High => "high"@,
        Severity::Critical => "critical"@,
    }
}

/// The lower-case name of a severity.
pub fn severity_label(severity: &Severity) -> (s: &'static str)
    ensures
        s@ == severity_tag(*severity),
{
    match severity {
        Severity::Low => "low",
        Severity::Medium => "medium",
        Severity::High => "high",
        Severity::Critical => "critical",
    }
}

/// What a [`JsonFinding`] holds, as plain values.
pub struct JsonFindingSpec {
    pub file: Seq<char>,
    pub line: usize,
    pub column: usize,
    pub severity: Seq<char>,
    pub category: Seq<char>,
    pub message: Seq<char>,
    pub match_text: Seq<char>,
}

/// A finding as the JSON report shows it.
#[derive(Debug)]
pub struct JsonFinding {
    pub file: String,
    pub line: usize,
    pub column: usize,
    pub severity: String,
    pub category: String,
    pub message: String,
    pub match_text: String,
}

impl DeepView for JsonFinding {
    type V = JsonFindingSpec;

    open spec fn deep_view(&self) -> JsonFindingSpec {
        JsonFindingSpec {
            file: self.file@,
            line: self.line,
            column: self.column,
            severity: self.severity@,
            category: self.category@,
            message: self.message@,
            match_text: self.match_text@,
        }
    }
}

/// A finding as the JSON report shows it: severity and category by their
/// lower-case names, the rule's regex left out.
pub open spec fn json_finding_of(f: FindingSpec) -> JsonFindingSpec {
    JsonFindingSpec {
        file: f.file,
        line: f.line as usize,
        column: f.column as usize,
        severity: severity_tag(f.severity),
        category: f.category.tag(),
        message: f.message,
        match_text: f.match_text,
    }
}

/// What a [`JsonSummary`] holds, as plain values.
pub struct JsonSummarySpec {
    pub files_scanned: usize,
    pub files_with_findings: usize,
    pub total_findings: usize,
    pub total_score: u32,
    pub by_severity: Seq<(Seq<char>, usize)>,
    pub by_category: Seq<(Seq<char>, usize)>,
}

/// The summary as the JSON report shows it.  The counts are listed by the
/// lower-case names of the tiers and categories that have findings.
#[derive(Debug)]
pub struct JsonSummary {
    pub files_scanned: usize,
    pub files_with_findings: usize,
    pub total_findings: usize,
    pub total_score: u32,
    pub by_severity: Vec<(String, usize)>,
    pub by_category: Vec<(String, usize)>,
}

impl DeepView for JsonSummary {
    type V = JsonSummarySpec;

    open spec fn deep_view(&self) -> JsonSummarySpec {
        JsonSummarySpec {
            files_scanned: self.files_scanned,
            files_with_findings: self.files_with_findings,
            total_findings: self.total_findings,
            total_score: self.total_score,
            by_severity: self.by_severity.deep_view(),
            by_category: self.by_category.deep_view(),
        }
    }
}

/// What a [`JsonOutput`] holds, as plain values.
pub struct JsonOutputSpec {
    pub summary: JsonSummarySpec,
    pub findings: Seq<JsonFindingSpec>,
}

/// The JSON report.
#[derive(Debug)]
pub struct JsonOutput {
    pub summary: JsonSummary,
    pub findings: Vec<JsonFinding>,
}

impl DeepView for JsonOutput {
    type V = JsonOutputSpec;

    open spec fn deep_view(&self) -> JsonOutputSpec {
        JsonOutputSpec { summary: self.summary.deep_view(), findings: self.findings.deep_view() }
    }
}

/// An entry of a list of counts, unless the count is zero.
pub open spec fn json_count(name: Seq<char>, count: usize) -> Seq<(Seq<char>, usize)> {
    if count == 0 {
        Seq::empty()
    } else {
        seq![(name, count)]
    }
}

/// The counts by severity that are not zero, by name.
pub open spec fn json_severities(counts: SeverityCounts) -> Seq<(Seq<char>, usize)> {
    json_count("low"@, counts.low) + json_count("medium"@, counts.medium) + json_count(
        "high"@,
        counts.high,
    ) + json_count("critical"@, counts.critical)
}

/// The counts by category that are not zero, by name.
pub open spec fn json_categories(counts: CategoryCounts) -> Seq<(Seq<char>, usize)> {
    json_count("placeholder"@, counts.placeholder) + json_count("deferral"@, counts.deferral)
        + json_count("hedging"@, counts.hedging) + json_count("stub"@, counts.stub) + json_count(
        "namingconvention"@,
        counts.naming_convention,
    )
}

/// Appends an entry of a list of counts, unless the count is zero.
fn push_count(list: &mut Vec<(String, usize)>, name: &str, count: usize)
    ensures
        final(list).deep_view() == old(list).deep_view() + json_count(name@, count),
{
    let ghost before = list.deep_view();
    if count != 0 {
        list.push((name.to_owned(), count));
        assert(list.deep_view() =~= before + seq![(name@, count)]);
    } else {
        assert(before + Seq::<(Seq<char>, usize)>::empty() =~= before);
    }
}

/// The JSON report of some findings and their summary.
pub open spec fn json_of(results: Seq<FindingSpec>, summary: ScanSummary) -> JsonOutputSpec {
    JsonOutputSpec {
        summary: JsonSummarySpec {
            files_scanned: summary.files_scanned,
            files_with_findings: summary.files_with_findings,
            total_findings: summary.total_findings,
            total_score: summary.total_score,
            by_severity: json_severities(summary.by_severity),
            by_category: json_categories(summary.by_category),
        },
        findings: results.map_values(|f: FindingSpec| json_finding_of(f)),
    }
}

/// JSON output.
pub fn report_json(results: &Vec<Finding>, summary: &ScanSummary) -> (out: JsonOutput)
    ensures
        out.deep_view() == json_of(results.deep_view(), *summary),
{
    let mut by_severity: Vec<(String, usize)> = Vec::new();
    assert(by_severity.deep_view() =~= Seq::<(Seq<char>, usize)>::empty());
    push_count(&mut by_severity, "low", summary.by_severity.low);
    push_count(&mut by_severity, "medium", summary.by_severity.medium);
    push_count(&mut by_severity, "high", summary.by_severity.high);
    push_count(&mut by_severity, "critical", summary.by_severity.critical);
    assert(by_severity.deep_view() =~= json_severities(summary.by_severity));
    let mut by_category: Vec<(String, usize)> = Vec::new();
    assert(by_category.deep_view() =~= Seq::<(Seq<char>, usize)>::empty());
    push_count(&mut by_category, "placeholder", summary.by_category.placeholder);
    push_count(&mut by_category, "deferral", summary.by_category.deferral);
    push_count(&mut by_category, "hedging", summary.by_category.hedging);
    push_count(&mut by_category, "stub", summary.by_category.stub);
    push_count(&mut by_category, "namingconvention", summary.by_category.naming_convention);
    assert(by_category.deep_view() =~= json_categories(summary.by_category));
    let mut findings: Vec<JsonFinding> = Vec::new();
    let mut i: usize = 0;
    while i < results.len()
        invariant
            i <= results.len(),
            findings.len() == i,
            forall|j: int|
                0 <= j < i ==> (#[trigger] findings[j]).deep_view() == json_finding_of(
                    results[j].deep_view(),
                ),
        decreases results.len() - i,
    {
        let f = &results[i];
        findings.push(
            JsonFinding {
                file: f.file.clone(),
                line: f.line,
                column: f.column,
                severity: severity_label(&f.severity).to_owned(),
                category: f.category.label().to_owned(),
                message: f.message.clone(),
                match_text: f.match_text.clone(),
            },
        );
        i += 1;
    }
    assert(findings.deep_view() =~= results.deep_view().map_values(
        |f: FindingSpec| json_finding_of(f),
    ));
    JsonOutput {
        summary: JsonSummary {
            files_scanned: summary.files_scanned,
            files_with_findings: summary.files_with_findings,
            total_findings: summary.total_findings,
            total_score: summary.total_score,
            by_severity,
            by_category,
        },
        findings,
    }
}

/// What a [`SarifRecord`] holds, as plain values.
pub struct SarifSpec {
    pub rule_id: Seq<char>,
    pub uri: Seq<char>,
    pub start_line: i64,
    pub start_column: i64,
    pub end_line: i64,
    pub end_column: i64,
    pub level: SarifLevel,
    pub message: Seq<char>,
}

/// One result of a SARIF log.
#[derive(Debug)]
pub struct SarifRecord {
    pub rule_id: String,
    pub uri: String,
    pub start_line: i64,
    pub start_column: i64,
    pub end_line: i64,
    pub end_column: i64,
    pub level: SarifLevel,
    pub message: String,
}

impl DeepView for SarifRecord {
    type V = SarifSpec;

    open spec fn deep_view(&self) -> SarifSpec {
        SarifSpec {
            rule_id: self.rule_id@,
            uri: self.uri@,
            start_line: self.start_line,
            start_column: self.start_column,
            end_line: self.end_line,
            end_column: self.end_column,
            level: self.level,
            message: self.message@,
        }
    }
}

/// A count as a signed 64-bit number holds it: itself, or the largest such
/// number where it is larger.
pub open spec fn capped_i64(n: nat) -> i64 {
    if n > i64::MAX {
        i64::MAX
    } else {
        n as i64
    }
}

/// The SARIF result for a finding.  The rule is the finding's category; the
/// region begins at the finding's position and ends, on the same line,
/// behind as many columns as `width`.
pub open spec fn sarif_of(f: FindingSpec, width: nat) -> SarifSpec {
    SarifSpec {
        rule_id: f.category.tag(),
        uri: f.file,
        start_line: capped_i64(f.line),
        start_column: capped_i64(f.column),
        end_line: capped_i64(f.line),
        end_column: capped_i64(f.column + width),
        level: level_of(f.severity),
        message: f.message,
    }
}

/// A count as a signed 64-bit number.
fn to_i64(n: usize) -> (r: i64)
    ensures
        r == capped_i64(n as nat),
{
    let wide: u64 = n as u64;
    if wide > 0x7FFF_FFFF_FFFF_FFFF {
        0x7FFF_FFFF_FFFF_FFFF
    } else {
        wide as i64
    }
}

/// The SARIF result for a finding whose matched text is `width` bytes long.
fn sarif_record(finding: &Finding, width: usize) -> (r: SarifRecord)
    requires
        finding.column + width <= usize::MAX,
    ensures
        r.deep_view() == sarif_of(finding.deep_view(), width as nat),
{
    SarifRecord {
        rule_id: finding.category.label().to_owned(),
        uri: finding.file.clone(),
        start_line: to_i64(finding.line),
        start_column: to_i64(finding.column),
        end_line: to_i64(finding.line),
        end_column: to_i64(finding.column + width),
        level: sarif_level(&finding.severity),
        message: finding.message.clone(),
    }
}

/// The width in bytes of a finding's matched text, as far as the region
/// that ends behind it can still be written.
pub open spec fn region_width(f: FindingSpec, bytes: nat) -> nat {
    if f.column + bytes <= usize::MAX {
        bytes
    } else {
        (usize::MAX - f.column) as nat
    }
}

/// The SARIF results for some findings, in their order.  The region of a
/// result is as wide as the matched text has bytes.
pub open spec fn sarif_records(results: Seq<FindingSpec>) -> Seq<SarifSpec> {
    Seq::new(
        results.len(),
        |i: int|
            sarif_of(
                results[i],
                region_width(results[i], vstd::utf8::encode_utf8(results[i].match_text).len()),
            ),
    )
}

/// The SARIF results for some findings, in their order.
pub fn report_sarif(results: &Vec<Finding>) -> (out: Vec<SarifRecord>)
    ensures
        out.deep_view() == sarif_records(results.deep_view()),
{
    let mut out: Vec<SarifRecord> = Vec::new();
    let mut i: usize = 0;
    while i < results.len()
        invariant
            i <= results.len(),
            out.len() == i,
            forall|j: int|
                0 <= j < i ==> (#[trigger] out[j]).deep_view() == sarif_of(
                    results[j].deep_view(),
                    region_width(
                        results[j].deep_view(),
                        vstd::utf8::encode_utf8(results[j].match_text@).len(),
                    ),
                ),
        decreases results.len() - i,
    {
        let f = &results[i];
        let bytes = f.match_text.as_str().as_bytes().len();
        let width = if bytes <= usize::MAX - f.column {
            bytes
        } else {
            usize::MAX - f.column
        };
        out.push(sarif_record(f, width));
        i += 1;
    }
    assert(out.deep_view() =~= sarif_records(results.deep_view()));
    out
}

/// What a [`Report`] holds, as plain values.
pub enum ReportSpec {
    Human(Seq<char>),
    Json(JsonOutputSpec),
    Sarif(Seq<SarifSpec>),
}

/// A report, ready to be printed or written out.
#[derive(Debug)]
pub enum Report {
    /// The text of the human-readable report.
    Human(String),
    /// The records of the JSON report.
    Json(JsonOutput),
    /// The results of the SARIF log.
    Sarif(Vec<SarifRecord>),
}

impl DeepView for Report {
    type V = ReportSpec;

    open spec fn deep_view(&self) -> ReportSpec {
        match self {
            Report::Human(text) => ReportSpec::Human(text@),
            Report::Json(out) => ReportSpec::Json(out.deep_view()),
            Report::Sarif(records) => ReportSpec::Sarif(records.deep_view()),
        }
    }
}

/// The report of some findings and their summary in a format.
pub open spec fn report_of(format: Format, results: Seq<FindingSpec>, summary: ScanSummary)
    -> ReportSpec {
    match format {
        Format::Human => ReportSpec::Human(human_text(results, summary)),
        Format::Json => ReportSpec::Json(json_of(results, summary)),
        Format::Sarif => ReportSpec::Sarif(sarif_records(results)),
    }
}

/// Reporter for scan results.
pub struct Reporter {
    format: Format,
}

impl Reporter {
    /// The format in which this reporter writes.
    pub closed spec fn chosen(&self) -> Format {
        self.format
    }

    /// Create a new reporter.
    pub fn new(format: Format) -> (r: Self)
        ensures
            r.chosen() == format,
    {
        Reporter { format }
    }

    /// The format in which this reporter writes.
    pub fn format(&self) -> (f: Format)
        ensures
            f == self.chosen(),
    {
        self.format
    }

    /// Report findings and summary.
    ///
    /// The report is made in the reporter's format and handed back; nothing
    /// is printed.
    pub fn report(&self, results: Vec<Finding>, summary: ScanSummary) -> (r: Result<Report, Error>)
        ensures
            r is Ok,
            r->Ok_0.deep_view() == report_of(self.chosen(), results.deep_view(), summary),
    {
        match self.format {
            Format::Human => Ok(Report::Human(report_human(&results, &summary))),
            Format::Json => Ok(Report::Json(report_json(&results, &summary))),
            Format::Sarif => Ok(Report::Sarif(report_sarif(&results))),
        }
    }
}

} // verus!
