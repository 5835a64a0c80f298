//! Slop detection engine.
//!
//! This module holds the records that a scan produces and the sums taken over
//! them.  The scanner itself is in [`scanner`], the two ways of extracting
//! comments in [`regex_fallback`] and [`structural`].

use vstd::prelude::*;
use crate::config::{PatternCategory, Severity};

pub mod language;
pub mod laws;
pub mod patterns;
pub mod regex_fallback;
pub mod scanner;
pub mod structural;

pub use language::Language;
pub use patterns::{CompiledPattern, PatternRegistry};
pub use regex_fallback::RegexExtractor;
pub use scanner::{CommentExtractor, Scanner};
pub use structural::{get_extractor, TreeSitterExtractor};

verus! {

/// What a [`Comment`] holds, as plain values.
pub struct CommentSpec {
    pub line: nat,
    pub column: nat,
    pub content: Seq<char>,
}

/// A comment extracted from source code.
#[derive(Debug)]
pub struct Comment {
    /// Line number (1-indexed).
    pub line: usize,
    /// Column number (1-indexed).
    pub column: usize,
    /// The comment text content.
    pub content: String,
}

impl DeepView for Comment {
    type V = CommentSpec;

    open spec fn deep_view(&self) -> CommentSpec {
        CommentSpec { line: self.line as nat, column: self.column as nat, content: self.content@ }
    }
}

impl Clone for Comment {
    fn clone(&self) -> (r: Self)
        ensures
            r.deep_view() == self.deep_view(),
    {
        Comment { line: self.line, column: self.column, content: self.content.clone() }
    }
}

impl PartialEq for Comment {
    fn eq(&self, other: &Self) -> (r: bool) {
        self.line == other.line && self.column == other.column && self.content == other.content
    }
}

impl vstd::std_specs::cmp::PartialEqSpecImpl for Comment {
    open spec fn obeys_eq_spec() -> bool {
        true
    }

    open spec fn eq_spec(&self, other: &Self) -> bool {
        self.line == other.line && self.column == other.column && self.content@ == other.content@
    }
}

/// What a [`Finding`] holds, as plain values.
pub struct FindingSpec {
    pub file: Seq<char>,
    pub line: nat,
    pub column: nat,
    pub severity: Severity,
    pub category: PatternCategory,
    pub message: Seq<char>,
    pub match_text: Seq<char>,
    pub pattern_regex: Seq<char>,
}

/// A single slop finding.
#[derive(Debug)]
pub struct Finding {
    /// File path.
    pub file: String,
    /// Line number (1-indexed).
    pub line: usize,
    /// Column number (1-indexed).
    pub column: usize,
    /// Severity level.
    pub severity: Severity,
    /// Pattern category.
    pub category: PatternCategory,
    /// Human-readable message.
    pub message: String,
    /// The matched text.
    pub match_text: String,
    /// The regex pattern that matched.
    pub pattern_regex: String,
}

impl DeepView for Finding {
    type V = FindingSpec;

    open spec fn deep_view(&self) -> FindingSpec {
        FindingSpec {
            file: self.file@,
            line: self.line as nat,
            column: self.column as nat,
            severity: self.severity,
            category: self.category,
            message: self.message@,
            match_text: self.match_text@,
            pattern_regex: self.pattern_regex@,
        }
    }
}

impl Clone for Finding {
    fn clone(&self) -> (r: Self)
        ensures
            r.deep_view() == self.deep_view(),
    {
        Finding {
            file: self.file.clone(),
            line: self.line,
            column: self.column,
            severity: self.severity,
            category: self.category,
            message: self.message.clone(),
            match_text: self.match_text.clone(),
            pattern_regex: self.pattern_regex.clone(),
        }
    }
}

/// The sum of the weights of the findings' severities.
pub open spec fn score_sum(findings: Seq<FindingSpec>) -> nat
    decreases findings.len(),
{
    if findings.len() == 0 {
        0
    } else {
        score_sum(findings.drop_last()) + findings.last().severity.weight()
    }
}

/// A sum as a `u32` holds it: the sum itself, or the largest `u32` where the
/// sum is larger.
pub open spec fn capped_u32(n: nat) -> u32 {
    if n > u32::MAX {
        u32::MAX
    } else {
        n as u32
    }
}

/// A count as a `usize` holds it: the count itself, or the largest `usize`
/// where the count is larger.
pub open spec fn capped_usize(n: nat) -> usize {
    if n > usize::MAX {
        usize::MAX
    } else {
        n as usize
    }
}

/// The score that a file with these findings gets.
pub open spec fn file_score(findings: Seq<FindingSpec>) -> u32 {
    capped_u32(score_sum(findings))
}

/// The sum grows by the weight of each finding appended.
pub proof fn lemma_score_sum_push(findings: Seq<FindingSpec>, f: FindingSpec)
    ensures
        score_sum(findings.push(f)) == score_sum(findings) + f.severity.weight(),
{
    assert(findings.push(f).drop_last() =~= findings);
}

/// The sum over two runs of findings is the sum of their sums.
pub proof fn lemma_score_sum_concat(a: Seq<FindingSpec>, b: Seq<FindingSpec>)
    ensures
        score_sum(a + b) == score_sum(a) + score_sum(b),
    decreases b.len(),
{
    if b.len() == 0 {
        assert(a + b =~= a);
    } else {
        assert((a + b).drop_last() =~= a + b.drop_last());
        lemma_score_sum_concat(a, b.drop_last());
    }
}

/// Adding a weight to a capped sum caps the larger sum.
pub proof fn lemma_capped_add(n: nat, w: nat)
    requires
        w <= u32::MAX,
    ensures
        capped_u32(n + w) == capped_u32((capped_u32(n) + w) as nat),
{
}

/// What a [`FileScanResult`] holds, as plain values.
pub struct FileScanSpec {
    pub path: Seq<char>,
    pub findings: Seq<FindingSpec>,
    pub score: u32,
}

/// Result of scanning a single file.
#[derive(Debug)]
pub struct FileScanResult {
    /// File path.
    pub path: String,
    /// All findings in this file.
    pub findings: Vec<Finding>,
    /// Total slop score for this file.
    pub score: u32,
}

impl DeepView for FileScanResult {
    type V = FileScanSpec;

    open spec fn deep_view(&self) -> FileScanSpec {
        FileScanSpec {
            path: self.path@,
            findings: self.findings.deep_view(),
            score: self.score,
        }
    }
}

impl FileScanSpec {
    /// The score is the capped sum of the findings' weights.
    pub open spec fn wf(self) -> bool {
        self.score == file_score(self.findings)
    }
}

/// How many of `findings` have the severity `severity`.
pub open spec fn count_severity(findings: Seq<FindingSpec>, severity: Severity) -> nat
    decreases findings.len(),
{
    if findings.len() == 0 {
        0
    } else {
        count_severity(findings.drop_last(), severity) + if findings.last().severity == severity {
            1nat
        } else {
            0nat
        }
    }
}

/// How many of `findings` have the category `category`.
pub open spec fn count_category(findings: Seq<FindingSpec>, category: PatternCategory) -> nat
    decreases findings.len(),
{
    if findings.len() == 0 {
        0
    } else {
        count_category(findings.drop_last(), category) + if findings.last().category == category {
            1nat
        } else {
            0nat
        }
    }
}

/// All findings of `results`, file after file.
pub open spec fn all_findings(results: Seq<FileScanSpec>) -> Seq<FindingSpec>
    decreases results.len(),
{
    if results.len() == 0 {
        Seq::empty()
    } else {
        all_findings(results.drop_last()) + results.last().findings
    }
}

/// The sum of the scores of `results`.
pub open spec fn total_score_of(results: Seq<FileScanSpec>) -> nat
    decreases results.len(),
{
    if results.len() == 0 {
        0
    } else {
        total_score_of(results.drop_last()) + results.last().score as nat
    }
}

/// How many of `results` have a finding.
pub open spec fn files_with_findings_of(results: Seq<FileScanSpec>) -> nat
    decreases results.len(),
{
    if results.len() == 0 {
        0
    } else {
        files_with_findings_of(results.drop_last()) + if results.last().findings.len() > 0 {
            1nat
        } else {
            0nat
        }
    }
}

/// Findings counted by severity.  A tier without findings counts zero.
#[derive(Debug, Clone, Copy, PartialEq, Eq, Structural)]
pub struct SeverityCounts {
    pub low: usize,
    pub medium: usize,
    pub high: usize,
    pub critical: usize,
}

impl SeverityCounts {
    /// The count kept for `severity`.
    pub open spec fn of(self, severity: Severity) -> usize {
        match severity {
            Severity::Low => self.low,
            Severity::Medium => self.medium,
            Severity::High => self.high,
            Severity::Critical => self.critical,
        }
    }

    /// No finding counted yet.
    pub fn new() -> (c: Self)
        ensures
            forall|s: Severity| c.of(s) == 0,
    {
        SeverityCounts { low: 0, medium: 0, high: 0, critical: 0 }
    }

    /// The count for `severity`, where it is not zero.
    pub fn get(&self, severity: &Severity) -> (n: Option<usize>)
        ensures
            n == if self.of(*severity) == 0 {
                None
            } else {
                Some(self.of(*severity))
            },
    {
        let n = match severity {
            Severity::Low => self.low,
            Severity::Medium => self.medium,
            Severity::High => self.high,
            Severity::Critical => self.critical,
        };
        if n == 0 {
            None
        } else {
            Some(n)
        }
    }

    /// Whether no tier has a finding.
    pub fn is_empty(&self) -> (r: bool)
        ensures
            r == (forall|s: Severity| self.of(s) == 0),
    {
        let r = self.low == 0 && self.medium == 0 && self.high == 0 && self.critical == 0;
        proof {
            if !r {
                assert(self.of(Severity::Low) != 0 || self.of(Severity::Medium) != 0 || self.of(
                    Severity::High,
                ) != 0 || self.of(Severity::Critical) != 0);
            }
        }
        r
    }

    /// Counts one more finding of `severity`, up to the largest `usize`.
    pub fn add(&mut self, severity: Severity)
        ensures
            forall|s: Severity|
                final(self).of(s) == if s == severity {
                    capped_usize((old(self).of(s) + 1) as nat)
                } else {
                    old(self).of(s)
                },
    {
        match severity {
            Severity::Low => {
                self.low = self.low.saturating_add(1);
            },
            Severity::Medium => {
                self.medium = self.medium.saturating_add(1);
            },
            Severity::High => {
                self.high = self.high.saturating_add(1);
            },
            Severity::Critical => {
                self.critical = self.critical.saturating_add(1);
            },
        }
    }
}

/// Findings counted by category.  A category without findings counts zero.
#[derive(Debug, Clone, Copy, PartialEq, Eq, Structural)]
pub struct CategoryCounts {
    pub placeholder: usize,
    pub deferral: usize,
    pub hedging: usize,
    pub stub: usize,
    pub naming_convention: usize,
}

impl CategoryCounts {
    /// The count kept for `category`.
    pub open spec fn of(self, category: PatternCategory) -> usize {
        match category {
            PatternCategory::Placeholder => self.placeholder,
            PatternCategory::Deferral => self.deferral,
            PatternCategory::Hedging => self.hedging,
            PatternCategory::Stub => self.stub,
            PatternCategory::NamingConvention => self.naming_convention,
        }
    }

    /// No finding counted yet.
    pub fn new() -> (c: Self)
        ensures
            forall|k: PatternCategory| c.of(k) == 0,
    {
        CategoryCounts { placeholder: 0, deferral: 0, hedging: 0, stub: 0, naming_convention: 0 }
    }

    /// The count for `category`, where it is not zero.
    pub fn get(&self, category: &PatternCategory) -> (n: Option<usize>)
        ensures
            n == if self.of(*category) == 0 {
                None
            } else {
                Some(self.of(*category))
            },
    {
        let n = match category {
            PatternCategory::Placeholder => self.placeholder,
            PatternCategory::Deferral => self.deferral,
            PatternCategory::Hedging => self.hedging,
            PatternCategory::Stub => self.stub,
            PatternCategory::NamingConvention => self.naming_convention,
        };
        if n == 0 {
            None
        } else {
            Some(n)
        }
    }

    /// Whether no category has a finding.
    pub fn is_empty(&self) -> (r: bool)
        ensures
            r == (forall|k: PatternCategory| self.of(k) == 0),
    {
        let r = self.placeholder == 0 && self.deferral == 0 && self.hedging == 0 && self.stub == 0
            && self.naming_convention == 0;
        proof {
            if !r {
                assert(self.of(PatternCategory::Placeholder) != 0 || self.of(
                    PatternCategory::Deferral,
                ) != 0 || self.of(PatternCategory::Hedging) != 0 || self.of(PatternCategory::Stub)
                    != 0 || self.of(PatternCategory::NamingConvention) != 0);
            }
        }
        r
    }

    /// Counts one more finding of `category`, up to the largest `usize`.
    pub fn add(&mut self, category: PatternCategory)
        ensures
            forall|k: PatternCategory|
                final(self).of(k) == if k == category {
                    capped_usize((old(self).of(k) + 1) as nat)
                } else {
                    old(self).of(k)
                },
    {
        match category {
            PatternCategory::Placeholder => {
                self.placeholder = self.placeholder.saturating_add(1);
            },
            PatternCategory::Deferral => {
                self.deferral = self.deferral.saturating_add(1);
            },
            PatternCategory::Hedging => {
                self.hedging = self.hedging.saturating_add(1);
            },
            PatternCategory::Stub => {
                self.stub = self.stub.saturating_add(1);
            },
            PatternCategory::NamingConvention => {
                self.naming_convention = self.naming_convention.saturating_add(1);
            },
        }
    }
}

/// Summary of a scan operation.
#[derive(Debug, Clone, Copy, PartialEq, Eq, Structural)]
pub struct ScanSummary {
    /// Number of files scanned.
    pub files_scanned: usize,
    /// Number of files with findings.
    pub files_with_findings: usize,
    /// Total number of findings.
    pub total_findings: usize,
    /// Total slop score across all files.
    pub total_score: u32,
    /// Findings grouped by severity.
    pub by_severity: SeverityCounts,
    /// Findings grouped by category.
    pub by_category: CategoryCounts,
}

/// The summary of `results`: each number is the count or sum it is named
/// after, or the largest value of its type where that is smaller.
pub open spec fn summary_of(results: Seq<FileScanSpec>) -> ScanSummary {
    let all = all_findings(results);
    ScanSummary {
        files_scanned: results.len() as usize,
        files_with_findings: files_with_findings_of(results) as usize,
        total_findings: capped_usize(all.len()),
        total_score: capped_u32(total_score_of(results)),
        by_severity: SeverityCounts {
            low: capped_usize(count_severity(all, Severity::Low)),
            medium: capped_usize(count_severity(all, Severity::Medium)),
            high: capped_usize(count_severity(all, Severity::High)),
            critical: capped_usize(count_severity(all, Severity::Critical)),
        },
        by_category: CategoryCounts {
            placeholder: capped_usize(count_category(all, PatternCategory::Placeholder)),
            deferral: capped_usize(count_category(all, PatternCategory::Deferral)),
            hedging: capped_usize(count_category(all, PatternCategory::Hedging)),
            stub: capped_usize(count_category(all, PatternCategory::Stub)),
            naming_convention: capped_usize(
                count_category(all, PatternCategory::NamingConvention),
            ),
        },
    }
}

/// No more files have findings than there are files.
pub proof fn lemma_files_with_findings_bound(results: Seq<FileScanSpec>)
    ensures
        files_with_findings_of(results) <= results.len(),
    decreases results.len(),
{
    if results.len() > 0 {
        lemma_files_with_findings_bound(results.drop_last());
    }
}

/// Counting by severity over appended findings counts one more where the
/// severity is the one counted.
pub proof fn lemma_count_push(findings: Seq<FindingSpec>, f: FindingSpec)
    ensures
        forall|s: Severity|
            count_severity(findings.push(f), s) == count_severity(findings, s) + if f.severity
                == s {
                1nat
            } else {
                0nat
            },
        forall|k: PatternCategory|
            count_category(findings.push(f), k) == count_category(findings, k) + if f.category
                == k {
                1nat
            } else {
                0nat
            },
{
    assert(findings.push(f).drop_last() =~= findings);
}

impl ScanSummary {
    /// Create a summary from scan results.
    pub fn new(results: &[FileScanResult]) -> (summary: Self)
        ensures
            summary == summary_of(results.deep_view()),
    {
        let ghost rs = results.deep_view();
        let mut with_findings: usize = 0;
        let mut total_findings: usize = 0;
        let mut total_score: u32 = 0;
        let mut by_severity = SeverityCounts::new();
        let mut by_category = CategoryCounts::new();
        let mut i: usize = 0;
        assert(rs.take(0) =~= Seq::<FileScanSpec>::empty());
        while i < results.len()
            invariant
                i <= results.len(),
                rs == results.deep_view(),
                with_findings == files_with_findings_of(rs.take(i as int)),
                total_findings == capped_usize(all_findings(rs.take(i as int)).len()),
                total_score == capped_u32(total_score_of(rs.take(i as int))),
                forall|s: Severity|
                    by_severity.of(s) == capped_usize(
                        count_severity(all_findings(rs.take(i as int)), s),
                    ),
                forall|k: PatternCategory|
                    by_category.of(k) == capped_usize(
                        count_category(all_findings(rs.take(i as int)), k),
                    ),
            decreases results.len() - i,
        {
            let result = &results[i];
            let ghost before = all_findings(rs.take(i as int));
            proof {
                assert(rs.take(i + 1).drop_last() =~= rs.take(i as int));
                assert(rs.take(i + 1).last() == result.deep_view());
                lemma_files_with_findings_bound(rs.take(i as int));
            }
            if result.findings.len() > 0 {
                with_findings += 1;
            }
            total_findings = total_findings.saturating_add(result.findings.len());
            total_score = total_score.saturating_add(result.score);
            let ghost fs = result.findings.deep_view();
            let mut j: usize = 0;
            assert(before + fs.take(0) =~= before);
            while j < result.findings.len()
                invariant
                    j <= result.findings.len(),
                    fs == result.findings.deep_view(),
                    forall|s: Severity|
                        by_severity.of(s) == capped_usize(
                            count_severity(before + fs.take(j as int), s),
                        ),
                    forall|k: PatternCategory|
                        by_category.of(k) == capped_usize(
                            count_category(before + fs.take(j as int), k),
                        ),
                decreases result.findings.len() - j,
            {
                let finding = &result.findings[j];
                proof {
                    assert(before + fs.take(j + 1) =~= (before + fs.take(j as int)).push(
                        fs[j as int],
                    ));
                    lemma_count_push(before + fs.take(j as int), fs[j as int]);
                    assert(fs[j as int] == finding.deep_view());
                }
                by_severity.add(finding.severity);
                by_category.add(finding.category);
                j += 1;
            }
            proof {
                assert(fs.take(j as int) =~= fs);
            }
            i += 1;
        }
        proof {
            assert(rs.take(i as int) =~= rs);
        }
        let summary = ScanSummary {
            files_scanned: results.len(),
            files_with_findings: with_findings,
            total_findings,
            total_score,
            by_severity,
            by_category,
        };
        proof {
            let want = summary_of(rs);
            assert(summary.by_severity.of(Severity::Low) == want.by_severity.of(Severity::Low));
            assert(summary.by_severity.of(Severity::Medium) == want.by_severity.of(
                Severity::Medium,
            ));
            assert(summary.by_severity.of(Severity::High) == want.by_severity.of(Severity::High));
            assert(summary.by_severity.of(Severity::Critical) == want.by_severity.of(
                Severity::Critical,
            ));
            assert(summary.by_category.of(PatternCategory::Placeholder) == want.by_category.of(
                PatternCategory::Placeholder,
            ));
            assert(summary.by_category.of(PatternCategory::Deferral) == want.by_category.of(
                PatternCategory::Deferral,
            ));
            assert(summary.by_category.of(PatternCategory::Hedging) == want.by_category.of(
                PatternCategory::Hedging,
            ));
            assert(summary.by_category.of(PatternCategory::Stub) == want.by_category.of(
                PatternCategory::Stub,
            ));
            assert(summary.by_category.of(PatternCategory::NamingConvention)
                == want.by_category.of(PatternCategory::NamingConvention));
        }
        summary
    }
}

} // verus!
