//! Findings as an editor shows them.
//!
//! An editor counts lines and characters from zero and knows four grades of
//! severity.  What a finding becomes there is decided here; talking to the
//! editor is the caller's work.

use vstd::prelude::*;
use crate::config::Severity;
use crate::detector::{capped_u32, Finding, FindingSpec};
use crate::text::to_chars;

verus! {

/// The grade of a diagnostic.
#[derive(Debug, Clone, Copy, PartialEq, Eq, Structural)]
pub enum DiagnosticSeverity {
    Error,
    Warning,
    Information,
    Hint,
}

/// The grade that stands for a severity.
pub open spec fn grade_of(severity: Severity) -> DiagnosticSeverity {
    match severity {
        Severity::Critical | Severity::High => DiagnosticSeverity::Error,
        Severity::Medium => DiagnosticSeverity::Warning,
        Severity::Low => DiagnosticSeverity::Information,
    }
}

/// What a [`Diagnostic`] holds, as plain values.
pub struct DiagnosticSpec {
    pub line: u32,
    pub start_character: u32,
    pub end_character: u32,
    pub severity: DiagnosticSeverity,
    pub code: Seq<char>,
    pub source: Seq<char>,
    pub message: Seq<char>,
}

/// A finding as an editor shows it: a range on one line, a grade, the
/// category as its code, and the message.
#[derive(Debug)]
pub struct Diagnostic {
    pub line: u32,
    pub start_character: u32,
    pub end_character: u32,
    pub severity: DiagnosticSeverity,
    pub code: String,
    pub source: String,
    pub message: String,
}

impl DeepView for Diagnostic {
    type V = DiagnosticSpec;

    open spec fn deep_view(&self) -> DiagnosticSpec {
        DiagnosticSpec {
            line: self.line,
            start_character: self.start_character,
            end_character: self.end_character,
            severity: self.severity,
            code: self.code@,
            source: self.source@,
            message: self.message@,
        }
    }
}

/// A position counted from one as a position counted from zero, as far as
/// 32 bits hold it.
pub open spec fn from_zero(n: nat) -> u32 {
    if n == 0 {
        0
    } else {
        capped_u32((n - 1) as nat)
    }
}

/// The diagnostic for a finding.  Line and column are counted from zero;
/// the range is as long as the matched text has characters.
pub open spec fn diagnostic_of(f: FindingSpec) -> DiagnosticSpec {
    DiagnosticSpec {
        line: from_zero(f.line),
        start_character: from_zero(f.column),
        end_character: capped_u32(from_zero(f.column) as nat + f.match_text.len()),
        severity: grade_of(f.severity),
        code: f.category.tag(),
        source: "antislop"@,
        message: f.message,
    }
}

/// A position counted from one as a position counted from zero.
fn zero_based(n: usize) -> (r: u32)
    ensures
        r == from_zero(n as nat),
{
    let m: usize = n.saturating_sub(1);
    if m > 0xFFFF_FFFF {
        0xFFFF_FFFF
    } else {
        m as u32
    }
}

/// The diagnostic for a finding.
pub fn diagnostic(finding: &Finding) -> (d: Diagnostic)
    ensures
        d.deep_view() == diagnostic_of(finding.deep_view()),
{
    let start = zero_based(finding.column);
    let chars = to_chars(finding.match_text.as_str()).len();
    let width: u32 = if chars > 0xFFFF_FFFF {
        0xFFFF_FFFF
    } else {
        chars as u32
    };
    Diagnostic {
        line: zero_based(finding.line),
        start_character: start,
        end_character: start.saturating_add(width),
        severity: match finding.severity {
            Severity::Critical | Severity::High => DiagnosticSeverity::Error,
            Severity::Medium => DiagnosticSeverity::Warning,
            Severity::Low => DiagnosticSeverity::Information,
        },
        code: finding.category.label().to_owned(),
        source: "antislop".to_owned(),
        message: finding.message.clone(),
    }
}

/// The diagnostics for some findings, in their order.
pub fn diagnostics(findings: &Vec<Finding>) -> (out: Vec<Diagnostic>)
    ensures
        out.deep_view() == findings.deep_view().map_values(|f: FindingSpec| diagnostic_of(f)),
{
    let mut out: Vec<Diagnostic> = Vec::new();
    let mut i: usize = 0;
    while i < findings.len()
        invariant
            i <= findings.len(),
            out.len() == i,
            forall|j: int|
                0 <= j < i ==> (#[trigger] out[j]).deep_view() == diagnostic_of(
                    findings[j].deep_view(),
                ),
        decreases findings.len() - i,
    {
        out.push(diagnostic(&findings[i]));
        i += 1;
    }
    assert(out.deep_view() =~= findings.deep_view().map_values(
        |f: FindingSpec| diagnostic_of(f),
    ));
    out
}

} // verus!
