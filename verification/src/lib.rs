//! A linter for textual and structural markers of low-effort authorship:
//! placeholder comments, hedging language, deferrals and empty stubs.
//!
//! The detection engine classifies a file by its extension, extracts its
//! comments, matches every rule against them, runs the structural rules on the
//! syntax tree where a grammar is at hand, and weighs what it found.

use vstd::prelude::*;

pub mod config;
pub mod detector;
pub mod diagnostics;
pub mod filename_checker;
pub mod hygiene;
pub mod hygiene_report;
pub mod profile;
pub mod report;
pub mod run;
pub mod rx;
pub mod syntax;
pub mod text;
pub mod walker;

pub use config::{Config, Pattern, PatternCategory, Severity};
pub use detector::{Comment, FileScanResult, Finding, ScanSummary, Scanner};
pub use filename_checker::{FilenameCheckConfig, FilenameChecker};
pub use profile::{Profile, ProfileLoader, ProfileSource};
pub use report::{Format, Reporter};
pub use walker::Walker;

verus! {

/// What an [`Error`] says, as plain values.
pub enum ErrorSpec {
    Config(Seq<char>),
    ConfigInvalid(Seq<char>),
    Regex(Seq<char>, Seq<char>),
    Parse(Seq<char>),
}

/// Error types for antislop.
#[derive(Debug)]
pub enum Error {
    /// Config parsing error.
    Config(String),
    /// A configuration or profile that was read but breaks a rule.
    ConfigInvalid(String),
    /// Regex compilation error: the pattern text, then the compiler's words.
    Regex(String, String),
    /// Tree-sitter parsing error.
    Parse(String),
}

impl DeepView for Error {
    type V = ErrorSpec;

    open spec fn deep_view(&self) -> ErrorSpec {
        match self {
            Error::Config(m) => ErrorSpec::Config(m@),
            Error::ConfigInvalid(m) => ErrorSpec::ConfigInvalid(m@),
            Error::Regex(p, m) => ErrorSpec::Regex(p@, m@),
            Error::Parse(m) => ErrorSpec::Parse(m@),
        }
    }
}

impl ErrorSpec {
    /// The sentence that describes this error.
    pub open spec fn sentence(self) -> Seq<char> {
        match self {
            ErrorSpec::Config(m) => "Config error: "@ + m,
            ErrorSpec::ConfigInvalid(m) => "Invalid configuration: "@ + m,
            ErrorSpec::Regex(p, m) => "Invalid regex '"@ + p + "': "@ + m,
            ErrorSpec::Parse(m) => "Parse error: "@ + m,
        }
    }
}

impl Error {
    /// The sentence that describes this error.
    pub fn message(&self) -> (s: String)
        ensures
            s@ == self.deep_view().sentence(),
    {
        match self {
            Error::Config(m) => {
                let mut s = String::from_str("Config error: ");
                s.push_str(m.as_str());
                s
            },
            Error::ConfigInvalid(m) => {
                let mut s = String::from_str("Invalid configuration: ");
                s.push_str(m.as_str());
                s
            },
            Error::Regex(p, m) => {
                let mut s = String::from_str("Invalid regex '");
                s.push_str(p.as_str());
                s.push_str("': ");
                s.push_str(m.as_str());
                s
            },
            Error::Parse(m) => {
                let mut s = String::from_str("Parse error: ");
                s.push_str(m.as_str());
                s
            },
        }
    }
}

/// Default configuration file names, in the order in which they are tried.
pub fn config_files() -> (names: Vec<&'static str>)
    ensures
        names@.len() == 3,
        names@[0]@ == "antislop.toml"@,
        names@[1]@ == ".antislop.toml"@,
        names@[2]@ == ".antislop"@,
{
    let mut names: Vec<&'static str> = Vec::new();
    names.push("antislop.toml");
    names.push(".antislop.toml");
    names.push(".antislop");
    names
}

} // verus!
