//! The regular-expression engine, as the detection engine sees it.
//!
//! Patterns are compiled and searched by the `regex` crate.  Nothing here is
//! proved of that crate: each function below states, and Verus believes, what
//! the crate's documentation says of the call it makes.

use crate::text::{byte_len_of, byte_slice_of};
use vstd::prelude::*;

verus! {

/// `regex::Regex`, a compiled regular expression.  Verus sees nothing inside
/// it.
#[verifier::external_type_specification]
#[verifier::external_body]
pub struct ExRegex(regex::Regex);

/// What a [`RegexMatch`] holds, as plain values.
pub struct MatchSpec {
    pub start: nat,
    pub end: nat,
    pub text: Seq<char>,
}

/// The leftmost match of a regular expression in a text.
#[derive(Debug)]
pub struct RegexMatch {
    /// Byte offset at which the match starts.
    pub start: usize,
    /// Byte offset just behind the match.
    pub end: usize,
    /// The text that matched.
    pub text: String,
}

impl DeepView for RegexMatch {
    type V = MatchSpec;

    open spec fn deep_view(&self) -> MatchSpec {
        MatchSpec { start: self.start as nat, end: self.end as nat, text: self.text@ }
    }
}

/// What `regex::Regex::new` returns for a pattern text: the compiled
/// expression, or what the compiler's error prints.
pub uninterp spec fn regex_compile(pattern: Seq<char>) -> Result<regex::Regex, Seq<char>>;

/// What `regex::Regex::find` returns for a compiled expression and a text.
pub uninterp spec fn regex_find(re: regex::Regex, haystack: Seq<char>) -> Option<MatchSpec>;

/// What `regex::Regex::captures` gives for a capture group: the text that the
/// group matched, in the leftmost match of the whole expression.
pub uninterp spec fn regex_group(re: regex::Regex, haystack: Seq<char>, group: nat) -> Option<
    Seq<char>,
>;

/// Whether a pattern text is a regular expression that the engine accepts.
pub open spec fn compiles(pattern: Seq<char>) -> bool {
    regex_compile(pattern) is Ok
}

/// Whether a compiled expression matches somewhere in a text.
pub open spec fn matches_in(re: regex::Regex, haystack: Seq<char>) -> bool {
    regex_find(re, haystack) is Some
}

/// Calls `regex::Regex::new`, and prints the error where there is one.  The
/// result is a function of the pattern text alone, and is named
/// [`regex_compile`].
#[verifier::external_body]
pub(crate) fn compile(pattern: &str) -> (r: Result<regex::Regex, String>)
    ensures
        match r {
            Ok(re) => regex_compile(pattern@) == Ok::<regex::Regex, Seq<char>>(re),
            Err(msg) => regex_compile(pattern@) == Err::<regex::Regex, Seq<char>>(msg@),
        },
{
    regex::Regex::new(pattern).map_err(|e| e.to_string())
}

/// Calls `regex::Regex::find`, and copies out of the `Match` its two byte
/// offsets and the matched text.  The result is a function of the expression
/// and the text, and is named [`regex_find`].  Of a match the crate documents
/// that its start is not behind its end, that both offsets lie in the text
/// on character boundaries, and that the matched text is the text between
/// them: that is stated too.
#[verifier::external_body]
pub(crate) fn find(re: &regex::Regex, haystack: &str) -> (m: Option<RegexMatch>)
    ensures
        m.deep_view() == regex_find(*re, haystack@),
        match m {
            Some(f) => f.start <= f.end && f.end <= byte_len_of(haystack@) && f.text@
                == byte_slice_of(haystack@, f.start as nat, f.end as nat),
            None => true,
        },
{
    re.find(haystack).map(
        |m| RegexMatch { start: m.start(), end: m.end(), text: m.as_str().to_string() },
    )
}

/// Calls `regex::Regex::captures`, then `Captures::get` for one group, and
/// copies the text of the group.  `None` where the expression does not
/// match or the group took no part in the match.  The result is a function
/// of the expression, the text and the group, and is named [`regex_group`].
#[verifier::external_body]
pub(crate) fn capture_group(re: &regex::Regex, haystack: &str, group: usize) -> (text: Option<
    String,
>)
    ensures
        text.deep_view() == regex_group(*re, haystack@, group as nat),
{
    re.captures(haystack).and_then(|c| c.get(group)).map(|m| m.as_str().to_string())
}

} // verus!
