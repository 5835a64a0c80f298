//! Profile validation.
//!
//! A profile is checked before its rules reach the engine: its metadata,
//! then its rules one by one.  The first fault found is the one reported.

use vstd::prelude::*;
use crate::config::{Pattern, PatternSpec};
use crate::profile::{MetadataSpec, Profile, ProfileSpec};
use crate::text::{
    contains_sub, decimal, decimal_of, lowercase_of, str_contains, str_eq, to_chars,
};
use crate::{Error, ErrorSpec};

verus! {

/// Whether `semver::Version::parse` accepts a text.
pub uninterp spec fn is_semver(text: Seq<char>) -> bool;

/// Calls `semver::Version::parse`, and says whether the text was accepted.
/// That is a function of the text alone, and is named [`is_semver`].
#[verifier::external_body]
pub(crate) fn parses_as_version(text: &str) -> (ok: bool)
    ensures
        ok == is_semver(text@),
{
    semver::Version::parse(text).is_ok()
}

/// What is wrong with a profile's metadata, if anything: a missing name, a
/// version that is given but is no semantic version, or such a required
/// version.
pub open spec fn metadata_fault(meta: MetadataSpec) -> Option<Seq<char>> {
    if meta.name.len() == 0 {
        Some("Profile metadata.name is required"@)
    } else if meta.version.len() > 0 && !is_semver(meta.version) {
        Some("Invalid semantic version: "@ + meta.version)
    } else if meta.requires_version is Some && !is_semver(meta.requires_version->0) {
        Some("Invalid requires_version format: "@ + meta.requires_version->0)
    } else {
        None
    }
}

/// The result of a check that found `fault`.
pub open spec fn verdict_of(fault: Option<Seq<char>>, r: Result<(), Error>) -> bool {
    match fault {
        Some(text) => r is Err && r->Err_0.deep_view() == ErrorSpec::ConfigInvalid(text),
        None => r is Ok,
    }
}

/// Validate profile metadata.
pub fn validate_metadata(profile: &Profile) -> (r: Result<(), Error>)
    ensures
        verdict_of(metadata_fault(profile.deep_view().metadata), r),
{
    let meta = &profile.metadata;
    if meta.name.as_str().is_empty() {
        return Err(Error::ConfigInvalid("Profile metadata.name is required".to_owned()));
    }
    if !meta.version.as_str().is_empty() && !parses_as_version(meta.version.as_str()) {
        let mut text = "Invalid semantic version: ".to_owned();
        text.push_str(meta.version.as_str());
        return Err(Error::ConfigInvalid(text));
    }
    match &meta.requires_version {
        Some(req_ver) => {
            if !parses_as_version(req_ver.as_str()) {
                let mut text = "Invalid requires_version format: ".to_owned();
                text.push_str(req_ver.as_str());
                return Err(Error::ConfigInvalid(text));
            }
        },
        None => {},
    }
    Ok(())
}

/// Whether a language name is one that structural rules may name.
pub open spec fn valid_language(lang: Seq<char>) -> bool {
    lang == "Python"@ || lang == "JavaScript"@ || lang == "TypeScript"@ || lang == "Rust"@ || lang
        == "Go"@ || lang == "Java"@ || lang == "C++"@ || lang == "C#"@ || lang == "Ruby"@ || lang
        == "Haskell"@ || lang == "Lua"@ || lang == "Scala"@
}

/// Check if a language name is valid for AST queries.
pub fn is_valid_language(lang: &str) -> (r: bool)
    ensures
        r == valid_language(lang@),
{
    str_eq(lang, "Python") || str_eq(lang, "JavaScript") || str_eq(lang, "TypeScript") || str_eq(
        lang,
        "Rust",
    ) || str_eq(lang, "Go") || str_eq(lang, "Java") || str_eq(lang, "C++") || str_eq(lang, "C#")
        || str_eq(lang, "Ruby") || str_eq(lang, "Haskell") || str_eq(lang, "Lua") || str_eq(
        lang,
        "Scala",
    )
}

/// Where the reading of a query stands after some of its characters.
pub struct QueryScan {
    /// Parentheses opened and not yet closed, outside strings.
    pub depth: int,
    /// Whether the reading is inside a string.
    pub in_string: bool,
    /// Whether a parenthesis was closed that had not been opened.
    pub broken: bool,
}

/// The reading of the first `n` characters of a query.  A `"` that does not
/// follow a backslash opens or closes a string; parentheses inside a string
/// do not count.
pub open spec fn scan_query(query: Seq<char>, n: nat) -> QueryScan
    decreases n,
{
    if n == 0 || n > query.len() {
        QueryScan { depth: 0, in_string: false, broken: false }
    } else {
        let before = scan_query(query, (n - 1) as nat);
        let c = query[n - 1];
        let toggles = c == '"' && (n == 1 || query[n - 2] != '\\');
        let in_string = if toggles {
            !before.in_string
        } else {
            before.in_string
        };
        if before.broken || in_string {
            QueryScan { depth: before.depth, in_string, broken: before.broken }
        } else if c == '(' {
            QueryScan { depth: before.depth + 1, in_string, broken: false }
        } else if c == ')' {
            if before.depth == 0 {
                QueryScan { depth: 0, in_string, broken: true }
            } else {
                QueryScan { depth: before.depth - 1, in_string, broken: false }
            }
        } else {
            QueryScan { depth: before.depth, in_string, broken: false }
        }
    }
}

/// What is wrong with a query text, if anything: parentheses that do not
/// balance, or no capture.
pub open spec fn query_fault(query: Seq<char>) -> Option<Seq<char>> {
    let end = scan_query(query, query.len());
    if end.broken || end.depth != 0 {
        Some("Unbalanced parentheses in AST query"@)
    } else if !query.contains('@') {
        Some("AST query must contain at least one capture (@capture)"@)
    } else {
        None
    }
}

/// The depth of the reading never falls below zero nor rises above the
/// number of characters read.
pub proof fn lemma_scan_depth(query: Seq<char>, n: nat)
    ensures
        0 <= scan_query(query, n).depth <= n,
    decreases n,
{
    if n > 0 && n <= query.len() {
        lemma_scan_depth(query, (n - 1) as nat);
    }
}

/// Once the reading is broken it stays broken.
pub proof fn lemma_scan_stays_broken(query: Seq<char>, n: nat, m: nat)
    requires
        n <= m <= query.len(),
        scan_query(query, n).broken,
    ensures
        scan_query(query, m).broken,
    decreases m - n,
{
    if n < m {
        lemma_scan_stays_broken(query, n, (m - 1) as nat);
    }
}

/// Basic AST query syntax validation.
pub fn validate_ast_query(query: &str) -> (r: Result<(), Error>)
    ensures
        verdict_of(query_fault(query@), r),
{
    let chars = to_chars(query);
    let mut depth: usize = 0;
    let mut in_string = false;
    let mut has_capture = false;
    let mut i: usize = 0;
    while i < chars.len()
        invariant
            i <= chars.len(),
            chars@ == query@,
            depth == scan_query(query@, i as nat).depth,
            in_string == scan_query(query@, i as nat).in_string,
            !scan_query(query@, i as nat).broken,
            has_capture == chars@.take(i as int).contains('@'),
        decreases chars.len() - i,
    {
        let c = chars[i];
        proof {
            lemma_scan_depth(query@, i as nat);
            let head = chars@.take(i as int);
            let next = chars@.take(i + 1);
            assert(next =~= head.push(c));
            if head.contains('@') {
                let k = choose|k: int| 0 <= k < head.len() && head[k] == '@';
                assert(next[k] == '@');
            }
            if c == '@' {
                assert(next[i as int] == '@');
            }
            if next.contains('@') && c != '@' {
                let k = choose|k: int| 0 <= k < next.len() && next[k] == '@';
                assert(head[k] == '@');
            }
        }
        if c == '@' {
            has_capture = true;
        }
        if c == '"' && (i == 0 || chars[i - 1] != '\\') {
            in_string = !in_string;
        }
        if !in_string {
            if c == '(' {
                depth += 1;
            } else if c == ')' {
                if depth == 0 {
                    proof {
                        assert(scan_query(query@, (i + 1) as nat).broken);
                        lemma_scan_stays_broken(query@, (i + 1) as nat, query@.len());
                    }
                    return Err(
                        Error::ConfigInvalid("Unbalanced parentheses in AST query".to_owned()),
                    );
                }
                depth -= 1;
            }
        }
        i += 1;
    }
    assert(chars@.take(i as int) =~= chars@);
    if depth != 0 {
        return Err(Error::ConfigInvalid("Unbalanced parentheses in AST query".to_owned()));
    }
    if !has_capture {
        return Err(
            Error::ConfigInvalid(
                "AST query must contain at least one capture (@capture)".to_owned(),
            ),
        );
    }
    Ok(())
}

/// The first of `langs` that is no valid language name.
pub open spec fn first_unknown(langs: Seq<Seq<char>>) -> Option<Seq<char>>
    decreases langs.len(),
{
    if langs.len() == 0 {
        None
    } else if !valid_language(langs[0]) {
        Some(langs[0])
    } else {
        first_unknown(langs.drop_first())
    }
}

/// Whether a rule before the one at `i` has the same regex text.
pub open spec fn repeats(ps: Seq<PatternSpec>, i: int) -> bool {
    exists|j: int| 0 <= j < i && (#[trigger] ps[j]).regex == ps[i].regex
}

/// What is said of a rule whose regex text was used before.
pub open spec fn duplicate_text(i: nat, regex: Seq<char>) -> Seq<char> {
    "Duplicate pattern at index "@ + decimal_of(i) + ": regex '"@ + regex + "' is already used"@
}

/// What is said of a rule without a message.
pub open spec fn empty_message_text(i: nat) -> Seq<char> {
    "Pattern at index "@ + decimal_of(i) + " has empty message"@
}

/// What is said of a structural rule that names no language.
pub open spec fn no_languages_text(i: nat) -> Seq<char> {
    "Pattern at index "@ + decimal_of(i) + " has ast_query but no languages specified"@
}

/// The valid language names, as they are listed for the user.
pub open spec fn known_languages() -> Seq<char> {
    "Python, JavaScript, TypeScript, Rust, Go, Java, C++, C#, Ruby, Haskell, \
     Lua, Scala"@
}

/// What is said of a structural rule that names an unknown language.
pub open spec fn unknown_language_text(i: nat, lang: Seq<char>) -> Seq<char> {
    "Pattern at index "@ + decimal_of(i) + " has unknown language '"@ + lang
        + "'. Valid languages: "@ + known_languages()
}

/// What is wrong with the rule at `i`, if anything.  In this order: its
/// regex text was used by an earlier rule; it has no message; it has a
/// structural query but names no language; it names an unknown language; its
/// query text is faulty.
pub open spec fn pattern_fault(ps: Seq<PatternSpec>, i: int) -> Option<Seq<char>> {
    let p = ps[i];
    if repeats(ps, i) {
        Some(duplicate_text(i as nat, p.regex))
    } else if p.message.len() == 0 {
        Some(empty_message_text(i as nat))
    } else if p.ast_query is Some && p.languages.len() == 0 {
        Some(no_languages_text(i as nat))
    } else if p.ast_query is Some && first_unknown(p.languages) is Some {
        Some(unknown_language_text(i as nat, first_unknown(p.languages)->0))
    } else if p.ast_query is Some {
        query_fault(p.ast_query->0)
    } else {
        None
    }
}

/// What is wrong with the first `n` rules: the fault of the first faulty one.
pub open spec fn patterns_fault(ps: Seq<PatternSpec>, n: nat) -> Option<Seq<char>>
    decreases n,
{
    if n == 0 || n > ps.len() {
        None
    } else if patterns_fault(ps, (n - 1) as nat) is Some {
        patterns_fault(ps, (n - 1) as nat)
    } else {
        pattern_fault(ps, n - 1)
    }
}

/// The first of `langs` that is no valid language name.
fn find_unknown_language(langs: &Vec<String>) -> (r: Option<String>)
    ensures
        r.deep_view() == first_unknown(langs.deep_view()),
{
    let ghost all = langs.deep_view();
    let mut i: usize = 0;
    assert(all.skip(0) =~= all);
    while i < langs.len()
        invariant
            i <= langs.len(),
            all == langs.deep_view(),
            first_unknown(all) == first_unknown(all.skip(i as int)),
        decreases langs.len() - i,
    {
        proof {
            assert(all.skip(i as int)[0] == langs[i as int]@);
            assert(all.skip(i as int).drop_first() =~= all.skip(i + 1));
        }
        if !is_valid_language(langs[i].as_str()) {
            return Some(langs[i].clone());
        }
        i += 1;
    }
    None
}

/// Whether a rule before the one at `i` has the same regex text.
fn regex_used_before(ps: &Vec<Pattern>, i: usize) -> (r: bool)
    requires
        i < ps.len(),
    ensures
        r == repeats(ps.deep_view(), i as int),
{
    let mut j: usize = 0;
    while j < i
        invariant
            j <= i < ps.len(),
            forall|k: int|
                0 <= k < j ==> (#[trigger] ps.deep_view()[k]).regex != ps.deep_view()[i
                    as int].regex,
        decreases i - j,
    {
        assert(ps.deep_view()[j as int] == ps[j as int].deep_view());
        assert(ps.deep_view()[i as int] == ps[i as int].deep_view());
        if ps[j].regex == ps[i].regex {
            return true;
        }
        j += 1;
    }
    false
}

/// What is wrong with the rule at `i`, if anything.
fn check_pattern(ps: &Vec<Pattern>, i: usize) -> (r: Result<(), Error>)
    requires
        i < ps.len(),
    ensures
        verdict_of(pattern_fault(ps.deep_view(), i as int), r),
{
    let pattern = &ps[i];
    assert(ps.deep_view()[i as int] == pattern.deep_view());
    let index = decimal(i);
    if regex_used_before(ps, i) {
        let mut text = "Duplicate pattern at index ".to_owned();
        text.push_str(index.as_str());
        text.push_str(": regex '");
        text.push_str(pattern.regex.as_str());
        text.push_str("' is already used");
        return Err(Error::ConfigInvalid(text));
    }
    if pattern.message.as_str().is_empty() {
        let mut text = "Pattern at index ".to_owned();
        text.push_str(index.as_str());
        text.push_str(" has empty message");
        return Err(Error::ConfigInvalid(text));
    }
    match &pattern.ast_query {
        Some(query) => {
            if pattern.languages.len() == 0 {
                let mut text = "Pattern at index ".to_owned();
                text.push_str(index.as_str());
                text.push_str(" has ast_query but no languages specified");
                return Err(Error::ConfigInvalid(text));
            }
            match find_unknown_language(&pattern.languages) {
                Some(lang) => {
                    let mut text = "Pattern at index ".to_owned();
                    text.push_str(index.as_str());
                    text.push_str(" has unknown language '");
                    text.push_str(lang.as_str());
                    text.push_str("'. Valid languages: ");
                    text.push_str(
                        "Python, JavaScript, TypeScript, Rust, Go, Java, C++, C#, Ruby, Haskell, \
                         Lua, Scala",
                    );
                    return Err(Error::ConfigInvalid(text));
                },
                None => {},
            }
            validate_ast_query(query.as_str())
        },
        None => Ok(()),
    }
}

/// Validate all patterns in the profile.
pub fn validate_patterns(profile: &Profile) -> (r: Result<(), Error>)
    ensures
        verdict_of(
            patterns_fault(profile.deep_view().patterns, profile.patterns.len() as nat),
            r,
        ),
{
    let ghost ps = profile.patterns.deep_view();
    let mut i: usize = 0;
    while i < profile.patterns.len()
        invariant
            i <= profile.patterns.len(),
            ps == profile.patterns.deep_view(),
            patterns_fault(ps, i as nat) is None,
        decreases profile.patterns.len() - i,
    {
        match check_pattern(&profile.patterns, i) {
            Ok(_) => {},
            Err(e) => {
                proof {
                    lemma_fault_stays(ps, (i + 1) as nat, ps.len());
                }
                return Err(e);
            },
        }
        i += 1;
    }
    Ok(())
}

/// The fault found in the first rules is the fault found in all of them.
pub proof fn lemma_fault_stays(ps: Seq<PatternSpec>, n: nat, m: nat)
    requires
        n <= m <= ps.len(),
        patterns_fault(ps, n) is Some,
    ensures
        patterns_fault(ps, m) == patterns_fault(ps, n),
    decreases m - n,
{
    if n < m {
        lemma_fault_stays(ps, n, (m - 1) as nat);
    }
}

/// What is wrong with a profile, if anything: with its metadata, else with
/// its rules.
pub open spec fn profile_fault(profile: ProfileSpec) -> Option<Seq<char>> {
    if metadata_fault(profile.metadata) is Some {
        metadata_fault(profile.metadata)
    } else {
        patterns_fault(profile.patterns, profile.patterns.len())
    }
}

/// Validate a profile's metadata and patterns.
pub fn validate_profile(profile: &Profile) -> (r: Result<(), Error>)
    ensures
        verdict_of(profile_fault(profile.deep_view()), r),
{
    match validate_metadata(profile) {
        Ok(_) => {},
        Err(e) => {
            return Err(e);
        },
    }
    validate_patterns(profile)
}

/// A rule with a structural query but without languages is rejected.
pub proof fn law_structural_rule_needs_languages(profile: ProfileSpec, i: int)
    requires
        0 <= i < profile.patterns.len(),
        profile.patterns[i].ast_query is Some,
        profile.patterns[i].languages.len() == 0,
    ensures
        profile_fault(profile) is Some,
{
    let ps = profile.patterns;
    assert(pattern_fault(ps, i) is Some);
    if patterns_fault(ps, i as nat) is Some {
        lemma_fault_stays(ps, i as nat, ps.len());
    } else {
        assert(patterns_fault(ps, (i + 1) as nat) is Some);
        lemma_fault_stays(ps, (i + 1) as nat, ps.len());
    }
}

/// The patterns of the standard linters, each with the linter's name.
pub open spec fn linter_patterns() -> Seq<(Seq<char>, Seq<char>)> {
    seq![
        ("\\.unwrap\\(\\)"@, "clippy"@),
        ("\\.expect\\("@, "clippy"@),
        ("panic!\\("@, "clippy"@),
        ("var\\s+"@, "eslint"@),
        ("==\\s"@, "eslint"@),
        ("print\\("@, "pylint"@),
        ("\\s+$"@, "formatter"@),
        ("\\t"@, "formatter"@),
    ]
}

/// The warning that a rule may overlap with a linter.
pub open spec fn overlap_text(message: Seq<char>, linter: Seq<char>) -> Seq<char> {
    "Pattern '"@ + message + "' may overlap with "@ + linter
        + " (consider if this is truly AI-specific)"@
}

/// The violation that a rule is a style check.
pub open spec fn style_text(message: Seq<char>) -> Seq<char> {
    "Pattern '"@ + message
        + "' appears to be a style check (should be handled by formatters, not antislop)"@
}

/// Whether a rule's regex text and a linter's pattern overlap: one contains
/// the other.
pub open spec fn overlaps(regex: Seq<char>, linter_pattern: Seq<char>) -> bool {
    contains_sub(regex, linter_pattern) || contains_sub(linter_pattern, regex)
}

/// The warnings for one rule against the first `k` linter patterns.
pub open spec fn rule_warnings(p: PatternSpec, k: nat) -> Seq<Seq<char>>
    decreases k,
{
    if k == 0 || k > linter_patterns().len() {
        Seq::empty()
    } else {
        let entry = linter_patterns()[k - 1];
        rule_warnings(p, (k - 1) as nat) + if overlaps(p.regex, entry.0) {
            seq![overlap_text(p.message, entry.1)]
        } else {
            Seq::<Seq<char>>::empty()
        }
    }
}

/// The warnings for some rules, rule after rule.
pub open spec fn overlap_warnings(ps: Seq<PatternSpec>) -> Seq<Seq<char>>
    decreases ps.len(),
{
    if ps.len() == 0 {
        Seq::empty()
    } else {
        overlap_warnings(ps.drop_last()) + rule_warnings(ps.last(), linter_patterns().len())
    }
}

/// Whether a message speaks of style: in lower case it holds one of four
/// words.
pub open spec fn speaks_of_style(message: Seq<char>) -> bool {
    let msg = lowercase_of(message);
    contains_sub(msg, "style"@) || contains_sub(msg, "format"@) || contains_sub(msg, "indent"@)
        || contains_sub(msg, "whitespace"@)
}

/// The violations among some rules, rule after rule.
pub open spec fn style_violations(ps: Seq<PatternSpec>) -> Seq<Seq<char>>
    decreases ps.len(),
{
    if ps.len() == 0 {
        Seq::empty()
    } else {
        style_violations(ps.drop_last()) + if speaks_of_style(ps.last().message) {
            seq![style_text(ps.last().message)]
        } else {
            Seq::<Seq<char>>::empty()
        }
    }
}

/// Report from orthogonality compliance validation.
#[derive(Debug)]
pub struct MeceReport {
    /// Whether the profile is orthogonal (non-overlapping).
    pub is_compliant: bool,
    /// Warnings about potential overlaps (not blocking).
    pub warnings: Vec<String>,
    /// Violations of orthogonality principle (blocking).
    pub violations: Vec<String>,
}

/// The linter patterns with the linters' names.
fn linter_table() -> (table: Vec<(&'static str, &'static str)>)
    ensures
        table@.len() == linter_patterns().len(),
        forall|k: int|
            0 <= k < table@.len() ==> (#[trigger] table@[k]).0@ == linter_patterns()[k].0
                && table@[k].1@ == linter_patterns()[k].1,
{
    vec![
        ("\\.unwrap\\(\\)", "clippy"),
        ("\\.expect\\(", "clippy"),
        ("panic!\\(", "clippy"),
        ("var\\s+", "eslint"),
        ("==\\s", "eslint"),
        ("print\\(", "pylint"),
        ("\\s+$", "formatter"),
        ("\\t", "formatter"),
    ]
}

/// Validate that patterns don't overlap with standard linters (Orthogonality principle).
///
/// Basic overlap check - looks for patterns that are covered by standard linters
/// like clippy, eslint, pylint.  A profile complies exactly when none of its
/// rules speaks of style.
pub fn validate_mece_compliance(profile: &Profile) -> (r: Result<MeceReport, Error>)
    ensures
        r is Ok,
        r->Ok_0.warnings.deep_view() == overlap_warnings(profile.deep_view().patterns),
        r->Ok_0.violations.deep_view() == style_violations(profile.deep_view().patterns),
        r->Ok_0.is_compliant == (style_violations(profile.deep_view().patterns).len() == 0),
{
    let table = linter_table();
    let ghost ps = profile.patterns.deep_view();
    let mut warnings: Vec<String> = Vec::new();
    let mut violations: Vec<String> = Vec::new();
    let mut i: usize = 0;
    assert(ps.take(0) =~= Seq::<PatternSpec>::empty());
    assert(warnings.deep_view() =~= Seq::<Seq<char>>::empty());
    while i < profile.patterns.len()
        invariant
            i <= profile.patterns.len(),
            ps == profile.patterns.deep_view(),
            table@.len() == linter_patterns().len(),
            forall|k: int|
                0 <= k < table@.len() ==> (#[trigger] table@[k]).0@ == linter_patterns()[k].0
                    && table@[k].1@ == linter_patterns()[k].1,
            warnings.deep_view() == overlap_warnings(ps.take(i as int)),
        decreases profile.patterns.len() - i,
    {
        let pattern = &profile.patterns[i];
        let ghost before = warnings.deep_view();
        proof {
            assert(ps.take(i + 1).drop_last() =~= ps.take(i as int));
            assert(ps.take(i + 1).last() == pattern.deep_view());
            assert(before + Seq::<Seq<char>>::empty() =~= before);
        }
        let mut k: usize = 0;
        while k < table.len()
            invariant
                k <= table.len(),
                table@.len() == linter_patterns().len(),
                forall|j: int|
                    0 <= j < table@.len() ==> (#[trigger] table@[j]).0@ == linter_patterns()[j].0
                        && table@[j].1@ == linter_patterns()[j].1,
                warnings.deep_view() == before + rule_warnings(pattern.deep_view(), k as nat),
            decreases table.len() - k,
        {
            let ghost sofar = warnings.deep_view();
            let ghost done = rule_warnings(pattern.deep_view(), k as nat);
            let entry = table[k];
            if str_contains(pattern.regex.as_str(), entry.0) || str_contains(
                entry.0,
                pattern.regex.as_str(),
            ) {
                let mut text = "Pattern '".to_owned();
                text.push_str(pattern.message.as_str());
                text.push_str("' may overlap with ");
                text.push_str(entry.1);
                text.push_str(" (consider if this is truly AI-specific)");
                warnings.push(text);
                proof {
                    assert(warnings.deep_view() =~= sofar.push(text@));
                    assert(sofar.push(text@) =~= before + (done + seq![text@]));
                }
            } else {
                assert(before + (done + Seq::<Seq<char>>::empty()) =~= sofar);
            }
            k += 1;
        }
        i += 1;
    }
    assert(ps.take(i as int) =~= ps);
    let mut j: usize = 0;
    assert(violations.deep_view() =~= Seq::<Seq<char>>::empty());
    while j < profile.patterns.len()
        invariant
            j <= profile.patterns.len(),
            ps == profile.patterns.deep_view(),
            violations.deep_view() == style_violations(ps.take(j as int)),
        decreases profile.patterns.len() - j,
    {
        let pattern = &profile.patterns[j];
        let ghost before = violations.deep_view();
        proof {
            assert(ps.take(j + 1).drop_last() =~= ps.take(j as int));
            assert(ps.take(j + 1).last() == pattern.deep_view());
        }
        let msg = pattern.message.as_str().to_lowercase();
        if str_contains(msg.as_str(), "style") || str_contains(msg.as_str(), "format")
            || str_contains(msg.as_str(), "indent") || str_contains(msg.as_str(), "whitespace") {
            let mut text = "Pattern '".to_owned();
            text.push_str(pattern.message.as_str());
            text.push_str(
                "' appears to be a style check (should be handled by formatters, not antislop)",
            );
            violations.push(text);
            assert(violations.deep_view() =~= before.push(text@));
            assert(before.push(text@) =~= before + seq![text@]);
        } else {
            assert(before + Seq::<Seq<char>>::empty() =~= before);
        }
        j += 1;
    }
    assert(ps.take(j as int) =~= ps);
    let is_compliant = violations.len() == 0;
    Ok(MeceReport { is_compliant, warnings, violations })
}

} // verus!
