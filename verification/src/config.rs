//! Detection rules and the settings that surround them.
//!
//! A [`Pattern`] is one rule: a regular expression with a severity, a category
//! and a message, and optionally a structural query with the languages it
//! applies to.  [`Config`] gathers the rules with the traversal settings.

use vstd::prelude::*;
use crate::rx::{compile, compiles, regex_compile};
use crate::text::{clone_opt_string, clone_strings, lowercase_of, str_eq};
use crate::{Error, ErrorSpec};

verus! {

/// Severity tier of a finding.  Each tier carries a fixed weight.
#[derive(Debug, Clone, Copy, PartialEq, Eq, Hash, Structural)]
pub enum Severity {
    /// Minor issue, worth addressing but not urgent.
    Low,
    /// Moderate issue, should be fixed.
    Medium,
    /// Significant issue, fix recommended.
    High,
    /// Critical issue requiring immediate attention.
    Critical,
}

impl Default for Severity {
    fn default() -> (s: Self)
        ensures
            s == Severity::Medium,
    {
        Severity::Medium
    }
}

impl Severity {
    /// The weight of this tier: 1, 5, 15 or 50.
    pub open spec fn weight(self) -> nat {
        match self {
            Severity::Low => 1,
            Severity::Medium => 5,
            Severity::High => 15,
            Severity::Critical => 50,
        }
    }

    /// The upper-case display name of this tier.
    pub open spec fn name(self) -> Seq<char> {
        match self {
            Severity::Low => "LOW"@,
            Severity::Medium => "MEDIUM"@,
            Severity::High => "HIGH"@,
            Severity::Critical => "CRITICAL"@,
        }
    }

    /// Returns the numeric score for this severity level.
    pub fn score(&self) -> (s: u32)
        ensures
            s == self.weight(),
            1 <= s <= 50,
    {
        match self {
            Severity::Low => 1,
            Severity::Medium => 5,
            Severity::High => 15,
            Severity::Critical => 50,
        }
    }

    /// Returns the display name for this severity.
    pub fn as_str(&self) -> (s: &'static str)
        ensures
            s@ == self.name(),
    {
        match self {
            Severity::Low => "LOW",
            Severity::Medium => "MEDIUM",
            Severity::High => "HIGH",
            Severity::Critical => "CRITICAL",
        }
    }
}

/// Category of slop pattern.
#[derive(Debug, Clone, Copy, PartialEq, Eq, Hash, Structural)]
pub enum PatternCategory {
    /// Placeholder comments: TODO, FIXME, HACK, etc.
    Placeholder,
    /// Deferral language: "for now", "temporary", etc.
    Deferral,
    /// Hedging language: "hopefully", "should work", etc.
    Hedging,
    /// Stub code: empty implementations.
    Stub,
    /// File names that break the project's naming habits.
    NamingConvention,
}

impl Default for PatternCategory {
    fn default() -> (c: Self)
        ensures
            c == PatternCategory::Placeholder,
    {
        PatternCategory::Placeholder
    }
}

impl PatternCategory {
    /// The lower-case tag of this category.
    pub open spec fn tag(self) -> Seq<char> {
        match self {
            PatternCategory::Placeholder => "placeholder"@,
            PatternCategory::Deferral => "deferral"@,
            PatternCategory::Hedging => "hedging"@,
            PatternCategory::Stub => "stub"@,
            PatternCategory::NamingConvention => "namingconvention"@,
        }
    }

    /// Returns the lower-case tag used for this category in reports.
    pub fn label(&self) -> (s: &'static str)
        ensures
            s@ == self.tag(),
    {
        match self {
            PatternCategory::Placeholder => "placeholder",
            PatternCategory::Deferral => "deferral",
            PatternCategory::Hedging => "hedging",
            PatternCategory::Stub => "stub",
            PatternCategory::NamingConvention => "namingconvention",
        }
    }
}

/// The category that a name given on the command line stands for.  Upper
/// and lower case are not told apart.
pub open spec fn category_named(name: Seq<char>) -> Option<PatternCategory> {
    let n = lowercase_of(name);
    if n == "placeholder"@ {
        Some(PatternCategory::Placeholder)
    } else if n == "deferral"@ {
        Some(PatternCategory::Deferral)
    } else if n == "hedging"@ {
        Some(PatternCategory::Hedging)
    } else if n == "stub"@ {
        Some(PatternCategory::Stub)
    } else if n == "namingconvention"@ || n == "naming"@ {
        Some(PatternCategory::NamingConvention)
    } else {
        None
    }
}

/// Parse a category string into a PatternCategory enum.
pub fn parse_category(s: &str) -> (c: Option<PatternCategory>)
    ensures
        c == category_named(s@),
{
    let lowered = s.to_lowercase();
    let n = lowered.as_str();
    if str_eq(n, "placeholder") {
        Some(PatternCategory::Placeholder)
    } else if str_eq(n, "deferral") {
        Some(PatternCategory::Deferral)
    } else if str_eq(n, "hedging") {
        Some(PatternCategory::Hedging)
    } else if str_eq(n, "stub") {
        Some(PatternCategory::Stub)
    } else if str_eq(n, "namingconvention") || str_eq(n, "naming") {
        Some(PatternCategory::NamingConvention)
    } else {
        None
    }
}

/// The categories that some names stand for, without the names that stand
/// for none.
pub open spec fn categories_named(names: Seq<Seq<char>>) -> Seq<PatternCategory>
    decreases names.len(),
{
    if names.len() == 0 {
        Seq::empty()
    } else if category_named(names.last()) is Some {
        categories_named(names.drop_last()).push(category_named(names.last())->0)
    } else {
        categories_named(names.drop_last())
    }
}

/// The categories that some names stand for.
pub fn parse_categories(names: &Vec<String>) -> (out: Vec<PatternCategory>)
    ensures
        out@ == categories_named(names.deep_view()),
{
    let ghost all = names.deep_view();
    let mut out: Vec<PatternCategory> = Vec::new();
    let mut i: usize = 0;
    assert(all.take(0) =~= Seq::<Seq<char>>::empty());
    while i < names.len()
        invariant
            i <= names.len(),
            all == names.deep_view(),
            out@ == categories_named(all.take(i as int)),
        decreases names.len() - i,
    {
        proof {
            assert(all.take(i + 1).drop_last() =~= all.take(i as int));
            assert(all.take(i + 1).last() == names[i as int]@);
        }
        match parse_category(names[i].as_str()) {
            Some(c) => {
                out.push(c);
            },
            None => {},
        }
        i += 1;
    }
    assert(all.take(i as int) =~= all);
    out
}

/// The rules that a choice of categories leaves: those of the categories
/// in `only` where that is given, else those of no category in `disable`
/// where that is given, else all.
pub open spec fn filtered_rules(
    patterns: Seq<PatternSpec>,
    only: Option<Seq<PatternCategory>>,
    disable: Option<Seq<PatternCategory>>,
) -> Seq<PatternSpec> {
    match only {
        Some(cs) => patterns.filter(|p: PatternSpec| cs.contains(p.category)),
        None => match disable {
            Some(cs) => patterns.filter(|p: PatternSpec| !cs.contains(p.category)),
            None => patterns,
        },
    }
}

/// Whether `c` is among `cs`.
fn has_category(cs: &Vec<PatternCategory>, c: PatternCategory) -> (r: bool)
    ensures
        r == cs@.contains(c),
{
    let mut i: usize = 0;
    while i < cs.len()
        invariant
            i <= cs.len(),
            forall|j: int| 0 <= j < i ==> cs@[j] != c,
        decreases cs.len() - i,
    {
        if cs[i] == c {
            return true;
        }
        i += 1;
    }
    false
}

/// Copies the rules whose category is, or is not, among `cs`.
fn select_by(patterns: &Vec<Pattern>, cs: &Vec<PatternCategory>, wanted: bool) -> (out: Vec<
    Pattern,
>)
    ensures
        out.deep_view() == patterns.deep_view().filter(
            |p: PatternSpec| cs@.contains(p.category) == wanted,
        ),
{
    let ghost keep = |p: PatternSpec| cs@.contains(p.category) == wanted;
    let ghost all = patterns.deep_view();
    let mut out: Vec<Pattern> = Vec::new();
    let mut i: usize = 0;
    assert(all.take(0).filter(keep) =~= Seq::<PatternSpec>::empty()) by {
        reveal(Seq::filter);
    }
    assert(out.deep_view() =~= Seq::<PatternSpec>::empty());
    while i < patterns.len()
        invariant
            i <= patterns.len(),
            all == patterns.deep_view(),
            keep == |p: PatternSpec| cs@.contains(p.category) == wanted,
            out.deep_view() == all.take(i as int).filter(keep),
        decreases patterns.len() - i,
    {
        let ghost before = out.deep_view();
        proof {
            lemma_filter_step(all, i as int, keep);
            assert(all[i as int] == patterns[i as int].deep_view());
        }
        if has_category(cs, patterns[i].category) == wanted {
            out.push(patterns[i].clone());
            assert(out.deep_view() =~= before.push(patterns[i as int].deep_view()));
        }
        i += 1;
    }
    assert(all.take(i as int) =~= all);
    out
}

/// Applies the choice of categories made on the command line.
pub fn filter_categories(
    patterns: Vec<Pattern>,
    only: Option<&Vec<PatternCategory>>,
    disable: Option<&Vec<PatternCategory>>,
) -> (out: Vec<Pattern>)
    ensures
        out.deep_view() == filtered_rules(
            patterns.deep_view(),
            match only {
                Some(cs) => Some(cs@),
                None => None,
            },
            match disable {
                Some(cs) => Some(cs@),
                None => None,
            },
        ),
{
    match only {
        Some(cs) => {
            let out = select_by(&patterns, cs, true);
            assert((|p: PatternSpec| cs@.contains(p.category) == true) =~= (|p: PatternSpec|
                cs@.contains(p.category)));
            out
        },
        None => match disable {
            Some(cs) => {
                let out = select_by(&patterns, cs, false);
                assert((|p: PatternSpec| cs@.contains(p.category) == false) =~= (|p: PatternSpec|
                    !cs@.contains(p.category)));
                out
            },
            None => patterns,
        },
    }
}

/// What a [`Pattern`] says, as plain values.
pub struct PatternSpec {
    pub regex: Seq<char>,
    pub severity: Severity,
    pub message: Seq<char>,
    pub category: PatternCategory,
    pub ast_query: Option<Seq<char>>,
    pub languages: Seq<Seq<char>>,
}

/// A single slop detection pattern.
#[derive(Debug)]
pub struct Pattern {
    /// Regular expression to match (case-insensitive supported with (?i)).
    pub regex: String,
    /// Severity level for matches.
    pub severity: Severity,
    /// Human-readable description.
    pub message: String,
    /// Category of slop this pattern detects.
    pub category: PatternCategory,
    /// Structural query over the syntax tree, for rules that have one.
    pub ast_query: Option<String>,
    /// Names of the languages the structural query applies to.
    pub languages: Vec<String>,
}

impl DeepView for Pattern {
    type V = PatternSpec;

    open spec fn deep_view(&self) -> PatternSpec {
        PatternSpec {
            regex: self.regex@,
            severity: self.severity,
            message: self.message@,
            category: self.category,
            ast_query: self.ast_query.deep_view(),
            languages: self.languages.deep_view(),
        }
    }
}

impl Clone for Pattern {
    fn clone(&self) -> (r: Self)
        ensures
            r.deep_view() == self.deep_view(),
    {
        Pattern {
            regex: self.regex.clone(),
            severity: self.severity,
            message: self.message.clone(),
            category: self.category,
            ast_query: clone_opt_string(&self.ast_query),
            languages: clone_strings(&self.languages),
        }
    }
}

impl Pattern {
    /// A rule matched against comment text only: no structural query.
    pub fn new(regex: String, severity: Severity, message: String, category: PatternCategory) -> (p:
        Pattern)
        ensures
            p.deep_view() == (PatternSpec {
                regex: regex@,
                severity,
                message: message@,
                category,
                ast_query: None,
                languages: Seq::empty(),
            }),
    {
        let p = Pattern {
            regex,
            severity,
            message,
            category,
            ast_query: None,
            languages: Vec::new(),
        };
        assert(p.languages.deep_view() =~= Seq::<Seq<char>>::empty());
        p
    }
}

/// The rules of `patterns` that belong to `category`, in their order.
pub open spec fn in_category(patterns: Seq<PatternSpec>, category: PatternCategory) -> Seq<
    PatternSpec,
> {
    patterns.filter(|p: PatternSpec| p.category == category)
}

/// Filtering one element further either appends that element or changes nothing.
pub proof fn lemma_filter_step<A>(s: Seq<A>, i: int, keep: spec_fn(A) -> bool)
    requires
        0 <= i < s.len(),
    ensures
        s.take(i + 1).filter(keep) == if keep(s[i]) {
            s.take(i).filter(keep).push(s[i])
        } else {
            s.take(i).filter(keep)
        },
{
    reveal(Seq::filter);
    assert(s.take(i + 1).drop_last() =~= s.take(i));
}

/// The rules that belong to `category`, in their order.
pub fn select_category<'a>(patterns: &'a Vec<Pattern>, category: &PatternCategory) -> (out: Vec<
    &'a Pattern,
>)
    ensures
        out.deep_view() == in_category(patterns.deep_view(), *category),
{
    let mut out: Vec<&'a Pattern> = Vec::new();
    let mut i: usize = 0;
    let ghost keep = |p: PatternSpec| p.category == *category;
    assert(patterns.deep_view().take(0) =~= Seq::<PatternSpec>::empty());
    assert(out.deep_view() =~= Seq::<PatternSpec>::empty());
    while i < patterns.len()
        invariant
            i <= patterns.len(),
            keep == |p: PatternSpec| p.category == *category,
            out.deep_view() == patterns.deep_view().take(i as int).filter(keep),
        decreases patterns.len() - i,
    {
        let ghost before = out.deep_view();
        proof {
            let all = patterns.deep_view();
            lemma_filter_step(all, i as int, keep);
            assert(all[i as int] == patterns[i as int].deep_view());
        }
        if patterns[i].category == *category {
            out.push(&patterns[i]);
            assert(out.deep_view() =~= before.push(patterns[i as int].deep_view()));
        }
        i += 1;
    }
    assert(patterns.deep_view().take(i as int) =~= patterns.deep_view());
    out
}

/// What a [`Config`] holds, as plain values.
pub struct ConfigSpec {
    pub patterns: Seq<PatternSpec>,
    pub exclude: Seq<Seq<char>>,
    pub exclude_patterns: Seq<Seq<char>>,
    pub file_extensions: Seq<Seq<char>>,
    pub max_file_size_kb: u64,
}

/// Main configuration structure.
#[derive(Debug)]
pub struct Config {
    /// Detection patterns.
    pub patterns: Vec<Pattern>,
    /// Glob patterns for paths to exclude.
    pub exclude: Vec<String>,
    /// Additional glob patterns for exclusion.
    pub exclude_patterns: Vec<String>,
    /// File extensions to scan.
    pub file_extensions: Vec<String>,
    /// Maximum file size to scan in KB.
    pub max_file_size_kb: u64,
}

impl DeepView for Config {
    type V = ConfigSpec;

    open spec fn deep_view(&self) -> ConfigSpec {
        ConfigSpec {
            patterns: self.patterns.deep_view(),
            exclude: self.exclude.deep_view(),
            exclude_patterns: self.exclude_patterns.deep_view(),
            file_extensions: self.file_extensions.deep_view(),
            max_file_size_kb: self.max_file_size_kb,
        }
    }
}

/// A rule matched against comment text, as plain values.
pub open spec fn comment_rule(
    regex: Seq<char>,
    severity: Severity,
    message: Seq<char>,
    category: PatternCategory,
) -> PatternSpec {
    PatternSpec { regex, severity, message, category, ast_query: None, languages: Seq::empty() }
}

/// A rule matched against the syntax tree of one language, as plain values.
pub open spec fn structural_rule(
    regex: Seq<char>,
    severity: Severity,
    message: Seq<char>,
    category: PatternCategory,
    query: Seq<char>,
    language: Seq<char>,
) -> PatternSpec {
    PatternSpec {
        regex,
        severity,
        message,
        category,
        ast_query: Some(query),
        languages: seq![language],
    }
}

/// A rule matched against comment text.
fn text_rule(regex: &str, severity: Severity, message: &str, category: PatternCategory) -> (p:
    Pattern)
    ensures
        p.deep_view() == comment_rule(regex@, severity, message@, category),
{
    Pattern::new(regex.to_owned(), severity, message.to_owned(), category)
}

/// A rule matched against the syntax tree of one language.
fn tree_rule(
    regex: &str,
    severity: Severity,
    message: &str,
    category: PatternCategory,
    query: &str,
    language: &str,
) -> (p: Pattern)
    ensures
        p.deep_view() == structural_rule(regex@, severity, message@, category, query@, language@),
{
    let mut languages: Vec<String> = Vec::new();
    languages.push(language.to_owned());
    let p = Pattern {
        regex: regex.to_owned(),
        severity,
        message: message.to_owned(),
        category,
        ast_query: Some(query.to_owned()),
        languages,
    };
    assert(p.languages.deep_view() =~= seq![language@]);
    p
}

/// The built-in rules.
pub open spec fn default_rules() -> Seq<PatternSpec> {
    seq![
        comment_rule(
            "(?i)TODO:"@,
            Severity::Medium,
            "Placeholder comment: TODO"@,
            PatternCategory::Placeholder,
        ),
        comment_rule(
            "(?i)FIXME:"@,
            Severity::Medium,
            "Placeholder comment: FIXME"@,
            PatternCategory::Placeholder,
        ),
        comment_rule(
            "(?i)HACK:"@,
            Severity::Medium,
            "Placeholder comment: HACK"@,
            PatternCategory::Placeholder,
        ),
        comment_rule(
            "(?i)\\bXXX\\b"@,
            Severity::High,
            "Placeholder comment: XXX"@,
            PatternCategory::Placeholder,
        ),
        comment_rule(
            "(?i)NOTE:"@,
            Severity::Low,
            "Placeholder comment: NOTE"@,
            PatternCategory::Placeholder,
        ),
        comment_rule(
            "(?i)for now"@,
            Severity::Low,
            "Deferral: work put off \"for now\""@,
            PatternCategory::Deferral,
        ),
        comment_rule(
            "(?i)temporary"@,
            Severity::Low,
            "Deferral: temporary measure"@,
            PatternCategory::Deferral,
        ),
        comment_rule(
            "(?i)quick implementation"@,
            Severity::Medium,
            "Deferral: quick implementation"@,
            PatternCategory::Deferral,
        ),
        comment_rule(
            "(?i)hopefully"@,
            Severity::Low,
            "Hedging: \"hopefully\""@,
            PatternCategory::Hedging,
        ),
        comment_rule(
            "(?i)should work"@,
            Severity::Low,
            "Hedging: \"should work\""@,
            PatternCategory::Hedging,
        ),
        comment_rule(
            "(?i)this is a simple"@,
            Severity::Low,
            "Hedging: \"this is a simple\""@,
            PatternCategory::Hedging,
        ),
        comment_rule(
            "(?i)not (yet )?implemented"@,
            Severity::High,
            "Stub: not implemented"@,
            PatternCategory::Stub,
        ),
        structural_rule(
            "^(todo|unimplemented)!"@,
            Severity::Critical,
            "Stub: placeholder macro"@,
            PatternCategory::Stub,
            "(macro_invocation) @stub"@,
            "Rust"@,
        ),
        structural_rule(
            "NotImplementedError"@,
            Severity::Critical,
            "Stub: raises NotImplementedError"@,
            PatternCategory::Stub,
            "(raise_statement) @stub"@,
            "Python"@,
        ),
    ]
}

/// The extensions scanned where none are configured.
pub open spec fn default_extension_list() -> Seq<Seq<char>> {
    seq![
        ".rs"@,
        ".py"@,
        ".js"@,
        ".ts"@,
        ".jsx"@,
        ".tsx"@,
        ".go"@,
        ".java"@,
        ".kt"@,
        ".c"@,
        ".cpp"@,
        ".h"@,
        ".hpp"@,
        ".cs"@,
        ".php"@,
        ".rb"@,
        ".swift"@,
        ".dart"@,
    ]
}

/// The configuration used where none is given.
pub open spec fn default_config() -> ConfigSpec {
    ConfigSpec {
        patterns: default_rules(),
        exclude: Seq::empty(),
        exclude_patterns: Seq::empty(),
        file_extensions: default_extension_list(),
        max_file_size_kb: 1024,
    }
}

/// The extensions scanned where none are configured.
pub fn default_extensions() -> (exts: Vec<String>)
    ensures
        exts.deep_view() == default_extension_list(),
{
    let names: Vec<&str> = vec![
        ".rs",
        ".py",
        ".js",
        ".ts",
        ".jsx",
        ".tsx",
        ".go",
        ".java",
        ".kt",
        ".c",
        ".cpp",
        ".h",
        ".hpp",
        ".cs",
        ".php",
        ".rb",
        ".swift",
        ".dart",
    ];
    let mut exts: Vec<String> = Vec::new();
    let mut i: usize = 0;
    while i < names.len()
        invariant
            i <= names.len(),
            exts.len() == i,
            forall|j: int| 0 <= j < i ==> exts[j]@ == names[j]@,
        decreases names.len() - i,
    {
        exts.push(names[i].to_owned());
        i += 1;
    }
    assert(exts.deep_view() =~= default_extension_list());
    exts
}

/// The largest file scanned where no limit is configured, in KB.
pub fn default_max_file_size() -> (kb: u64)
    ensures
        kb == 1024,
{
    1024
}

/// The built-in rules.
pub fn default_patterns() -> (rules: Vec<Pattern>)
    ensures
        rules.deep_view() == default_rules(),
{
    let rules: Vec<Pattern> = vec![
        text_rule(
            "(?i)TODO:",
            Severity::Medium,
            "Placeholder comment: TODO",
            PatternCategory::Placeholder,
        ),
        text_rule(
            "(?i)FIXME:",
            Severity::Medium,
            "Placeholder comment: FIXME",
            PatternCategory::Placeholder,
        ),
        text_rule(
            "(?i)HACK:",
            Severity::Medium,
            "Placeholder comment: HACK",
            PatternCategory::Placeholder,
        ),
        text_rule(
            "(?i)\\bXXX\\b",
            Severity::High,
            "Placeholder comment: XXX",
            PatternCategory::Placeholder,
        ),
        text_rule(
            "(?i)NOTE:",
            Severity::Low,
            "Placeholder comment: NOTE",
            PatternCategory::Placeholder,
        ),
        text_rule(
            "(?i)for now",
            Severity::Low,
            "Deferral: work put off \"for now\"",
            PatternCategory::Deferral,
        ),
        text_rule(
            "(?i)temporary",
            Severity::Low,
            "Deferral: temporary measure",
            PatternCategory::Deferral,
        ),
        text_rule(
            "(?i)quick implementation",
            Severity::Medium,
            "Deferral: quick implementation",
            PatternCategory::Deferral,
        ),
        text_rule(
            "(?i)hopefully",
            Severity::Low,
            "Hedging: \"hopefully\"",
            PatternCategory::Hedging,
        ),
        text_rule(
            "(?i)should work",
            Severity::Low,
            "Hedging: \"should work\"",
            PatternCategory::Hedging,
        ),
        text_rule(
            "(?i)this is a simple",
            Severity::Low,
            "Hedging: \"this is a simple\"",
            PatternCategory::Hedging,
        ),
        text_rule(
            "(?i)not (yet )?implemented",
            Severity::High,
            "Stub: not implemented",
            PatternCategory::Stub,
        ),
        tree_rule(
            "^(todo|unimplemented)!",
            Severity::Critical,
            "Stub: placeholder macro",
            PatternCategory::Stub,
            "(macro_invocation) @stub",
            "Rust",
        ),
        tree_rule(
            "NotImplementedError",
            Severity::Critical,
            "Stub: raises NotImplementedError",
            PatternCategory::Stub,
            "(raise_statement) @stub",
            "Python",
        ),
    ];
    assert(rules.deep_view() =~= default_rules());
    rules
}

impl Default for Config {
    fn default() -> (c: Self)
        ensures
            c.deep_view() == default_config(),
    {
        let c = Config {
            patterns: default_patterns(),
            exclude: Vec::new(),
            exclude_patterns: Vec::new(),
            file_extensions: default_extensions(),
            max_file_size_kb: default_max_file_size(),
        };
        assert(c.exclude.deep_view() =~= Seq::<Seq<char>>::empty());
        assert(c.exclude_patterns.deep_view() =~= Seq::<Seq<char>>::empty());
        c
    }
}

/// Whether the rule at `i` is the first whose regex does not compile.
pub open spec fn first_bad_regex(ps: Seq<PatternSpec>, i: int) -> bool {
    &&& 0 <= i < ps.len()
    &&& !compiles(ps[i].regex)
    &&& forall|j: int| 0 <= j < i ==> compiles(#[trigger] ps[j].regex)
}

/// A regular expression text that is known to compile.
#[derive(Debug)]
pub struct RegexPattern {
    text: String,
}

impl RegexPattern {
    /// The text of the expression.
    pub closed spec fn text(&self) -> Seq<char> {
        self.text@
    }

    /// Accepts a text exactly when it compiles as a regular expression.
    /// Otherwise the error holds the text and the compiler's words.
    pub fn new(text: String) -> (r: Result<Self, Error>)
        ensures
            r is Ok <==> compiles(text@),
            r matches Ok(p) ==> p.text() == text@,
            r matches Err(e) ==> e.deep_view() == ErrorSpec::Regex(
                text@,
                regex_compile(text@)->Err_0,
            ),
    {
        match compile(text.as_str()) {
            Ok(_) => Ok(RegexPattern { text }),
            Err(msg) => Err(Error::Regex(text, msg)),
        }
    }

    /// The text of the expression.
    pub fn as_str(&self) -> (s: &str)
        ensures
            s@ == self.text(),
    {
        self.text.as_str()
    }

    /// The text of the expression, owned.
    pub fn into_string(self) -> (s: String)
        ensures
            s@ == self.text(),
    {
        self.text
    }
}

impl Config {
    /// Validate all regex patterns in the config.
    ///
    /// Succeeds exactly when every regex compiles.  Otherwise the error
    /// holds the first regex that does not, with the compiler's words.
    pub fn validate_patterns(&self) -> (r: Result<(), Error>)
        ensures
            r is Ok <==> forall|j: int|
                0 <= j < self.patterns.len() ==> compiles(
                    #[trigger] self.deep_view().patterns[j].regex,
                ),
            r matches Err(e) ==> exists|i: int| #[trigger]
                first_bad_regex(self.deep_view().patterns, i) && e.deep_view() == ErrorSpec::Regex(
                    self.deep_view().patterns[i].regex,
                    regex_compile(self.deep_view().patterns[i].regex)->Err_0,
                ),
    {
        let ghost ps = self.deep_view().patterns;
        let mut i: usize = 0;
        while i < self.patterns.len()
            invariant
                i <= self.patterns.len(),
                ps == self.patterns.deep_view(),
                forall|j: int| 0 <= j < i ==> compiles(#[trigger] ps[j].regex),
            decreases self.patterns.len() - i,
        {
            let pattern = &self.patterns[i];
            assert(ps[i as int] == pattern.deep_view());
            match compile(pattern.regex.as_str()) {
                Ok(_) => {},
                Err(msg) => {
                    assert(first_bad_regex(ps, i as int));
                    return Err(Error::Regex(pattern.regex.clone(), msg));
                },
            }
            i += 1;
        }
        Ok(())
    }

    /// Get all patterns for a specific category.
    pub fn patterns_for_category(&self, category: &PatternCategory) -> (out: Vec<&Pattern>)
        ensures
            out.deep_view() == in_category(self.deep_view().patterns, *category),
    {
        select_category(&self.patterns, category)
    }
}

} // verus!
