//! Filename convention checking.
//!
//! This module detects naming inconsistencies by learning from the files
//! that it is shown:
//! - it learns the convention of each directory and extension from the files
//!   there, once there are enough of them;
//! - it flags the files that deviate from the convention that prevails;
//! - it flags files that look like copies of a neighbour (`utils_real.rs`
//!   beside `utils.rs`).
//!
//! Philosophy: don't enforce opinions.  Learn what the project does and flag
//! deviations.

use vstd::prelude::*;
use crate::config::{Pattern, PatternCategory, PatternSpec, Severity};
use crate::detector::language::{extension_of, file_name_of, file_stem_of, parent_of, path_parts};
use crate::detector::{Finding, FindingSpec};
use crate::config::lemma_filter_step;
use crate::rx::{capture_group, compile, compiles, find, matches_in, regex_compile, regex_group};
use crate::text::{
    contains_string, contains_sub, ends_with, find_char, from_chars, has_prefix, has_string,
    has_suffix, lead, lemma_contains_step, lowercase_letter, lowercase_of, replace_all, replaced,
    starts_with, str_contains, str_eq, to_chars, trim, trim_of, uppercase_letter,
};

verus! {

/// Configuration for filename checking behavior.
#[derive(Debug, Clone, Copy, PartialEq, Eq, Structural)]
pub struct FilenameCheckConfig {
    /// If true, check for duplicate-like filenames (file_real.rs when file.rs exists)
    pub check_duplicates: bool,
    /// Minimum files required to establish a naming convention
    pub min_files_for_convention: usize,
    /// The share of a group's files, in thousandths, that must follow one
    /// convention before deviations from it are flagged: 700 means 70%.
    pub convention_threshold: u32,
}

/// The configuration that checks nothing but conventions, asks for no
/// number of files and sets no threshold.
pub open spec fn plain_config() -> FilenameCheckConfig {
    FilenameCheckConfig {
        check_duplicates: false,
        min_files_for_convention: 0,
        convention_threshold: 0,
    }
}

impl Default for FilenameCheckConfig {
    fn default() -> (c: Self)
        ensures
            c == plain_config(),
    {
        FilenameCheckConfig {
            check_duplicates: false,
            min_files_for_convention: 0,
            convention_threshold: 0,
        }
    }
}

/// Naming convention type detected in a filename.
#[derive(Debug, Clone, Copy, PartialEq, Eq, Hash, Structural)]
pub enum NamingConvention {
    /// snake_case (e.g., my_file_name.rs)
    SnakeCase,
    /// camelCase (e.g., myFileName.rs)
    CamelCase,
    /// PascalCase (e.g., MyFileName.rs)
    PascalCase,
    /// kebab-case (e.g., my-file-name.rs)
    KebabCase,
    /// Unknown or mixed convention
    Unknown,
}

/// Whether a character is a decimal digit.
pub open spec fn is_digit(c: char) -> bool {
    '0' <= c && c <= '9'
}

/// Whether a character is a lower-case letter or a digit.
pub open spec fn lower_or_digit(c: char) -> bool {
    lowercase_letter(c) || is_digit(c)
}

/// Whether a character is an upper-case letter or a digit.
pub open spec fn upper_or_digit(c: char) -> bool {
    uppercase_letter(c) || is_digit(c)
}

/// Whether the text holds an upper-case letter.
pub open spec fn has_upper(s: Seq<char>) -> bool {
    exists|i: int| 0 <= i < s.len() && uppercase_letter(#[trigger] s[i])
}

/// The convention that a stem follows.  The stem is trimmed first.  A
/// hyphen makes it kebab-case.  An underscore makes it snake_case where
/// everything else is lower-case letters and digits.  Of two or more
/// characters with an upper-case letter among them, a lower-case start makes
/// camelCase and an upper-case start PascalCase.  Otherwise all lower-case
/// letters and digits count as snake_case, all upper-case letters and digits
/// as PascalCase, and anything else is unknown.
pub open spec fn convention_of(stem: Seq<char>) -> NamingConvention {
    let s = trim_of(stem);
    if s.contains('-') {
        NamingConvention::KebabCase
    } else if s.contains('_') && (forall|i: int|
        0 <= i < s.len() ==> #[trigger] s[i] == '_' || lower_or_digit(s[i])) {
        NamingConvention::SnakeCase
    } else if s.len() > 1 && has_upper(s) && lowercase_letter(s[0]) {
        NamingConvention::CamelCase
    } else if s.len() > 1 && has_upper(s) && uppercase_letter(s[0]) {
        NamingConvention::PascalCase
    } else if forall|i: int| 0 <= i < s.len() ==> lower_or_digit(#[trigger] s[i]) {
        NamingConvention::SnakeCase
    } else if forall|i: int| 0 <= i < s.len() ==> upper_or_digit(#[trigger] s[i]) {
        NamingConvention::PascalCase
    } else {
        NamingConvention::Unknown
    }
}

/// The convention that is usual for files of an extension, where one is.
pub open spec fn expected_convention(extension: Seq<char>) -> Option<NamingConvention> {
    if extension == "py"@ || extension == "rs"@ || extension == "go"@ {
        Some(NamingConvention::SnakeCase)
    } else if extension == "java"@ || extension == "cs"@ {
        Some(NamingConvention::PascalCase)
    } else {
        None
    }
}

impl NamingConvention {
    /// The name of this convention as it is written in code.
    pub open spec fn debug_name(self) -> Seq<char> {
        match self {
            NamingConvention::SnakeCase => "SnakeCase"@,
            NamingConvention::CamelCase => "CamelCase"@,
            NamingConvention::PascalCase => "PascalCase"@,
            NamingConvention::KebabCase => "KebabCase"@,
            NamingConvention::Unknown => "Unknown"@,
        }
    }

    /// The name of this convention as it is written in code.
    pub fn name(&self) -> (s: &'static str)
        ensures
            s@ == self.debug_name(),
    {
        match self {
            NamingConvention::SnakeCase => "SnakeCase",
            NamingConvention::CamelCase => "CamelCase",
            NamingConvention::PascalCase => "PascalCase",
            NamingConvention::KebabCase => "KebabCase",
            NamingConvention::Unknown => "Unknown",
        }
    }

    /// Detect the naming convention from a filename stem (without extension).
    pub fn detect(stem: &str) -> (c: Self)
        ensures
            c == convention_of(stem@),
    {
        let trimmed = trim(stem);
        let cs = to_chars(trimmed.as_str());
        let ghost s = cs@;
        let mut dash = false;
        let mut underscore = false;
        let mut snake = true;
        let mut upper = false;
        let mut all_lower = true;
        let mut all_upper = true;
        let mut i: usize = 0;
        while i < cs.len()
            invariant
                i <= cs.len(),
                s == cs@,
                dash == s.take(i as int).contains('-'),
                underscore == s.take(i as int).contains('_'),
                snake == (forall|j: int|
                    0 <= j < i ==> #[trigger] s[j] == '_' || lower_or_digit(s[j])),
                upper == (exists|j: int| 0 <= j < i && uppercase_letter(#[trigger] s[j])),
                all_lower == (forall|j: int| 0 <= j < i ==> lower_or_digit(#[trigger] s[j])),
                all_upper == (forall|j: int| 0 <= j < i ==> upper_or_digit(#[trigger] s[j])),
            decreases cs.len() - i,
        {
            let c = cs[i];
            proof {
                lemma_contains_step(s, i as int, '-');
                lemma_contains_step(s, i as int, '_');
            }
            let digit = '0' <= c && c <= '9';
            let low = c.is_lowercase();
            let up = c.is_uppercase();
            if c == '-' {
                dash = true;
            }
            if c == '_' {
                underscore = true;
            }
            if !(c == '_' || low || digit) {
                snake = false;
            }
            if up {
                upper = true;
            }
            if !(low || digit) {
                all_lower = false;
            }
            if !(up || digit) {
                all_upper = false;
            }
            i += 1;
        }
        assert(s.take(i as int) =~= s);
        if dash {
            return NamingConvention::KebabCase;
        }
        if underscore && snake {
            return NamingConvention::SnakeCase;
        }
        if cs.len() > 1 {
            if upper && cs[0].is_lowercase() {
                return NamingConvention::CamelCase;
            }
            if upper && cs[0].is_uppercase() {
                return NamingConvention::PascalCase;
            }
        }
        if all_lower {
            return NamingConvention::SnakeCase;
        }
        if all_upper {
            return NamingConvention::PascalCase;
        }
        NamingConvention::Unknown
    }

    /// Returns the expected convention for a language based on common standards.
    /// This is a weak hint - actual project convention takes precedence.
    pub fn expected_for_language(extension: &str) -> (c: Option<Self>)
        ensures
            c == expected_convention(extension@),
    {
        if str_eq(extension, "py") || str_eq(extension, "rs") || str_eq(extension, "go") {
            Some(NamingConvention::SnakeCase)
        } else if str_eq(extension, "java") || str_eq(extension, "cs") {
            Some(NamingConvention::PascalCase)
        } else {
            None
        }
    }
}

/// What a [`FileGroup`] holds, as plain values.
pub struct GroupSpec {
    pub extension: Seq<char>,
    pub directory: Seq<char>,
}

/// A group of files for convention analysis.
#[derive(Debug)]
pub struct FileGroup {
    /// File extension (with dot, e.g., ".rs")
    pub extension: String,
    /// Parent directory path
    pub directory: String,
}

impl DeepView for FileGroup {
    type V = GroupSpec;

    open spec fn deep_view(&self) -> GroupSpec {
        GroupSpec { extension: self.extension@, directory: self.directory@ }
    }
}

/// The group that a path belongs to.  A path without an extension belongs
/// to none, nor does one whose stem holds `test`, `spec` or `mock`: such
/// files often have names of their own kind.
pub open spec fn group_of(path: Seq<char>) -> Option<GroupSpec> {
    let stem = file_stem_of(path);
    if extension_of(path) is None || contains_sub(stem, "test"@) || contains_sub(stem, "spec"@)
        || contains_sub(stem, "mock"@) || parent_of(path) is None {
        None
    } else {
        Some(
            GroupSpec {
                extension: seq!['.'] + extension_of(path)->0,
                directory: parent_of(path)->0,
            },
        )
    }
}

impl FileGroup {
    /// Create a file group from a path.
    pub fn from_path(path: &str) -> (g: Option<Self>)
        ensures
            g.deep_view() == group_of(path@),
    {
        let parts = path_parts(path);
        let ext = match parts.extension {
            Some(e) => e,
            None => {
                return None;
            },
        };
        if str_contains(parts.stem.as_str(), "test") || str_contains(parts.stem.as_str(), "spec")
            || str_contains(parts.stem.as_str(), "mock") {
            return None;
        }
        let directory = match parts.directory {
            Some(d) => d,
            None => {
                return None;
            },
        };
        let mut extension = String::new();
        extension.push('.');
        extension.push_str(ext.as_str());
        assert(extension@ =~= seq!['.'] + ext@);
        Some(FileGroup { extension, directory })
    }
}

/// The names of the files that configure a formatter or a linter.
pub open spec fn tooling_configs() -> Seq<Seq<char>> {
    seq![
        ".prettierrc"@,
        ".prettierrc.json"@,
        ".prettierrc.yaml"@,
        ".prettierrc.yml"@,
        "prettier.config.js"@,
        ".eslintrc"@,
        ".eslintrc.json"@,
        ".eslintrc.yml"@,
        "pyproject.toml"@,
        "setup.cfg"@,
        ".flake8"@,
        "rustfmt.toml"@,
        ".rustfmt.toml"@,
        "pylintrc"@,
        ".gofmt"@,
    ]
}

/// Whether a file name is that of a tooling configuration.
pub fn is_tooling_config(name: &str) -> (r: bool)
    ensures
        r == has_string(tooling_configs(), name@),
{
    let names: Vec<&str> = vec![
        ".prettierrc",
        ".prettierrc.json",
        ".prettierrc.yaml",
        ".prettierrc.yml",
        "prettier.config.js",
        ".eslintrc",
        ".eslintrc.json",
        ".eslintrc.yml",
        "pyproject.toml",
        "setup.cfg",
        ".flake8",
        "rustfmt.toml",
        ".rustfmt.toml",
        "pylintrc",
        ".gofmt",
    ];
    assert(names.deep_view() =~= tooling_configs());
    let mut i: usize = 0;
    while i < names.len()
        invariant
            i <= names.len(),
            names.deep_view() == tooling_configs(),
            forall|j: int| 0 <= j < i ==> #[trigger] tooling_configs()[j] != name@,
        decreases names.len() - i,
    {
        assert(names.deep_view()[i as int] == names[i as int]@);
        if str_eq(names[i], name) {
            return true;
        }
        i += 1;
    }
    false
}

/// What a [`GroupedFiles`] holds, as plain values.
pub struct GroupedSpec {
    pub group: GroupSpec,
    pub files: Seq<Seq<char>>,
}

/// The files of one group, in the order in which they were added.
#[derive(Debug)]
pub struct GroupedFiles {
    pub group: FileGroup,
    pub files: Vec<String>,
}

impl DeepView for GroupedFiles {
    type V = GroupedSpec;

    open spec fn deep_view(&self) -> GroupedSpec {
        GroupedSpec { group: self.group.deep_view(), files: self.files.deep_view() }
    }
}

/// What a [`FilenameChecker`] holds, as plain values.
pub struct CheckerSpec {
    pub grouped_files: Seq<GroupedSpec>,
    pub all_files: Seq<Seq<char>>,
    pub config: FilenameCheckConfig,
    pub tooling_configs: Seq<Seq<char>>,
    pub duplicate_suffixes: Seq<Seq<char>>,
    pub duplicate_prefixes: Seq<Seq<char>>,
}

/// Filename convention analyzer.
#[derive(Debug)]
pub struct FilenameChecker {
    /// Files grouped by extension and directory for convention analysis, the
    /// groups in the order in which their first file was added.
    pub grouped_files: Vec<GroupedFiles>,
    /// All file paths for duplicate checking.
    pub all_files: Vec<String>,
    /// Configuration for checking behavior.
    pub config: FilenameCheckConfig,
    /// Detected tooling configuration files, each name once.
    pub tooling_configs: Vec<String>,
    /// Suffix patterns for duplicate detection.
    pub duplicate_suffixes: Vec<String>,
    /// Prefix patterns for duplicate detection.
    pub duplicate_prefixes: Vec<String>,
}

impl DeepView for FilenameChecker {
    type V = CheckerSpec;

    open spec fn deep_view(&self) -> CheckerSpec {
        CheckerSpec {
            grouped_files: self.grouped_files.deep_view(),
            all_files: self.all_files.deep_view(),
            config: self.config,
            tooling_configs: self.tooling_configs.deep_view(),
            duplicate_suffixes: self.duplicate_suffixes.deep_view(),
            duplicate_prefixes: self.duplicate_prefixes.deep_view(),
        }
    }
}

/// Whether the group at `i` is the first that is `g`.
pub open spec fn first_of_group(groups: Seq<GroupedSpec>, g: GroupSpec, i: int) -> bool {
    &&& 0 <= i < groups.len()
    &&& groups[i].group == g
    &&& forall|j: int| 0 <= j < i ==> (#[trigger] groups[j]).group != g
}

/// Whether no group is `g`.
pub open spec fn no_group(groups: Seq<GroupedSpec>, g: GroupSpec) -> bool {
    forall|j: int| 0 <= j < groups.len() ==> (#[trigger] groups[j]).group != g
}

/// The groups after a file of the group `g` was added: the file joins the
/// files of its group, or begins the group behind the others.
pub open spec fn grouped_with(
    before: Seq<GroupedSpec>,
    g: GroupSpec,
    path: Seq<char>,
    after: Seq<GroupedSpec>,
) -> bool {
    ||| (exists|i: int| #[trigger]
        first_of_group(before, g, i) && after == before.update(
            i,
            GroupedSpec { group: g, files: before[i].files.push(path) },
        ))
    ||| (no_group(before, g) && after == before.push(
        GroupedSpec { group: g, files: seq![path] },
    ))
}

/// The tooling configurations known after a file was added.
pub open spec fn tooling_with(before: Seq<Seq<char>>, path: Seq<char>) -> Seq<Seq<char>> {
    let name = file_name_of(path);
    if has_string(tooling_configs(), name) && !has_string(before, name) {
        before.push(name)
    } else {
        before
    }
}

/// How many of `cs` are the convention `c`.
pub open spec fn count_of(cs: Seq<NamingConvention>, c: NamingConvention) -> nat
    decreases cs.len(),
{
    if cs.len() == 0 {
        0
    } else {
        count_of(cs.drop_last(), c) + if cs.last() == c {
            1nat
        } else {
            0nat
        }
    }
}

/// The conventions of the stems of some files.
pub open spec fn conventions_of(files: Seq<Seq<char>>) -> Seq<NamingConvention> {
    Seq::new(files.len(), |i: int| convention_of(file_stem_of(files[i])))
}

/// Whether a convention that `count` of `total` files follow prevails: some
/// file follows it, and their share is at least `threshold` thousandths.
pub open spec fn prevails(count: nat, total: nat, threshold: u32) -> bool {
    count >= 1 && count * 1000 >= threshold * total
}

/// The convention that prevails among `cs`: the first, in the order snake,
/// camel, Pascal, kebab, unknown, whose share reaches the threshold.
pub open spec fn dominant_of(cs: Seq<NamingConvention>, threshold: u32) -> Option<
    NamingConvention,
> {
    if prevails(count_of(cs, NamingConvention::SnakeCase), cs.len(), threshold) {
        Some(NamingConvention::SnakeCase)
    } else if prevails(count_of(cs, NamingConvention::CamelCase), cs.len(), threshold) {
        Some(NamingConvention::CamelCase)
    } else if prevails(count_of(cs, NamingConvention::PascalCase), cs.len(), threshold) {
        Some(NamingConvention::PascalCase)
    } else if prevails(count_of(cs, NamingConvention::KebabCase), cs.len(), threshold) {
        Some(NamingConvention::KebabCase)
    } else if prevails(count_of(cs, NamingConvention::Unknown), cs.len(), threshold) {
        Some(NamingConvention::Unknown)
    } else {
        None
    }
}

/// What is said of a file that breaks the convention: the sentence in lower
/// case, with the conventions then written in their own style.
pub open spec fn break_message(path: Seq<char>, found: NamingConvention, usual: NamingConvention)
    -> Seq<char> {
    let sentence = "Naming inconsistency: '"@ + file_name_of(path) + "' uses "@
        + found.debug_name() + " but project uses "@ + usual.debug_name();
    replaced(
        replaced(
            replaced(
                replaced(lowercase_of(sentence), "snakecase"@, "snake_case"@),
                "camelcase"@,
                "camelCase"@,
            ),
            "pascalcase"@,
            "PascalCase"@,
        ),
        "kebabcase"@,
        "kebab-case"@,
    )
}

/// The finding for a file that breaks the convention of its group.
pub open spec fn break_finding(path: Seq<char>, found: NamingConvention, usual: NamingConvention)
    -> FindingSpec {
    FindingSpec {
        file: path,
        line: 1,
        column: 1,
        severity: Severity::Medium,
        category: PatternCategory::NamingConvention,
        message: break_message(path, found, usual),
        match_text: path,
        pattern_regex: "naming_convention"@,
    }
}

/// The findings among the first `n` files of a group whose convention is
/// `usual`: one for each file with another convention that is known.
pub open spec fn breaks_in(files: Seq<Seq<char>>, usual: NamingConvention, n: nat) -> Seq<
    FindingSpec,
>
    decreases n,
{
    if n == 0 || n > files.len() {
        Seq::empty()
    } else {
        let path = files[n - 1];
        let found = convention_of(file_stem_of(path));
        breaks_in(files, usual, (n - 1) as nat) + if found != usual && found
            != NamingConvention::Unknown {
            seq![break_finding(path, found, usual)]
        } else {
            Seq::<FindingSpec>::empty()
        }
    }
}

/// The findings of one group.  A group with fewer files than the
/// configuration asks for, or without a prevailing convention, has none.
pub open spec fn group_breaks(files: Seq<Seq<char>>, config: FilenameCheckConfig) -> Seq<
    FindingSpec,
> {
    if files.len() < config.min_files_for_convention || files.len() == 0 {
        Seq::empty()
    } else {
        match dominant_of(conventions_of(files), config.convention_threshold) {
            Some(usual) => breaks_in(files, usual, files.len()),
            None => Seq::empty(),
        }
    }
}

/// The findings of all groups, group after group.
pub open spec fn convention_breaks(groups: Seq<GroupedSpec>, config: FilenameCheckConfig) -> Seq<
    FindingSpec,
>
    decreases groups.len(),
{
    if groups.len() == 0 {
        Seq::empty()
    } else {
        convention_breaks(groups.drop_last(), config) + group_breaks(groups.last().files, config)
    }
}

/// Whether `count` of `total` files reach the threshold.
fn reaches(count: usize, total: usize, threshold: u32) -> (r: bool)
    ensures
        r == prevails(count as nat, total as nat, threshold),
{
    if count == 0 {
        return false;
    }
    let have: u128 = (count as u128) * 1000;
    assert((threshold as int) * (total as int) <= 0xFFFF_FFFF * 0xFFFF_FFFF_FFFF_FFFF)
        by (nonlinear_arith)
        requires
            0 <= threshold as int <= 0xFFFF_FFFF,
            0 <= total as int <= 0xFFFF_FFFF_FFFF_FFFF,
    ;
    let need: u128 = (threshold as u128) * (total as u128);
    have >= need
}

/// How many of `cs` are the convention `c`.
fn count_convention(cs: &Vec<NamingConvention>, c: NamingConvention) -> (n: usize)
    ensures
        n == count_of(cs@, c),
{
    let mut n: usize = 0;
    let mut i: usize = 0;
    assert(cs@.take(0) =~= Seq::<NamingConvention>::empty());
    while i < cs.len()
        invariant
            i <= cs.len(),
            n <= i,
            n == count_of(cs@.take(i as int), c),
        decreases cs.len() - i,
    {
        assert(cs@.take(i + 1).drop_last() =~= cs@.take(i as int));
        if cs[i] == c {
            n += 1;
        }
        i += 1;
    }
    assert(cs@.take(i as int) =~= cs@);
    n
}

/// The convention that prevails among `cs`.
fn dominant(cs: &Vec<NamingConvention>, threshold: u32) -> (d: Option<NamingConvention>)
    ensures
        d == dominant_of(cs@, threshold),
{
    let total = cs.len();
    if reaches(count_convention(cs, NamingConvention::SnakeCase), total, threshold) {
        Some(NamingConvention::SnakeCase)
    } else if reaches(count_convention(cs, NamingConvention::CamelCase), total, threshold) {
        Some(NamingConvention::CamelCase)
    } else if reaches(count_convention(cs, NamingConvention::PascalCase), total, threshold) {
        Some(NamingConvention::PascalCase)
    } else if reaches(count_convention(cs, NamingConvention::KebabCase), total, threshold) {
        Some(NamingConvention::KebabCase)
    } else if reaches(count_convention(cs, NamingConvention::Unknown), total, threshold) {
        Some(NamingConvention::Unknown)
    } else {
        None
    }
}

/// The finding for a file that breaks the convention of its group.
fn convention_break(path: &str, found: NamingConvention, usual: NamingConvention) -> (f: Finding)
    ensures
        f.deep_view() == break_finding(path@, found, usual),
{
    let parts = path_parts(path);
    let mut sentence = "Naming inconsistency: '".to_owned();
    sentence.push_str(parts.name.as_str());
    sentence.push_str("' uses ");
    sentence.push_str(found.name());
    sentence.push_str(" but project uses ");
    sentence.push_str(usual.name());
    let lowered = sentence.as_str().to_lowercase();
    let a = replace_all(lowered.as_str(), "snakecase", "snake_case");
    let b = replace_all(a.as_str(), "camelcase", "camelCase");
    let c = replace_all(b.as_str(), "pascalcase", "PascalCase");
    let message = replace_all(c.as_str(), "kebabcase", "kebab-case");
    Finding {
        file: path.to_owned(),
        line: 1,
        column: 1,
        severity: Severity::Medium,
        category: PatternCategory::NamingConvention,
        message,
        match_text: path.to_owned(),
        pattern_regex: "naming_convention".to_owned(),
    }
}

/// Appends the findings of one group.
fn check_group(files: &Vec<String>, config: &FilenameCheckConfig, findings: &mut Vec<Finding>)
    ensures
        final(findings).deep_view() == old(findings).deep_view() + group_breaks(
            files.deep_view(),
            *config,
        ),
{
    let ghost start = findings.deep_view();
    let ghost fs = files.deep_view();
    assert(start + Seq::<FindingSpec>::empty() =~= start);
    if files.len() < config.min_files_for_convention || files.len() == 0 {
        return ;
    }
    let mut conventions: Vec<NamingConvention> = Vec::new();
    let mut i: usize = 0;
    while i < files.len()
        invariant
            i <= files.len(),
            fs == files.deep_view(),
            conventions.len() == i,
            forall|j: int| 0 <= j < i ==> conventions[j] == convention_of(file_stem_of(fs[j])),
        decreases files.len() - i,
    {
        let parts = path_parts(files[i].as_str());
        assert(fs[i as int] == files[i as int]@);
        conventions.push(NamingConvention::detect(parts.stem.as_str()));
        i += 1;
    }
    assert(conventions@ =~= conventions_of(fs));
    let usual = match dominant(&conventions, config.convention_threshold) {
        Some(c) => c,
        None => {
            return ;
        },
    };
    let mut k: usize = 0;
    while k < files.len()
        invariant
            k <= files.len(),
            fs == files.deep_view(),
            conventions@ == conventions_of(fs),
            findings.deep_view() == start + breaks_in(fs, usual, k as nat),
        decreases files.len() - k,
    {
        let ghost before = findings.deep_view();
        let ghost done = breaks_in(fs, usual, k as nat);
        let found = conventions[k];
        assert(fs[k as int] == files[k as int]@);
        if found != usual && found != NamingConvention::Unknown {
            let f = convention_break(files[k].as_str(), found, usual);
            findings.push(f);
            proof {
                assert(findings.deep_view() =~= before.push(f.deep_view()));
                assert(before.push(f.deep_view()) =~= start + (done + seq![f.deep_view()]));
            }
        } else {
            assert(start + (done + Seq::<FindingSpec>::empty()) =~= before);
        }
        k += 1;
    }
}

/// The directories of some files, each once, in the order in which a file
/// of theirs comes first.
pub open spec fn dirs_of(files: Seq<Seq<char>>) -> Seq<Seq<char>>
    decreases files.len(),
{
    if files.len() == 0 {
        Seq::empty()
    } else {
        let dirs = dirs_of(files.drop_last());
        let path = files.last();
        match parent_of(path) {
            Some(dir) => if has_string(dirs, dir) {
                dirs
            } else {
                dirs.push(dir)
            },
            None => dirs,
        }
    }
}

/// The files of one directory, in their order.
pub open spec fn files_in(files: Seq<Seq<char>>, dir: Seq<char>) -> Seq<Seq<char>> {
    files.filter(|p: Seq<char>| parent_of(p) == Some(dir))
}

/// The stems and extensions of those files that have an extension.
pub open spec fn stems_of(files: Seq<Seq<char>>) -> Seq<(Seq<char>, Seq<char>)>
    decreases files.len(),
{
    if files.len() == 0 {
        Seq::empty()
    } else if extension_of(files.last()) is Some {
        stems_of(files.drop_last()).push(
            (file_stem_of(files.last()), extension_of(files.last())->0),
        )
    } else {
        stems_of(files.drop_last())
    }
}

/// Whether another file of the directory has the stem `base` and the
/// extension `ext`.
pub open spec fn base_exists(
    stems: Seq<(Seq<char>, Seq<char>)>,
    base: Seq<char>,
    stem: Seq<char>,
    ext: Seq<char>,
) -> bool {
    exists|i: int|
        0 <= i < stems.len() && (#[trigger] stems[i]).0 == base && stems[i].1 == ext && stems[i].0
            != stem
}

/// The first of `files` whose path holds `stem`; empty where none does.
pub open spec fn holder_of(files: Seq<Seq<char>>, stem: Seq<char>) -> Seq<char>
    decreases files.len(),
{
    if files.len() == 0 {
        Seq::empty()
    } else if contains_sub(files[0], stem) {
        files[0]
    } else {
        holder_of(files.drop_first(), stem)
    }
}

/// The first of `pats`, in lower case, with which `stem` ends.
pub open spec fn first_ending(stem: Seq<char>, pats: Seq<Seq<char>>) -> Option<Seq<char>>
    decreases pats.len(),
{
    if pats.len() == 0 {
        None
    } else if ends_with(stem, lowercase_of(pats[0])) {
        Some(lowercase_of(pats[0]))
    } else {
        first_ending(stem, pats.drop_first())
    }
}

/// The first of `pats`, in lower case, with which `stem` starts.
pub open spec fn first_beginning(stem: Seq<char>, pats: Seq<Seq<char>>) -> Option<Seq<char>>
    decreases pats.len(),
{
    if pats.len() == 0 {
        None
    } else if starts_with(stem, lowercase_of(pats[0])) {
        Some(lowercase_of(pats[0]))
    } else {
        first_beginning(stem, pats.drop_first())
    }
}

/// The finding for a file that looks like a copy of a neighbour.
pub open spec fn duplicate_finding(
    files: Seq<Seq<char>>,
    stem: Seq<char>,
    ext: Seq<char>,
    first: Seq<char>,
    second: Seq<char>,
) -> FindingSpec {
    FindingSpec {
        file: holder_of(files, stem),
        line: 1,
        column: 1,
        severity: Severity::High,
        category: PatternCategory::NamingConvention,
        message: "Potential duplicate: '"@ + first + ext + "' exists alongside '"@ + second + ext
            + "'"@,
        match_text: stem + "."@ + ext,
        pattern_regex: "duplicate_file"@,
    }
}

/// The finding for a stem that ends with a duplicate suffix: one where the
/// stem without the suffix is the stem of a neighbour.  Only the first
/// suffix with which the stem ends, both in lower case, is looked at.
pub open spec fn suffix_finding(
    files: Seq<Seq<char>>,
    stem: Seq<char>,
    ext: Seq<char>,
    suffixes: Seq<Seq<char>>,
) -> Seq<FindingSpec> {
    let lower = lowercase_of(stem);
    match first_ending(lower, suffixes) {
        Some(suffix) => {
            let base = lower.take(lower.len() - suffix.len());
            if base_exists(stems_of(files), base, stem, ext) {
                seq![duplicate_finding(files, stem, ext, base, stem)]
            } else {
                Seq::empty()
            }
        },
        None => Seq::empty(),
    }
}

/// The finding for a stem that starts with a duplicate prefix: one where
/// the stem without the prefix is the stem of a neighbour.
pub open spec fn prefix_finding(
    files: Seq<Seq<char>>,
    stem: Seq<char>,
    ext: Seq<char>,
    prefixes: Seq<Seq<char>>,
) -> Seq<FindingSpec> {
    let lower = lowercase_of(stem);
    match first_beginning(lower, prefixes) {
        Some(prefix) => {
            let base = lower.skip(prefix.len() as int);
            if base_exists(stems_of(files), base, stem, ext) {
                seq![duplicate_finding(files, stem, ext, stem, base)]
            } else {
                Seq::empty()
            }
        },
        None => Seq::empty(),
    }
}

/// The findings for the first `n` stems of a directory: for each stem the
/// one for its suffix, then the one for its prefix.
pub open spec fn stem_findings(
    files: Seq<Seq<char>>,
    n: nat,
    suffixes: Seq<Seq<char>>,
    prefixes: Seq<Seq<char>>,
) -> Seq<FindingSpec>
    decreases n,
{
    let stems = stems_of(files);
    if n == 0 || n > stems.len() {
        Seq::empty()
    } else {
        stem_findings(files, (n - 1) as nat, suffixes, prefixes) + suffix_finding(
            files,
            stems[n - 1].0,
            stems[n - 1].1,
            suffixes,
        ) + prefix_finding(files, stems[n - 1].0, stems[n - 1].1, prefixes)
    }
}

/// The findings for the first `n` directories.
pub open spec fn duplicates_in(
    files: Seq<Seq<char>>,
    n: nat,
    suffixes: Seq<Seq<char>>,
    prefixes: Seq<Seq<char>>,
) -> Seq<FindingSpec>
    decreases n,
{
    let dirs = dirs_of(files);
    if n == 0 || n > dirs.len() {
        Seq::empty()
    } else {
        let here = files_in(files, dirs[n - 1]);
        duplicates_in(files, (n - 1) as nat, suffixes, prefixes) + stem_findings(
            here,
            stems_of(here).len(),
            suffixes,
            prefixes,
        )
    }
}

/// The findings for files that look like copies of a neighbour: directory
/// after directory, and in a directory file after file.
pub open spec fn duplicate_findings(
    files: Seq<Seq<char>>,
    suffixes: Seq<Seq<char>>,
    prefixes: Seq<Seq<char>>,
) -> Seq<FindingSpec> {
    duplicates_in(files, dirs_of(files).len(), suffixes, prefixes)
}

/// The directories of some files, each once.
fn directories(files: &Vec<String>) -> (dirs: Vec<String>)
    ensures
        dirs.deep_view() == dirs_of(files.deep_view()),
{
    let ghost fs = files.deep_view();
    let mut dirs: Vec<String> = Vec::new();
    let mut i: usize = 0;
    assert(fs.take(0) =~= Seq::<Seq<char>>::empty());
    assert(dirs.deep_view() =~= Seq::<Seq<char>>::empty());
    while i < files.len()
        invariant
            i <= files.len(),
            fs == files.deep_view(),
            dirs.deep_view() == dirs_of(fs.take(i as int)),
        decreases files.len() - i,
    {
        let ghost before = dirs.deep_view();
        proof {
            assert(fs.take(i + 1).drop_last() =~= fs.take(i as int));
            assert(fs.take(i + 1).last() == files[i as int]@);
        }
        let parts = path_parts(files[i].as_str());
        match parts.directory {
            Some(dir) => {
                if !contains_string(&dirs, dir.as_str()) {
                    dirs.push(dir);
                    assert(dirs.deep_view() =~= before.push(parent_of(files[i as int]@)->0));
                }
            },
            None => {},
        }
        i += 1;
    }
    assert(fs.take(i as int) =~= fs);
    dirs
}

/// The files of one directory.
fn files_of_directory(files: &Vec<String>, dir: &str) -> (here: Vec<String>)
    ensures
        here.deep_view() == files_in(files.deep_view(), dir@),
{
    let ghost fs = files.deep_view();
    let ghost keep = |p: Seq<char>| parent_of(p) == Some(dir@);
    let mut here: Vec<String> = Vec::new();
    let mut i: usize = 0;
    assert(fs.take(0).filter(keep) =~= Seq::<Seq<char>>::empty()) by {
        reveal(Seq::filter);
    }
    assert(here.deep_view() =~= Seq::<Seq<char>>::empty());
    while i < files.len()
        invariant
            i <= files.len(),
            fs == files.deep_view(),
            keep == |p: Seq<char>| parent_of(p) == Some(dir@),
            here.deep_view() == fs.take(i as int).filter(keep),
        decreases files.len() - i,
    {
        let ghost before = here.deep_view();
        proof {
            lemma_filter_step(fs, i as int, keep);
            assert(fs[i as int] == files[i as int]@);
        }
        let parts = path_parts(files[i].as_str());
        let inside = match &parts.directory {
            Some(d) => str_eq(d.as_str(), dir),
            None => false,
        };
        if inside {
            here.push(files[i].clone());
            assert(here.deep_view() =~= before.push(files[i as int]@));
        }
        i += 1;
    }
    assert(fs.take(i as int) =~= fs);
    here
}

/// A stem with its extension.
#[derive(Debug)]
pub struct StemAndExtension {
    pub stem: String,
    pub extension: String,
}

impl DeepView for StemAndExtension {
    type V = (Seq<char>, Seq<char>);

    open spec fn deep_view(&self) -> (Seq<char>, Seq<char>) {
        (self.stem@, self.extension@)
    }
}

/// The stems and extensions of those files that have an extension.
fn stems(files: &Vec<String>) -> (out: Vec<StemAndExtension>)
    ensures
        out.deep_view() == stems_of(files.deep_view()),
{
    let ghost fs = files.deep_view();
    let mut out: Vec<StemAndExtension> = Vec::new();
    let mut i: usize = 0;
    assert(fs.take(0) =~= Seq::<Seq<char>>::empty());
    assert(out.deep_view() =~= Seq::<(Seq<char>, Seq<char>)>::empty());
    while i < files.len()
        invariant
            i <= files.len(),
            fs == files.deep_view(),
            out.deep_view() == stems_of(fs.take(i as int)),
        decreases files.len() - i,
    {
        let ghost before = out.deep_view();
        proof {
            assert(fs.take(i + 1).drop_last() =~= fs.take(i as int));
            assert(fs.take(i + 1).last() == files[i as int]@);
        }
        let parts = path_parts(files[i].as_str());
        match parts.extension {
            Some(extension) => {
                let entry = StemAndExtension { stem: parts.stem, extension };
                out.push(entry);
                assert(out.deep_view() =~= before.push(entry.deep_view()));
            },
            None => {},
        }
        i += 1;
    }
    assert(fs.take(i as int) =~= fs);
    out
}

/// Whether another file of the directory has the stem `base` and the
/// extension `ext`.
fn neighbour_exists(all: &Vec<StemAndExtension>, base: &str, stem: &str, ext: &str) -> (r: bool)
    ensures
        r == base_exists(all.deep_view(), base@, stem@, ext@),
{
    let mut i: usize = 0;
    while i < all.len()
        invariant
            i <= all.len(),
            forall|j: int|
                0 <= j < i ==> !((#[trigger] all.deep_view()[j]).0 == base@ && all.deep_view()[j].1
                    == ext@ && all.deep_view()[j].0 != stem@),
        decreases all.len() - i,
    {
        assert(all.deep_view()[i as int] == all[i as int].deep_view());
        if str_eq(all[i].stem.as_str(), base) && str_eq(all[i].extension.as_str(), ext) && !str_eq(
            all[i].stem.as_str(),
            stem,
        ) {
            return true;
        }
        i += 1;
    }
    false
}

/// The first file whose path holds `stem`.
fn holder(files: &Vec<String>, stem: &str) -> (path: String)
    ensures
        path@ == holder_of(files.deep_view(), stem@),
{
    let ghost fs = files.deep_view();
    let mut i: usize = 0;
    assert(fs.skip(0) =~= fs);
    while i < files.len()
        invariant
            i <= files.len(),
            fs == files.deep_view(),
            holder_of(fs, stem@) == holder_of(fs.skip(i as int), stem@),
        decreases files.len() - i,
    {
        proof {
            assert(fs.skip(i as int)[0] == files[i as int]@);
            assert(fs.skip(i as int).drop_first() =~= fs.skip(i + 1));
        }
        if str_contains(files[i].as_str(), stem) {
            return files[i].clone();
        }
        i += 1;
    }
    String::new()
}

/// The first of `pats`, in lower case, with which `stem` ends or, where
/// `at_start` is set, starts.
fn first_match(stem: &Vec<char>, pats: &Vec<String>, at_start: bool) -> (r: Option<Vec<char>>)
    ensures
        r matches Some(p) ==> p.len() <= stem.len(),
        match r {
            Some(p) => Some(p@),
            None => None,
        } == if at_start {
            first_beginning(stem@, pats.deep_view())
        } else {
            first_ending(stem@, pats.deep_view())
        },
{
    let ghost all = pats.deep_view();
    let mut i: usize = 0;
    assert(all.skip(0) =~= all);
    while i < pats.len()
        invariant
            i <= pats.len(),
            all == pats.deep_view(),
            at_start ==> first_beginning(stem@, all) == first_beginning(
                stem@,
                all.skip(i as int),
            ),
            !at_start ==> first_ending(stem@, all) == first_ending(stem@, all.skip(i as int)),
        decreases pats.len() - i,
    {
        proof {
            assert(all.skip(i as int)[0] == pats[i as int]@);
            assert(all.skip(i as int).drop_first() =~= all.skip(i + 1));
        }
        let lowered = pats[i].as_str().to_lowercase();
        let p = to_chars(lowered.as_str());
        if at_start {
            if has_prefix(stem, &p) {
                return Some(p);
            }
        } else {
            if has_suffix(stem, &p) {
                return Some(p);
            }
        }
        i += 1;
    }
    None
}

/// Appends the finding, if there is one, for a stem and the suffixes or,
/// where `at_start` is set, the prefixes.
fn check_stem(
    files: &Vec<String>,
    all: &Vec<StemAndExtension>,
    entry: &StemAndExtension,
    pats: &Vec<String>,
    at_start: bool,
    findings: &mut Vec<Finding>,
)
    requires
        all.deep_view() == stems_of(files.deep_view()),
    ensures
        final(findings).deep_view() == old(findings).deep_view() + if at_start {
            prefix_finding(files.deep_view(), entry.stem@, entry.extension@, pats.deep_view())
        } else {
            suffix_finding(files.deep_view(), entry.stem@, entry.extension@, pats.deep_view())
        },
{
    let ghost start = findings.deep_view();
    assert(start + Seq::<FindingSpec>::empty() =~= start);
    let lowered = entry.stem.as_str().to_lowercase();
    let lower = to_chars(lowered.as_str());
    let p = match first_match(&lower, pats, at_start) {
        Some(p) => p,
        None => {
            return ;
        },
    };
    let base = if at_start {
        from_chars(&lower, p.len(), lower.len())
    } else {
        from_chars(&lower, 0, lower.len() - p.len())
    };
    proof {
        assert(lower@.subrange(p@.len() as int, lower@.len() as int) =~= lower@.skip(
            p@.len() as int,
        ));
        assert(lower@.subrange(0, lower@.len() - p@.len()) =~= lower@.take(
            lower@.len() - p@.len(),
        ));
    }
    if !neighbour_exists(all, base.as_str(), entry.stem.as_str(), entry.extension.as_str()) {
        return ;
    }
    let mut message = "Potential duplicate: '".to_owned();
    if at_start {
        message.push_str(entry.stem.as_str());
    } else {
        message.push_str(base.as_str());
    }
    message.push_str(entry.extension.as_str());
    message.push_str("' exists alongside '");
    if at_start {
        message.push_str(base.as_str());
    } else {
        message.push_str(entry.stem.as_str());
    }
    message.push_str(entry.extension.as_str());
    message.push_str("'");
    let mut match_text = entry.stem.clone();
    match_text.push_str(".");
    match_text.push_str(entry.extension.as_str());
    let f = Finding {
        file: holder(files, entry.stem.as_str()),
        line: 1,
        column: 1,
        severity: Severity::High,
        category: PatternCategory::NamingConvention,
        message,
        match_text,
        pattern_regex: "duplicate_file".to_owned(),
    };
    findings.push(f);
    assert(findings.deep_view() =~= start + seq![f.deep_view()]);
}

/// Appends the findings for the files of one directory.
fn check_directory(
    files: &Vec<String>,
    suffixes: &Vec<String>,
    prefixes: &Vec<String>,
    findings: &mut Vec<Finding>,
)
    ensures
        final(findings).deep_view() == old(findings).deep_view() + stem_findings(
            files.deep_view(),
            stems_of(files.deep_view()).len(),
            suffixes.deep_view(),
            prefixes.deep_view(),
        ),
{
    let ghost start = findings.deep_view();
    let ghost fs = files.deep_view();
    let all = stems(files);
    let mut i: usize = 0;
    assert(start + Seq::<FindingSpec>::empty() =~= start);
    while i < all.len()
        invariant
            i <= all.len(),
            fs == files.deep_view(),
            all.deep_view() == stems_of(fs),
            findings.deep_view() == start + stem_findings(
                fs,
                i as nat,
                suffixes.deep_view(),
                prefixes.deep_view(),
            ),
        decreases all.len() - i,
    {
        let ghost done = stem_findings(fs, i as nat, suffixes.deep_view(), prefixes.deep_view());
        let entry = &all[i];
        assert(all.deep_view()[i as int] == entry.deep_view());
        check_stem(files, &all, entry, suffixes, false, findings);
        check_stem(files, &all, entry, prefixes, true, findings);
        proof {
            let a = suffix_finding(fs, entry.stem@, entry.extension@, suffixes.deep_view());
            let b = prefix_finding(fs, entry.stem@, entry.extension@, prefixes.deep_view());
            assert(((start + done) + a) + b =~= start + (done + a + b));
        }
        i += 1;
    }
}

/// The pattern that tells a rule for a duplicate suffix: an underscore and
/// a word before an escaped dot.
pub open spec fn suffix_source() -> Seq<char> {
    "(?i)_[a-z_]+\\\\\\."@
}

/// The pattern that finds the word before the underscore in a rule for a
/// duplicate prefix.
pub open spec fn prefix_source() -> Seq<char> {
    "\\^\\[?\\^?\\)?(?:\\\\i)?\\)?([a-z_]+)_"@
}

/// The suffix that a rule's regex text names: from its first underscore up
/// to the backslash that follows.  None where the text does not look like a
/// rule for a suffix.
pub open spec fn suffix_of(text: Seq<char>) -> Option<Seq<char>> {
    if !compiles(suffix_source()) || !matches_in(regex_compile(suffix_source())->Ok_0, text) {
        None
    } else {
        let start = lead(text, |c: char| c != '_');
        let end = lead(text.skip(start as int), |c: char| c != '\\');
        if start + end >= text.len() {
            None
        } else {
            Some(text.subrange(start as int, (start + end) as int))
        }
    }
}

/// Whether a character is an ASCII letter or an underscore.
pub open spec fn word_char(c: char) -> bool {
    ('a' <= c && c <= 'z') || ('A' <= c && c <= 'Z') || c == '_'
}

/// The prefix that a rule's regex text names where the pattern for prefixes
/// finds none: of a text with a caret and with `_.*\.`, what stands between
/// the first caret and the underscore that follows, without a `(?i)`.
pub open spec fn fallback_prefix(text: Seq<char>) -> Option<Seq<char>> {
    if text.contains('^') && contains_sub(text, "_.*\\."@) {
        let first = lead(text, |c: char| c != '^');
        let rest = text.skip(first as int + 1);
        let segment = rest.take(lead(rest, |c: char| c != '^') as int);
        let cut = lead(segment, |c: char| c != '_');
        if cut >= segment.len() {
            None
        } else {
            let prefix = replaced(
                replaced(
                    replaced(segment.take(cut as int), "(?i)"@, Seq::empty()),
                    "[^]"@,
                    Seq::empty(),
                ),
                "^"@,
                Seq::empty(),
            );
            if prefix.len() > 0 && (forall|i: int|
                0 <= i < prefix.len() ==> word_char(#[trigger] prefix[i])) {
                Some(seq!['_'] + prefix)
            } else {
                None
            }
        }
    } else {
        None
    }
}

/// The prefix that a rule's regex text names, with an underscore before it.
pub open spec fn prefix_of(text: Seq<char>) -> Option<Seq<char>> {
    if compiles(prefix_source()) && regex_group(regex_compile(prefix_source())->Ok_0, text, 1)
        is Some {
        Some(seq!['_'] + regex_group(regex_compile(prefix_source())->Ok_0, text, 1)->0)
    } else {
        fallback_prefix(text)
    }
}

/// The suffixes that the naming rules among `ps` name.
pub open spec fn suffixes_of(ps: Seq<PatternSpec>) -> Seq<Seq<char>>
    decreases ps.len(),
{
    if ps.len() == 0 {
        Seq::empty()
    } else if ps.last().category == PatternCategory::NamingConvention && suffix_of(
        ps.last().regex,
    ) is Some {
        suffixes_of(ps.drop_last()).push(suffix_of(ps.last().regex)->0)
    } else {
        suffixes_of(ps.drop_last())
    }
}

/// The prefixes that the naming rules among `ps` name.
pub open spec fn prefixes_of(ps: Seq<PatternSpec>) -> Seq<Seq<char>>
    decreases ps.len(),
{
    if ps.len() == 0 {
        Seq::empty()
    } else if ps.last().category == PatternCategory::NamingConvention && prefix_of(
        ps.last().regex,
    ) is Some {
        prefixes_of(ps.drop_last()).push(prefix_of(ps.last().regex)->0)
    } else {
        prefixes_of(ps.drop_last())
    }
}

/// The suffix that a regex text names, found with the compiled pattern for
/// suffixes.
fn suffix_in(re: &regex::Regex, text: &str) -> (r: Option<String>)
    requires
        regex_compile(suffix_source()) == Ok::<regex::Regex, Seq<char>>(*re),
    ensures
        r.deep_view() == suffix_of(text@),
{
    if find(re, text).is_none() {
        return None;
    }
    let cs = to_chars(text);
    let start = find_char(&cs, 0, '_');
    assert(cs@.skip(0) =~= cs@);
    let end = find_char(&cs, start, '\\');
    if end >= cs.len() {
        return None;
    }
    Some(from_chars(&cs, start, end))
}

/// Whether every character is an ASCII letter or an underscore.
fn is_word(word: &Vec<char>) -> (r: bool)
    ensures
        r == (forall|i: int| 0 <= i < word.len() ==> word_char(#[trigger] word@[i])),
{
    let mut i: usize = 0;
    while i < word.len()
        invariant
            i <= word.len(),
            forall|j: int| 0 <= j < i ==> word_char(#[trigger] word@[j]),
        decreases word.len() - i,
    {
        let c = word[i];
        if !(('a' <= c && c <= 'z') || ('A' <= c && c <= 'Z') || c == '_') {
            assert(!word_char(word@[i as int]));
            return false;
        }
        i += 1;
    }
    true
}

/// The prefix that a regex text names where the pattern for prefixes finds
/// none.
fn prefix_fallback(text: &str) -> (r: Option<String>)
    ensures
        r.deep_view() == fallback_prefix(text@),
{
    let cs = to_chars(text);
    let first = find_char(&cs, 0, '^');
    proof {
        assert(cs@.skip(0) =~= cs@);
        crate::text::lemma_lead_contains(cs@, '^');
    }
    if first >= cs.len() || !str_contains(text, "_.*\\.") {
        return None;
    }
    let next = find_char(&cs, first + 1, '^');
    let segment = to_chars(from_chars(&cs, first + 1, next).as_str());
    proof {
        let rest = cs@.skip(first + 1);
        assert(rest.take(next - (first + 1)) =~= cs@.subrange(first + 1, next as int));
    }
    let cut = find_char(&segment, 0, '_');
    assert(segment@.skip(0) =~= segment@);
    if cut >= segment.len() {
        return None;
    }
    let head = from_chars(&segment, 0, cut);
    assert(segment@.subrange(0, cut as int) =~= segment@.take(cut as int));
    let a = replace_all(head.as_str(), "(?i)", "");
    let b = replace_all(a.as_str(), "[^]", "");
    let prefix = replace_all(b.as_str(), "^", "");
    proof {
        reveal_strlit("");
        assert(""@ =~= Seq::<char>::empty());
    }
    let word = to_chars(prefix.as_str());
    if word.len() == 0 || !is_word(&word) {
        return None;
    }
    let mut out = String::new();
    out.push('_');
    out.push_str(prefix.as_str());
    assert(out@ =~= seq!['_'] + prefix@);
    Some(out)
}

/// Extract suffix patterns from naming patterns (for duplicate detection).
pub fn extract_duplicate_suffixes(patterns: &[Pattern]) -> (out: Vec<String>)
    ensures
        out.deep_view() == suffixes_of(patterns.deep_view()),
{
    let ghost ps = patterns.deep_view();
    let mut out: Vec<String> = Vec::new();
    let compiled = compile("(?i)_[a-z_]+\\\\\\.");
    let mut i: usize = 0;
    assert(ps.take(0) =~= Seq::<PatternSpec>::empty());
    assert(out.deep_view() =~= Seq::<Seq<char>>::empty());
    while i < patterns.len()
        invariant
            i <= patterns.len(),
            ps == patterns.deep_view(),
            match compiled {
                Ok(re) => regex_compile(suffix_source()) == Ok::<regex::Regex, Seq<char>>(re),
                Err(_) => !compiles(suffix_source()),
            },
            out.deep_view() == suffixes_of(ps.take(i as int)),
        decreases patterns.len() - i,
    {
        let ghost before = out.deep_view();
        let p = &patterns[i];
        proof {
            assert(ps.take(i + 1).drop_last() =~= ps.take(i as int));
            assert(ps.take(i + 1).last() == p.deep_view());
        }
        if p.category == PatternCategory::NamingConvention {
            let found = match &compiled {
                Ok(re) => suffix_in(re, p.regex.as_str()),
                Err(_) => None,
            };
            match found {
                Some(suffix) => {
                    out.push(suffix);
                    assert(out.deep_view() =~= before.push(suffix@));
                },
                None => {},
            }
        }
        i += 1;
    }
    assert(ps.take(i as int) =~= ps);
    out
}

/// Extract prefix patterns from naming patterns (for duplicate detection).
pub fn extract_duplicate_prefixes(patterns: &[Pattern]) -> (out: Vec<String>)
    ensures
        out.deep_view() == prefixes_of(patterns.deep_view()),
{
    let ghost ps = patterns.deep_view();
    let mut out: Vec<String> = Vec::new();
    let compiled = compile("\\^\\[?\\^?\\)?(?:\\\\i)?\\)?([a-z_]+)_");
    let mut i: usize = 0;
    assert(ps.take(0) =~= Seq::<PatternSpec>::empty());
    assert(out.deep_view() =~= Seq::<Seq<char>>::empty());
    while i < patterns.len()
        invariant
            i <= patterns.len(),
            ps == patterns.deep_view(),
            match compiled {
                Ok(re) => regex_compile(prefix_source()) == Ok::<regex::Regex, Seq<char>>(re),
                Err(_) => !compiles(prefix_source()),
            },
            out.deep_view() == prefixes_of(ps.take(i as int)),
        decreases patterns.len() - i,
    {
        let ghost before = out.deep_view();
        let p = &patterns[i];
        proof {
            assert(ps.take(i + 1).drop_last() =~= ps.take(i as int));
            assert(ps.take(i + 1).last() == p.deep_view());
        }
        if p.category == PatternCategory::NamingConvention {
            let group = match &compiled {
                Ok(re) => capture_group(re, p.regex.as_str(), 1),
                Err(_) => None,
            };
            let found = match group {
                Some(word) => {
                    let mut prefix = String::new();
                    prefix.push('_');
                    prefix.push_str(word.as_str());
                    assert(prefix@ =~= seq!['_'] + word@);
                    Some(prefix)
                },
                None => prefix_fallback(p.regex.as_str()),
            };
            match found {
                Some(prefix) => {
                    out.push(prefix);
                    assert(out.deep_view() =~= before.push(prefix@));
                },
                None => {},
            }
        }
        i += 1;
    }
    assert(ps.take(i as int) =~= ps);
    out
}

/// A checker that has seen no file yet.
pub open spec fn fresh_checker(config: FilenameCheckConfig, patterns: Seq<PatternSpec>)
    -> CheckerSpec {
    CheckerSpec {
        grouped_files: Seq::empty(),
        all_files: Seq::empty(),
        config,
        tooling_configs: Seq::empty(),
        duplicate_suffixes: if config.check_duplicates {
            suffixes_of(patterns)
        } else {
            Seq::empty()
        },
        duplicate_prefixes: if config.check_duplicates {
            prefixes_of(patterns)
        } else {
            Seq::empty()
        },
    }
}

/// The findings of a checker: those for duplicates where they are asked
/// for, then those for breaks of convention.
pub open spec fn findings_of(checker: CheckerSpec) -> Seq<FindingSpec> {
    (if checker.config.check_duplicates {
        duplicate_findings(
            checker.all_files,
            checker.duplicate_suffixes,
            checker.duplicate_prefixes,
        )
    } else {
        Seq::<FindingSpec>::empty()
    }) + convention_breaks(checker.grouped_files, checker.config)
}

impl FilenameChecker {
    /// Create a new filename checker with default configuration.
    pub fn new() -> (c: Self)
        ensures
            c.deep_view() == fresh_checker(plain_config(), Seq::empty()),
    {
        let none: Vec<Pattern> = Vec::new();
        assert(none.deep_view() =~= Seq::<PatternSpec>::empty());
        Self::with_config_and_patterns(FilenameCheckConfig::default(), none.as_slice())
    }

    /// Create a new filename checker with custom configuration.
    pub fn with_config(config: FilenameCheckConfig) -> (c: Self)
        ensures
            c.deep_view() == fresh_checker(config, Seq::empty()),
    {
        let none: Vec<Pattern> = Vec::new();
        assert(none.deep_view() =~= Seq::<PatternSpec>::empty());
        Self::with_config_and_patterns(config, none.as_slice())
    }

    /// Create a new filename checker with config and patterns (for duplicate detection).
    pub fn with_config_and_patterns(config: FilenameCheckConfig, patterns: &[Pattern]) -> (c: Self)
        ensures
            c.deep_view() == fresh_checker(config, patterns.deep_view()),
    {
        let duplicate_suffixes = if config.check_duplicates {
            extract_duplicate_suffixes(patterns)
        } else {
            Vec::new()
        };
        let duplicate_prefixes = if config.check_duplicates {
            extract_duplicate_prefixes(patterns)
        } else {
            Vec::new()
        };
        let c = FilenameChecker {
            grouped_files: Vec::new(),
            all_files: Vec::new(),
            config,
            tooling_configs: Vec::new(),
            duplicate_suffixes,
            duplicate_prefixes,
        };
        proof {
            assert(c.grouped_files.deep_view() =~= Seq::<GroupedSpec>::empty());
            assert(c.all_files.deep_view() =~= Seq::<Seq<char>>::empty());
            assert(c.tooling_configs.deep_view() =~= Seq::<Seq<char>>::empty());
            if !config.check_duplicates {
                assert(c.duplicate_suffixes.deep_view() =~= Seq::<Seq<char>>::empty());
                assert(c.duplicate_prefixes.deep_view() =~= Seq::<Seq<char>>::empty());
            }
        }
        c
    }

    /// Add a file for analysis.
    pub fn add_file(&mut self, path: &str)
        ensures
            final(self).deep_view().all_files == old(self).deep_view().all_files.push(path@),
            final(self).deep_view().tooling_configs == tooling_with(
                old(self).deep_view().tooling_configs,
                path@,
            ),
            final(self).config == old(self).config,
            final(self).deep_view().duplicate_suffixes == old(self).deep_view().duplicate_suffixes,
            final(self).deep_view().duplicate_prefixes == old(self).deep_view().duplicate_prefixes,
            match group_of(path@) {
                Some(g) => grouped_with(
                    old(self).deep_view().grouped_files,
                    g,
                    path@,
                    final(self).deep_view().grouped_files,
                ),
                None => final(self).deep_view().grouped_files == old(
                    self,
                ).deep_view().grouped_files,
            },
    {
        let parts = path_parts(path);
        let ghost tools = self.tooling_configs.deep_view();
        let ghost files = self.all_files.deep_view();
        let ghost groups = self.grouped_files.deep_view();
        if is_tooling_config(parts.name.as_str()) && !contains_string(
            &self.tooling_configs,
            parts.name.as_str(),
        ) {
            self.tooling_configs.push(parts.name);
            assert(self.tooling_configs.deep_view() =~= tools.push(file_name_of(path@)));
        }
        self.all_files.push(path.to_owned());
        assert(self.all_files.deep_view() =~= files.push(path@));
        let group = match FileGroup::from_path(path) {
            Some(g) => g,
            None => {
                return ;
            },
        };
        let mut i: usize = 0;
        while i < self.grouped_files.len()
            invariant
                i <= self.grouped_files.len(),
                groups == self.grouped_files.deep_view(),
                groups == old(self).grouped_files.deep_view(),
                files == old(self).all_files.deep_view(),
                tools == old(self).tooling_configs.deep_view(),
                group_of(path@) == Some(group.deep_view()),
                self.all_files.deep_view() == files.push(path@),
                self.tooling_configs.deep_view() == tooling_with(tools, path@),
                self.config == old(self).config,
                self.duplicate_suffixes.deep_view() == old(self).duplicate_suffixes.deep_view(),
                self.duplicate_prefixes.deep_view() == old(self).duplicate_prefixes.deep_view(),
                forall|j: int| 0 <= j < i ==> (#[trigger] groups[j]).group != group.deep_view(),
            decreases self.grouped_files.len() - i,
        {
            assert(groups[i as int] == self.grouped_files[i as int].deep_view());
            if str_eq(self.grouped_files[i].group.extension.as_str(), group.extension.as_str())
                && str_eq(
                self.grouped_files[i].group.directory.as_str(),
                group.directory.as_str(),
            ) {
                let mut entry = self.grouped_files.remove(i);
                let ghost held = entry.files.deep_view();
                entry.files.push(path.to_owned());
                assert(entry.files.deep_view() =~= held.push(path@));
                let ghost grown = entry.deep_view();
                self.grouped_files.insert(i, entry);
                proof {
                    assert(first_of_group(groups, group.deep_view(), i as int));
                    assert(self.grouped_files.deep_view() =~= groups.update(i as int, grown));
                }
                return ;
            }
            i += 1;
        }
        let mut held: Vec<String> = Vec::new();
        held.push(path.to_owned());
        assert(held.deep_view() =~= seq![path@]);
        let ghost g = group.deep_view();
        self.grouped_files.push(GroupedFiles { group, files: held });
        proof {
            assert(no_group(groups, g));
            assert(self.grouped_files.deep_view() =~= groups.push(
                GroupedSpec { group: g, files: seq![path@] },
            ));
        }
    }

    /// Check all files for naming convention violations.
    pub fn check(&self) -> (findings: Vec<Finding>)
        ensures
            findings.deep_view() == findings_of(self.deep_view()),
    {
        let mut findings: Vec<Finding> = Vec::new();
        if self.config.check_duplicates {
            findings = self.check_duplicate_patterns();
        } else {
            assert(findings.deep_view() =~= Seq::<FindingSpec>::empty());
        }
        let ghost first = findings.deep_view();
        let breaks = self.check_convention_breaks();
        let mut i: usize = 0;
        assert(first + breaks.deep_view().take(0) =~= first);
        while i < breaks.len()
            invariant
                i <= breaks.len(),
                findings.deep_view() == first + breaks.deep_view().take(i as int),
            decreases breaks.len() - i,
        {
            let ghost before = findings.deep_view();
            let f = breaks[i].clone();
            findings.push(f);
            proof {
                let all = breaks.deep_view();
                assert(all[i as int] == breaks[i as int].deep_view());
                assert(all.take(i + 1) =~= all.take(i as int).push(f.deep_view()));
                assert(findings.deep_view() =~= before.push(f.deep_view()));
            }
            i += 1;
        }
        assert(breaks.deep_view().take(i as int) =~= breaks.deep_view());
        findings
    }

    /// Check for potential duplicate files (AI pattern of creating "alternatives").
    pub fn check_duplicate_patterns(&self) -> (findings: Vec<Finding>)
        ensures
            findings.deep_view() == duplicate_findings(
                self.deep_view().all_files,
                self.deep_view().duplicate_suffixes,
                self.deep_view().duplicate_prefixes,
            ),
    {
        let mut findings: Vec<Finding> = Vec::new();
        let ghost files = self.all_files.deep_view();
        let dirs = directories(&self.all_files);
        let mut i: usize = 0;
        assert(findings.deep_view() =~= Seq::<FindingSpec>::empty());
        while i < dirs.len()
            invariant
                i <= dirs.len(),
                files == self.all_files.deep_view(),
                dirs.deep_view() == dirs_of(files),
                findings.deep_view() == duplicates_in(
                    files,
                    i as nat,
                    self.duplicate_suffixes.deep_view(),
                    self.duplicate_prefixes.deep_view(),
                ),
            decreases dirs.len() - i,
        {
            assert(dirs.deep_view()[i as int] == dirs[i as int]@);
            let here = files_of_directory(&self.all_files, dirs[i].as_str());
            check_directory(
                &here,
                &self.duplicate_suffixes,
                &self.duplicate_prefixes,
                &mut findings,
            );
            i += 1;
        }
        findings
    }

    /// Check for naming convention breaks within file groups.
    pub fn check_convention_breaks(&self) -> (findings: Vec<Finding>)
        ensures
            findings.deep_view() == convention_breaks(
                self.deep_view().grouped_files,
                self.config,
            ),
    {
        let mut findings: Vec<Finding> = Vec::new();
        let ghost groups = self.grouped_files.deep_view();
        let mut i: usize = 0;
        assert(groups.take(0) =~= Seq::<GroupedSpec>::empty());
        assert(findings.deep_view() =~= Seq::<FindingSpec>::empty());
        while i < self.grouped_files.len()
            invariant
                i <= self.grouped_files.len(),
                groups == self.grouped_files.deep_view(),
                findings.deep_view() == convention_breaks(groups.take(i as int), self.config),
            decreases self.grouped_files.len() - i,
        {
            proof {
                assert(groups.take(i + 1).drop_last() =~= groups.take(i as int));
                assert(groups.take(i + 1).last() == self.grouped_files[i as int].deep_view());
            }
            check_group(&self.grouped_files[i].files, &self.config, &mut findings);
            i += 1;
        }
        assert(groups.take(i as int) =~= groups);
        findings
    }
}

impl Default for FilenameChecker {
    fn default() -> (c: Self)
        ensures
            c.deep_view() == fresh_checker(plain_config(), Seq::empty()),
    {
        Self::new()
    }
}

} // verus!
