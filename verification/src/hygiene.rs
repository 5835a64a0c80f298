//! Code hygiene survey: which linters, formatters and pipelines a project
//! has, and which it lacks.
//!
//! Looking at the project's files is the caller's work.  The records of a
//! survey are kept here, with what is decided from the text of a file.

use vstd::prelude::*;
use crate::detector::language::{extension_of, path_parts};
use crate::text::{
    contains_string, contains_sub, decimal, decimal_of, has_string, lowercase_of, str_contains,
    str_eq,
};

verus! {

/// What a [`ToolDef`] holds, as plain values.
pub struct ToolDefSpec {
    pub name: Seq<char>,
    pub install: Seq<char>,
    pub description: Seq<char>,
    pub config_files: Seq<Seq<char>>,
}

/// A tool (linter or formatter) definition.
#[derive(Debug)]
pub struct ToolDef {
    pub name: String,
    pub install: String,
    pub description: String,
    pub config_files: Vec<String>,
}

impl DeepView for ToolDef {
    type V = ToolDefSpec;

    open spec fn deep_view(&self) -> ToolDefSpec {
        ToolDefSpec {
            name: self.name@,
            install: self.install@,
            description: self.description@,
            config_files: self.config_files.deep_view(),
        }
    }
}

/// What a [`LanguageDef`] holds, as plain values.
pub struct LanguageDefSpec {
    pub name: Seq<char>,
    pub marker_files: Seq<Seq<char>>,
    pub detect_extensions: Seq<Seq<char>>,
    pub linters: Seq<ToolDefSpec>,
    pub formatters: Seq<ToolDefSpec>,
}

/// Language definition with associated tools.
#[derive(Debug)]
pub struct LanguageDef {
    pub name: String,
    pub marker_files: Vec<String>,
    pub detect_extensions: Vec<String>,
    pub linters: Vec<ToolDef>,
    pub formatters: Vec<ToolDef>,
}

impl DeepView for LanguageDef {
    type V = LanguageDefSpec;

    open spec fn deep_view(&self) -> LanguageDefSpec {
        LanguageDefSpec {
            name: self.name@,
            marker_files: self.marker_files.deep_view(),
            detect_extensions: self.detect_extensions.deep_view(),
            linters: self.linters.deep_view(),
            formatters: self.formatters.deep_view(),
        }
    }
}

/// What a [`DetectionPattern`] holds, as plain values.
pub struct DetectionSpec {
    pub tool_name: Seq<char>,
    pub is_linter: bool,
}

/// Detection patterns for finding tools by content.
#[derive(Debug)]
pub struct DetectionPattern {
    pub tool_name: String,
    pub is_linter: bool,
}

impl DeepView for DetectionPattern {
    type V = DetectionSpec;

    open spec fn deep_view(&self) -> DetectionSpec {
        DetectionSpec { tool_name: self.tool_name@, is_linter: self.is_linter }
    }
}

/// What a [`Tool`] holds, as plain values.
pub struct ToolSpec {
    pub name: Seq<char>,
    pub install_cmd: Seq<char>,
    pub description: Seq<char>,
    pub found: bool,
}

/// A tool found or recommended.
#[derive(Debug)]
pub struct Tool {
    pub name: String,
    pub install_cmd: String,
    pub description: String,
    pub found: bool,
}

impl DeepView for Tool {
    type V = ToolSpec;

    open spec fn deep_view(&self) -> ToolSpec {
        ToolSpec {
            name: self.name@,
            install_cmd: self.install_cmd@,
            description: self.description@,
            found: self.found,
        }
    }
}

impl Clone for Tool {
    fn clone(&self) -> (r: Self)
        ensures
            r.deep_view() == self.deep_view(),
    {
        Tool {
            name: self.name.clone(),
            install_cmd: self.install_cmd.clone(),
            description: self.description.clone(),
            found: self.found,
        }
    }
}

impl Tool {
    /// A tool that has not been found yet.
    pub fn new(name: &str, install_cmd: &str, description: &str) -> (t: Self)
        ensures
            t.deep_view() == (ToolSpec {
                name: name@,
                install_cmd: install_cmd@,
                description: description@,
                found: false,
            }),
    {
        Tool {
            name: name.to_owned(),
            install_cmd: install_cmd.to_owned(),
            description: description.to_owned(),
            found: false,
        }
    }

    /// The tool that a definition describes, not found yet.
    pub fn from_def(def: &ToolDef) -> (t: Self)
        ensures
            t.deep_view() == (ToolSpec {
                name: def.name@,
                install_cmd: def.install@,
                description: def.description@,
                found: false,
            }),
    {
        Tool {
            name: def.name.clone(),
            install_cmd: def.install.clone(),
            description: def.description.clone(),
            found: false,
        }
    }
}

/// CI/CD platform detection.
#[derive(Debug)]
pub struct CIPipeline {
    pub platform: String,
    pub config_file: String,
}

/// Result of a hygiene survey.
#[derive(Debug)]
pub struct HygieneSurvey {
    /// Detected project types and their marker file.
    pub project_types: Vec<(String, String)>,
    /// Linters found in the project.
    pub linters_found: Vec<String>,
    /// Formatters found in the project.
    pub formatters_found: Vec<String>,
    /// CI/CD pipelines found.
    pub ci_pipelines: Vec<CIPipeline>,
    /// Pre-commit config found.
    pub precommit_found: Option<String>,
    /// Root path surveyed.
    pub root_path: String,
    /// Recommended tools per language, in the order of the project types.
    pub recommendations: Vec<(String, Vec<Tool>)>,
}

/// Which hook configuration a project has: the first of the three known
/// ones that exists.
pub open spec fn precommit_of(has_precommit: bool, has_husky: bool, has_lefthook: bool) -> Option<
    Seq<char>,
> {
    if has_precommit {
        Some(".pre-commit-config.yaml"@)
    } else if has_husky {
        Some(".husky/"@)
    } else if has_lefthook {
        Some("lefthook.yml"@)
    } else {
        None
    }
}

/// Names the hook configuration of a project, from which of the three known
/// ones exist.
pub fn precommit_choice(has_precommit: bool, has_husky: bool, has_lefthook: bool) -> (found: Option<
    String,
>)
    ensures
        found.deep_view() == precommit_of(has_precommit, has_husky, has_lefthook),
{
    if has_precommit {
        Some(".pre-commit-config.yaml".to_owned())
    } else if has_husky {
        Some(".husky/".to_owned())
    } else if has_lefthook {
        Some("lefthook.yml".to_owned())
    } else {
        None
    }
}

/// The linter that a section of a `pyproject.toml` configures, if the
/// section is a linter's.
pub open spec fn pyproject_linters(content: Seq<char>) -> Seq<Seq<char>> {
    (if crate::text::contains_sub(content, "[tool.ruff]"@) {
        seq!["ruff"@]
    } else {
        Seq::<Seq<char>>::empty()
    }) + (if crate::text::contains_sub(content, "[tool.mypy]"@) {
        seq!["mypy"@]
    } else {
        Seq::<Seq<char>>::empty()
    }) + (if crate::text::contains_sub(content, "[tool.pylint]"@) {
        seq!["pylint"@]
    } else {
        Seq::<Seq<char>>::empty()
    })
}

/// The formatters that a `pyproject.toml` configures.
pub open spec fn pyproject_formatters(content: Seq<char>) -> Seq<Seq<char>> {
    (if crate::text::contains_sub(content, "[tool.black]"@) {
        seq!["black"@]
    } else {
        Seq::<Seq<char>>::empty()
    }) + (if crate::text::contains_sub(content, "[tool.isort]"@) {
        seq!["isort"@]
    } else {
        Seq::<Seq<char>>::empty()
    })
}

/// The Python tools that the text of a `pyproject.toml` configures: linters,
/// then formatters.
pub fn pyproject_tools(content: &str) -> (tools: (Vec<String>, Vec<String>))
    ensures
        tools.0.deep_view() == pyproject_linters(content@),
        tools.1.deep_view() == pyproject_formatters(content@),
{
    let mut linters: Vec<String> = Vec::new();
    let mut formatters: Vec<String> = Vec::new();
    if str_contains(content, "[tool.ruff]") {
        linters.push("ruff".to_owned());
    }
    if str_contains(content, "[tool.black]") {
        formatters.push("black".to_owned());
    }
    if str_contains(content, "[tool.mypy]") {
        linters.push("mypy".to_owned());
    }
    if str_contains(content, "[tool.pylint]") {
        linters.push("pylint".to_owned());
    }
    if str_contains(content, "[tool.isort]") {
        formatters.push("isort".to_owned());
    }
    assert(linters.deep_view() =~= pyproject_linters(content@));
    assert(formatters.deep_view() =~= pyproject_formatters(content@));
    (linters, formatters)
}

/// A list of names with one more name, unless the list has it already.
pub open spec fn with_name(names: Seq<Seq<char>>, name: Seq<char>) -> Seq<Seq<char>> {
    if has_string(names, name) {
        names
    } else {
        names.push(name)
    }
}

/// Adds a name to a list that holds each name once.
pub fn insert_name(names: &mut Vec<String>, name: &str)
    ensures
        final(names).deep_view() == with_name(old(names).deep_view(), name@),
{
    let ghost before = names.deep_view();
    if !contains_string(names, name) {
        names.push(name.to_owned());
        assert(names.deep_view() =~= before.push(name@));
    }
}

/// The tools of one kind that the first `n` detection patterns find in a
/// text: a pattern finds its tool where the text, in lower case, holds the
/// pattern in lower case.
pub open spec fn detected(
    content: Seq<char>,
    patterns: Seq<(Seq<char>, DetectionSpec)>,
    n: nat,
    linters: bool,
    found: Seq<Seq<char>>,
) -> Seq<Seq<char>>
    decreases n,
{
    if n == 0 || n > patterns.len() {
        found
    } else {
        let before = detected(content, patterns, (n - 1) as nat, linters, found);
        let entry = patterns[n - 1];
        if entry.1.is_linter == linters && contains_sub(
            lowercase_of(content),
            lowercase_of(entry.0),
        ) {
            with_name(before, entry.1.tool_name)
        } else {
            before
        }
    }
}

/// Detect tools from content by pattern matching.
pub fn detect_tools_in_content(
    content: &str,
    patterns: &Vec<(String, DetectionPattern)>,
    linters: &mut Vec<String>,
    formatters: &mut Vec<String>,
)
    ensures
        final(linters).deep_view() == detected(
            content@,
            patterns.deep_view(),
            patterns.len() as nat,
            true,
            old(linters).deep_view(),
        ),
        final(formatters).deep_view() == detected(
            content@,
            patterns.deep_view(),
            patterns.len() as nat,
            false,
            old(formatters).deep_view(),
        ),
{
    let ghost ps = patterns.deep_view();
    let ghost l0 = linters.deep_view();
    let ghost f0 = formatters.deep_view();
    let content_lower = content.to_lowercase();
    let mut i: usize = 0;
    while i < patterns.len()
        invariant
            i <= patterns.len(),
            ps == patterns.deep_view(),
            content_lower@ == lowercase_of(content@),
            linters.deep_view() == detected(content@, ps, i as nat, true, l0),
            formatters.deep_view() == detected(content@, ps, i as nat, false, f0),
        decreases patterns.len() - i,
    {
        let entry = &patterns[i];
        assert(ps[i as int] == entry.deep_view());
        let pattern_lower = entry.0.as_str().to_lowercase();
        if str_contains(content_lower.as_str(), pattern_lower.as_str()) {
            if entry.1.is_linter {
                insert_name(linters, entry.1.tool_name.as_str());
            } else {
                insert_name(formatters, entry.1.tool_name.as_str());
            }
        }
        i += 1;
    }
}

/// Whether a tool was found: some name found holds, both in lower case, the
/// tool's name.
pub open spec fn tool_found(found: Seq<Seq<char>>, tool: Seq<char>) -> bool {
    exists|i: int|
        0 <= i < found.len() && contains_sub(lowercase_of(#[trigger] found[i]), lowercase_of(tool))
}

/// The tool that a definition describes, not found yet.
pub open spec fn tool_of(def: ToolDefSpec) -> ToolSpec {
    ToolSpec {
        name: def.name,
        install_cmd: def.install,
        description: def.description,
        found: false,
    }
}

/// The tools among `defs` that were not found.
pub open spec fn missing_of(defs: Seq<ToolDefSpec>, found: Seq<Seq<char>>) -> Seq<ToolSpec>
    decreases defs.len(),
{
    if defs.len() == 0 {
        Seq::empty()
    } else if tool_found(found, defs.last().name) {
        missing_of(defs.drop_last(), found)
    } else {
        missing_of(defs.drop_last(), found).push(tool_of(defs.last()))
    }
}

/// Whether a tool was found.
fn was_found(found: &Vec<String>, tool: &str) -> (r: bool)
    ensures
        r == tool_found(found.deep_view(), tool@),
{
    let wanted = tool.to_lowercase();
    let mut i: usize = 0;
    while i < found.len()
        invariant
            i <= found.len(),
            wanted@ == lowercase_of(tool@),
            forall|j: int|
                0 <= j < i ==> !contains_sub(
                    lowercase_of(#[trigger] found.deep_view()[j]),
                    lowercase_of(tool@),
                ),
        decreases found.len() - i,
    {
        assert(found.deep_view()[i as int] == found[i as int]@);
        let have = found[i].as_str().to_lowercase();
        if str_contains(have.as_str(), wanted.as_str()) {
            return true;
        }
        i += 1;
    }
    false
}

/// Appends the tools among `defs` that were not found.
fn add_missing(defs: &Vec<ToolDef>, found: &Vec<String>, missing: &mut Vec<Tool>)
    ensures
        final(missing).deep_view() == old(missing).deep_view() + missing_of(
            defs.deep_view(),
            found.deep_view(),
        ),
{
    let ghost start = missing.deep_view();
    let ghost ds = defs.deep_view();
    let mut i: usize = 0;
    assert(ds.take(0) =~= Seq::<ToolDefSpec>::empty());
    assert(start + Seq::<ToolSpec>::empty() =~= start);
    while i < defs.len()
        invariant
            i <= defs.len(),
            ds == defs.deep_view(),
            missing.deep_view() == start + missing_of(ds.take(i as int), found.deep_view()),
        decreases defs.len() - i,
    {
        let ghost before = missing.deep_view();
        let ghost done = missing_of(ds.take(i as int), found.deep_view());
        proof {
            assert(ds.take(i + 1).drop_last() =~= ds.take(i as int));
            assert(ds.take(i + 1).last() == defs[i as int].deep_view());
        }
        if !was_found(found, defs[i].name.as_str()) {
            let tool = Tool::from_def(&defs[i]);
            missing.push(tool);
            assert(missing.deep_view() =~= before.push(tool.deep_view()));
            assert(before.push(tool.deep_view()) =~= start + done.push(tool.deep_view()));
        }
        i += 1;
    }
    assert(ds.take(i as int) =~= ds);
}

/// The tools of a language that the project lacks: its linters that were
/// not found, then its formatters that were not found.
pub fn missing_tools(
    lang: &LanguageDef,
    linters_found: &Vec<String>,
    formatters_found: &Vec<String>,
) -> (missing: Vec<Tool>)
    ensures
        missing.deep_view() == missing_of(lang.deep_view().linters, linters_found.deep_view())
            + missing_of(lang.deep_view().formatters, formatters_found.deep_view()),
{
    let mut missing: Vec<Tool> = Vec::new();
    assert(missing.deep_view() =~= Seq::<ToolSpec>::empty());
    add_missing(&lang.linters, linters_found, &mut missing);
    assert(Seq::<ToolSpec>::empty() + missing_of(
        lang.deep_view().linters,
        linters_found.deep_view(),
    ) =~= missing_of(lang.deep_view().linters, linters_found.deep_view()));
    add_missing(&lang.formatters, formatters_found, &mut missing);
    missing
}

/// The first of a language's marker files that exists.
pub open spec fn first_marker_of(markers: Seq<Seq<char>>, exists: Seq<bool>) -> Option<Seq<char>>
    decreases markers.len(),
{
    if markers.len() == 0 || exists.len() != markers.len() {
        None
    } else if exists[0] {
        Some(markers[0])
    } else {
        first_marker_of(markers.drop_first(), exists.drop_first())
    }
}

/// The marker file by which a project is known to be of a language: the
/// first that exists, where `exists` says of each marker whether it does.
pub fn first_marker(markers: &Vec<String>, exists: &Vec<bool>) -> (found: Option<String>)
    ensures
        found.deep_view() == first_marker_of(markers.deep_view(), exists@),
{
    if exists.len() != markers.len() {
        return None;
    }
    let ghost ms = markers.deep_view();
    let mut i: usize = 0;
    assert(ms.skip(0) =~= ms);
    assert(exists@.skip(0) =~= exists@);
    while i < markers.len()
        invariant
            i <= markers.len(),
            exists.len() == markers.len(),
            ms == markers.deep_view(),
            first_marker_of(ms, exists@) == first_marker_of(
                ms.skip(i as int),
                exists@.skip(i as int),
            ),
        decreases markers.len() - i,
    {
        proof {
            assert(ms.skip(i as int)[0] == markers[i as int]@);
            assert(ms.skip(i as int).drop_first() =~= ms.skip(i + 1));
            assert(exists@.skip(i as int).drop_first() =~= exists@.skip(i + 1));
        }
        if exists[i] {
            return Some(markers[i].clone());
        }
        i += 1;
    }
    None
}

/// What is reported of the workflows of GitHub Actions: nothing where there
/// is none, else their number.
pub fn github_pipeline(workflows: usize) -> (p: Option<CIPipeline>)
    ensures
        p is Some <==> workflows > 0,
        p matches Some(found) ==> found.platform@ == "GitHub Actions"@ && found.config_file@
            == decimal_of(workflows as nat) + " workflow(s)"@,
{
    if workflows == 0 {
        return None;
    }
    let mut config_file = decimal(workflows);
    config_file.push_str(" workflow(s)");
    Some(CIPipeline { platform: "GitHub Actions".to_owned(), config_file })
}

/// Whether one of some files exists, where `exists` says of each whether it
/// does.
pub open spec fn any_exists(exists: Seq<bool>) -> bool {
    exists|i: int| 0 <= i < exists.len() && exists[i]
}

/// Notes a tool as found where one of its configuration files exists, as
/// `exists` says of each of them in turn.
pub fn note_configured(found: &mut Vec<String>, tool: &ToolDef, exists: &Vec<bool>)
    ensures
        final(found).deep_view() == if any_exists(exists@) {
            with_name(old(found).deep_view(), tool.name@)
        } else {
            old(found).deep_view()
        },
{
    let mut any = false;
    let mut i: usize = 0;
    while i < exists.len()
        invariant
            i <= exists.len(),
            any <==> exists|j: int| 0 <= j < i && exists[j],
        decreases exists.len() - i,
    {
        if exists[i] {
            any = true;
        }
        i += 1;
    }
    if any {
        insert_name(found, tool.name.as_str());
    }
}

/// The marker of a project that is known by the extension of one of its
/// files: `*.` and the extension of the first entry whose extension is one
/// of `extensions`.
pub open spec fn extension_marker_of(extensions: Seq<Seq<char>>, entries: Seq<Seq<char>>) -> Option<
    Seq<char>,
>
    decreases entries.len(),
{
    if entries.len() == 0 {
        None
    } else if extension_of(entries[0]) is Some && has_string(
        extensions,
        extension_of(entries[0])->0,
    ) {
        Some("*."@ + extension_of(entries[0])->0)
    } else {
        extension_marker_of(extensions, entries.drop_first())
    }
}

/// The marker by which a project is known to be of a language that goes by
/// the extensions of its files, where `entries` are the paths found in the
/// project's directory, in the order in which they were found.
pub fn extension_marker(extensions: &Vec<String>, entries: &Vec<String>) -> (found: Option<String>)
    ensures
        found.deep_view() == extension_marker_of(extensions.deep_view(), entries.deep_view()),
{
    let ghost es = entries.deep_view();
    let mut i: usize = 0;
    assert(es.skip(0) =~= es);
    while i < entries.len()
        invariant
            i <= entries.len(),
            es == entries.deep_view(),
            extension_marker_of(extensions.deep_view(), es) == extension_marker_of(
                extensions.deep_view(),
                es.skip(i as int),
            ),
        decreases entries.len() - i,
    {
        proof {
            assert(es.skip(i as int)[0] == entries[i as int]@);
            assert(es.skip(i as int).drop_first() =~= es.skip(i + 1));
        }
        let parts = path_parts(entries[i].as_str());
        match parts.extension {
            Some(ext) => {
                if contains_string(extensions, ext.as_str()) {
                    let mut marker = "*.".to_owned();
                    marker.push_str(ext.as_str());
                    return Some(marker);
                }
            },
            None => {},
        }
        i += 1;
    }
    None
}

/// Whether a path has the extension `ext`.
fn has_extension(path: &str, ext: &str) -> (r: bool)
    ensures
        r == (extension_of(path@) == Some(ext@)),
{
    match path_parts(path).extension {
        Some(found) => str_eq(found.as_str(), ext),
        None => false,
    }
}

/// Whether a file of the workflow directory is a workflow: one whose
/// extension is `yml` or `yaml`.
pub fn is_workflow_file(path: &str) -> (r: bool)
    ensures
        r == (extension_of(path@) == Some("yml"@) || extension_of(path@) == Some("yaml"@)),
{
    has_extension(path, "yml") || has_extension(path, "yaml")
}

/// Whether a file of the scripts directory is a shell script: one whose
/// extension is `sh`.
pub fn is_shell_script(path: &str) -> (r: bool)
    ensures
        r == (extension_of(path@) == Some("sh"@)),
{
    has_extension(path, "sh")
}

/// The names under which a makefile is looked for, in this order.
pub open spec fn makefiles() -> Seq<Seq<char>> {
    seq!["Makefile"@, "makefile"@, "GNUmakefile"@]
}

/// The names under which a makefile is looked for.
pub fn makefile_names() -> (names: Vec<String>)
    ensures
        names.deep_view() == makefiles(),
{
    let names = vec!["Makefile".to_owned(), "makefile".to_owned(), "GNUmakefile".to_owned()];
    assert(names.deep_view() =~= makefiles());
    names
}

/// The pipelines that are known by one file each, with that file: in the
/// order in which they are reported.
pub open spec fn file_pipelines() -> Seq<(Seq<char>, Seq<char>)> {
    seq![
        ("GitLab CI"@, ".gitlab-ci.yml"@),
        ("Jenkins"@, "Jenkinsfile"@),
        ("CircleCI"@, ".circleci/config.yml"@),
    ]
}

/// The pipelines that are known by one file each, with the file to look for.
pub fn pipeline_files() -> (known: Vec<CIPipeline>)
    ensures
        known.deep_view() == file_pipelines(),
{
    let known = vec![
        CIPipeline { platform: "GitLab CI".to_owned(), config_file: ".gitlab-ci.yml".to_owned() },
        CIPipeline { platform: "Jenkins".to_owned(), config_file: "Jenkinsfile".to_owned() },
        CIPipeline {
            platform: "CircleCI".to_owned(),
            config_file: ".circleci/config.yml".to_owned(),
        },
    ];
    assert(known.deep_view() =~= file_pipelines());
    known
}

/// Whether the file of a pipeline is read for the tools that it runs: that
/// of GitLab CI is.
pub fn is_read_for_tools(pipeline: &CIPipeline) -> (r: bool)
    ensures
        r == (pipeline.config_file@ == ".gitlab-ci.yml"@),
{
    str_eq(pipeline.config_file.as_str(), ".gitlab-ci.yml")
}

/// Those of some pipelines whose file exists, in their order.
pub open spec fn present_of(known: Seq<(Seq<char>, Seq<char>)>, exists: Seq<bool>) -> Seq<
    (Seq<char>, Seq<char>),
>
    decreases known.len(),
{
    if known.len() == 0 || exists.len() != known.len() {
        Seq::empty()
    } else if exists.last() {
        present_of(known.drop_last(), exists.drop_last()).push(known.last())
    } else {
        present_of(known.drop_last(), exists.drop_last())
    }
}

/// The pipelines of a project: GitHub Actions where there is a workflow,
/// then each pipeline of [`pipeline_files`] whose file exists, as `exists`
/// says of each in turn.
pub fn found_pipelines(workflows: usize, exists: &Vec<bool>) -> (found: Vec<CIPipeline>)
    ensures
        found.deep_view() == (if workflows > 0 {
            seq![("GitHub Actions"@, decimal_of(workflows as nat) + " workflow(s)"@)]
        } else {
            Seq::<(Seq<char>, Seq<char>)>::empty()
        }) + present_of(file_pipelines(), exists@),
{
    let mut found: Vec<CIPipeline> = Vec::new();
    match github_pipeline(workflows) {
        Some(p) => {
            found.push(p);
        },
        None => {},
    }
    let known = pipeline_files();
    let ghost first = found.deep_view();
    assert(first =~= if workflows > 0 {
        seq![("GitHub Actions"@, decimal_of(workflows as nat) + " workflow(s)"@)]
    } else {
        Seq::<(Seq<char>, Seq<char>)>::empty()
    });
    if exists.len() != known.len() {
        assert(first + Seq::<(Seq<char>, Seq<char>)>::empty() =~= first);
        return found;
    }
    let ghost ks = known.deep_view();
    let mut i: usize = 0;
    assert(first + present_of(ks.take(0), exists@.take(0)) =~= first);
    while i < known.len()
        invariant
            i <= known.len(),
            exists.len() == known.len(),
            ks == known.deep_view(),
            found.deep_view() == first + present_of(ks.take(i as int), exists@.take(i as int)),
        decreases known.len() - i,
    {
        let ghost before = found.deep_view();
        proof {
            assert(ks.take(i + 1).drop_last() =~= ks.take(i as int));
            assert(exists@.take(i + 1).drop_last() =~= exists@.take(i as int));
            assert(ks.take(i + 1).last() == known[i as int].deep_view());
            assert(exists@.take(i + 1).last() == exists[i as int]);
        }
        if exists[i] {
            let p = CIPipeline {
                platform: known[i].platform.clone(),
                config_file: known[i].config_file.clone(),
            };
            found.push(p);
            assert(found.deep_view() =~= before.push(known[i as int].deep_view()));
        }
        i += 1;
    }
    proof {
        assert(ks.take(i as int) =~= ks);
        assert(exists@.take(i as int) =~= exists@);
    }
    found
}

/// The position of the first entry for `name`; the number of entries where
/// there is none.
pub open spec fn entry_index(recs: Seq<(Seq<char>, Seq<ToolSpec>)>, name: Seq<char>) -> nat
    decreases recs.len(),
{
    if recs.len() == 0 || recs[0].0 == name {
        0
    } else {
        1 + entry_index(recs.drop_first(), name)
    }
}

/// The recommendations with the tools for one language set: in place of
/// the entry that the language had, or behind the others.
pub open spec fn with_entry(
    recs: Seq<(Seq<char>, Seq<ToolSpec>)>,
    name: Seq<char>,
    tools: Seq<ToolSpec>,
) -> Seq<(Seq<char>, Seq<ToolSpec>)> {
    let i = entry_index(recs, name);
    if i < recs.len() {
        recs.update(i as int, (name, tools))
    } else {
        recs.push((name, tools))
    }
}

/// The first position whose entry is for `name` is the entry's index.
pub proof fn lemma_entry_index_is(recs: Seq<(Seq<char>, Seq<ToolSpec>)>, name: Seq<char>, i: int)
    requires
        0 <= i <= recs.len(),
        forall|j: int| 0 <= j < i ==> (#[trigger] recs[j]).0 != name,
        i == recs.len() || recs[i].0 == name,
    ensures
        entry_index(recs, name) == i,
    decreases i,
{
    if i > 0 {
        let t = recs.drop_first();
        assert forall|j: int| 0 <= j < i - 1 implies (#[trigger] t[j]).0 != name by {
            assert(t[j] == recs[j + 1]);
        }
        assert(recs[0].0 != name);
        lemma_entry_index_is(t, name, i - 1);
    }
}

/// The first of `langs` that is called `name`.
pub open spec fn language_named(langs: Seq<LanguageDefSpec>, name: Seq<char>) -> Option<
    LanguageDefSpec,
>
    decreases langs.len(),
{
    if langs.len() == 0 {
        None
    } else if langs[0].name == name {
        Some(langs[0])
    } else {
        language_named(langs.drop_first(), name)
    }
}

/// The tools that a language lacks.
pub open spec fn lacking(
    lang: LanguageDefSpec,
    linters_found: Seq<Seq<char>>,
    formatters_found: Seq<Seq<char>>,
) -> Seq<ToolSpec> {
    missing_of(lang.linters, linters_found) + missing_of(lang.formatters, formatters_found)
}

/// The recommendations for the first `n` project types: for each type whose
/// language is known and lacks a tool, the tools it lacks.
pub open spec fn recommendations_of(
    types: Seq<(Seq<char>, Seq<char>)>,
    n: nat,
    langs: Seq<LanguageDefSpec>,
    linters_found: Seq<Seq<char>>,
    formatters_found: Seq<Seq<char>>,
) -> Seq<(Seq<char>, Seq<ToolSpec>)>
    decreases n,
{
    if n == 0 || n > types.len() {
        Seq::empty()
    } else {
        let before = recommendations_of(
            types,
            (n - 1) as nat,
            langs,
            linters_found,
            formatters_found,
        );
        let name = types[n - 1].0;
        match language_named(langs, name) {
            Some(lang) => {
                let tools = lacking(lang, linters_found, formatters_found);
                if tools.len() > 0 {
                    with_entry(before, name, tools)
                } else {
                    before
                }
            },
            None => before,
        }
    }
}

/// The first of `langs` that is called `name`.
fn find_language<'a>(langs: &'a Vec<LanguageDef>, name: &str) -> (found: Option<&'a LanguageDef>)
    ensures
        match found {
            Some(lang) => language_named(langs.deep_view(), name@) == Some(lang.deep_view()),
            None => language_named(langs.deep_view(), name@) is None,
        },
{
    let ghost all = langs.deep_view();
    let mut i: usize = 0;
    assert(all.skip(0) =~= all);
    while i < langs.len()
        invariant
            i <= langs.len(),
            all == langs.deep_view(),
            language_named(all, name@) == language_named(all.skip(i as int), name@),
        decreases langs.len() - i,
    {
        proof {
            assert(all.skip(i as int)[0] == langs[i as int].deep_view());
            assert(all.skip(i as int).drop_first() =~= all.skip(i + 1));
        }
        if str_eq(langs[i].name.as_str(), name) {
            return Some(&langs[i]);
        }
        i += 1;
    }
    None
}

/// Sets the tools recommended for one language.
fn set_entry(recs: &mut Vec<(String, Vec<Tool>)>, name: &str, tools: Vec<Tool>)
    ensures
        final(recs).deep_view() == with_entry(old(recs).deep_view(), name@, tools.deep_view()),
{
    let ghost before = recs.deep_view();
    let mut i: usize = 0;
    while i < recs.len()
        invariant
            i <= recs.len(),
            before == recs.deep_view(),
            before == old(recs).deep_view(),
            forall|j: int| 0 <= j < i ==> (#[trigger] before[j]).0 != name@,
        decreases recs.len() - i,
    {
        assert(before[i as int] == recs[i as int].deep_view());
        if str_eq(recs[i].0.as_str(), name) {
            proof {
                lemma_entry_index_is(before, name@, i as int);
            }
            let _ = recs.remove(i);
            recs.insert(i, (name.to_owned(), tools));
            assert(recs.deep_view() =~= before.update(i as int, (name@, tools.deep_view())));
            return ;
        }
        i += 1;
    }
    proof {
        lemma_entry_index_is(before, name@, before.len() as int);
    }
    recs.push((name.to_owned(), tools));
    assert(recs.deep_view() =~= before.push((name@, tools.deep_view())));
}

/// The tools to recommend: for each project type whose language is known,
/// the linters and formatters of that language that were not found.
pub fn recommend(
    project_types: &Vec<(String, String)>,
    languages: &Vec<LanguageDef>,
    linters_found: &Vec<String>,
    formatters_found: &Vec<String>,
) -> (recs: Vec<(String, Vec<Tool>)>)
    ensures
        recs.deep_view() == recommendations_of(
            project_types.deep_view(),
            project_types.len() as nat,
            languages.deep_view(),
            linters_found.deep_view(),
            formatters_found.deep_view(),
        ),
{
    let ghost types = project_types.deep_view();
    let mut recs: Vec<(String, Vec<Tool>)> = Vec::new();
    let mut i: usize = 0;
    assert(recs.deep_view() =~= Seq::<(Seq<char>, Seq<ToolSpec>)>::empty());
    while i < project_types.len()
        invariant
            i <= project_types.len(),
            types == project_types.deep_view(),
            recs.deep_view() == recommendations_of(
                types,
                i as nat,
                languages.deep_view(),
                linters_found.deep_view(),
                formatters_found.deep_view(),
            ),
        decreases project_types.len() - i,
    {
        let name = project_types[i].0.as_str();
        assert(types[i as int] == project_types[i as int].deep_view());
        match find_language(languages, name) {
            Some(lang) => {
                let tools = missing_tools(lang, linters_found, formatters_found);
                if tools.len() > 0 {
                    set_entry(&mut recs, name, tools);
                }
            },
            None => {},
        }
        i += 1;
    }
    recs
}

} // verus!
