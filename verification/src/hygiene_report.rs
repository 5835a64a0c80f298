//! The report of a hygiene survey, as text for a terminal.
//!
//! The report is a column of boxes, 68 cells wide, drawn in amber.  Every
//! line of a box is filled up with blanks to the right edge, as far as its
//! text leaves room.  Lengths are counted in bytes.

use vstd::prelude::*;
use crate::hygiene::{CIPipeline, HygieneSurvey, Tool, ToolSpec};
use crate::report::{dimmed, dimmed_of};
use crate::text::{
    byte_len, byte_len_of, byte_slice, byte_slice_of, lowercase_of, repeat, repeated,
    uppercase_of,
};

verus! {

/// The width of a box.
pub open spec fn box_width() -> nat {
    68
}

/// The escape sequence that turns the colour to amber.
pub open spec fn amber() -> Seq<char> {
    "\x1b[38;5;214m"@
}

/// The escape sequence that resets all attributes.
pub open spec fn reset() -> Seq<char> {
    "\x1b[0m"@
}

/// The blanks that fill a line of which `used` cells are taken.
pub open spec fn pad_of(used: nat) -> Seq<char> {
    repeated(
        " "@,
        if used >= box_width() {
            0nat
        } else {
            (box_width() - used) as nat
        },
    )
}

/// The upper edge of a box.
pub open spec fn top_edge() -> Seq<char> {
    amber() + "┌"@ + repeated("─"@, box_width()) + "┐"@ + reset() + "\n"@
}

/// The lower edge of a box.
pub open spec fn bottom_edge() -> Seq<char> {
    amber() + "└"@ + repeated("─"@, box_width()) + "┘"@ + reset() + "\n"@
}

/// An empty line of a box.
pub open spec fn blank_line() -> Seq<char> {
    amber() + "│"@ + repeated(" "@, box_width()) + "│"@ + reset() + "\n"@
}

/// The upper edge of a box with a title in it.
pub open spec fn section_edge(title: Seq<char>) -> Seq<char> {
    let used = byte_len_of(title) + 3;
    amber() + "┌─ "@ + title + " "@ + repeated(
        "─"@,
        if used >= box_width() {
            0nat
        } else {
            (box_width() - used) as nat
        },
    ) + "┐"@ + reset() + "\n"@
}

/// The blanks before a text of `len` bytes that stands in the middle.
pub open spec fn centre_of(len: nat) -> nat {
    if len >= box_width() {
        0
    } else {
        ((box_width() - len) / 2) as nat
    }
}

/// The box with the title of the report and the path that was surveyed.
pub open spec fn title_box(root: Seq<char>) -> Seq<char> {
    let title = "CODE   HYGIENE   SURVEY"@;
    let path_line = "for "@ + root;
    let a = byte_len_of(title);
    let b = byte_len_of(path_line);
    top_edge() + amber() + "│"@ + repeated(" "@, centre_of(a)) + "\x1b[1m"@ + title + pad_of(
        centre_of(a) + a,
    ) + "│"@ + reset() + "\n"@ + amber() + "│"@ + repeated(" "@, centre_of(b)) + dimmed_of(
        path_line,
    ) + pad_of(centre_of(b) + b) + "│"@ + reset() + "\n"@ + bottom_edge() + "\n"@
}

/// A line of a box that says, in a colour, that something is missing.
pub open spec fn notice_line(colour: Seq<char>, text: Seq<char>, used: nat) -> Seq<char> {
    amber() + "│  "@ + colour + text + reset() + pad_of(used) + "│"@ + reset() + "\n"@
}

/// The two lines for one project type: the language with the marker that
/// was found, and a full bar.
pub open spec fn project_lines(language: Seq<char>, marker: Seq<char>) -> Seq<char> {
    let line = "  "@ + uppercase_of(language) + " PROJECT"@;
    let found = marker + " found"@;
    amber() + "│"@ + "\x1b[1m"@ + line + reset() + pad_of(
        byte_len_of(line) + byte_len_of(found) + 2,
    ) + "  "@ + dimmed_of(found) + "│"@ + reset() + "\n"@ + amber() + "│  "@ + amber()
        + repeated("█"@, 48) + reset() + "  "@ + "100%"@ + pad_of(62) + "│"@ + reset() + "\n"@
}

/// The lines for the first `n` project types.
pub open spec fn projects_text(types: Seq<(Seq<char>, Seq<char>)>, n: nat) -> Seq<char>
    decreases n,
{
    if n == 0 || n > types.len() {
        Seq::empty()
    } else {
        projects_text(types, (n - 1) as nat) + project_lines(types[n - 1].0, types[n - 1].1)
    }
}

/// The box that says of which kinds the project is.
pub open spec fn project_box(types: Seq<(Seq<char>, Seq<char>)>) -> Seq<char> {
    section_edge("PROJECT DETECTION"@) + blank_line() + (if types.len() == 0 {
        notice_line(
            "\x1b[2m"@,
            "No project markers found. Add Cargo.toml, package.json, etc."@,
            60,
        )
    } else {
        projects_text(types, types.len())
    }) + blank_line() + bottom_edge() + "\n"@
}

/// The line for a tool that was found, with its kind at the right.
pub open spec fn tool_line(name: Seq<char>, kind: Seq<char>) -> Seq<char> {
    let line = "  ✓ "@ + name;
    amber() + "│"@ + "\x1b[32m"@ + line + reset() + pad_of(byte_len_of(line) + 20) + " "@
        + dimmed_of(kind) + "│"@ + reset() + "\n"@
}

/// The lines for the first `n` tools of one kind.
pub open spec fn tools_text(names: Seq<Seq<char>>, kind: Seq<char>, n: nat) -> Seq<char>
    decreases n,
{
    if n == 0 || n > names.len() {
        Seq::empty()
    } else {
        tools_text(names, kind, (n - 1) as nat) + tool_line(names[n - 1], kind)
    }
}

/// The box that lists the linters and formatters found.
pub open spec fn tools_box(linters: Seq<Seq<char>>, formatters: Seq<Seq<char>>) -> Seq<char> {
    section_edge("LINTERS & FORMATTERS"@) + blank_line() + (if linters.len() == 0
        && formatters.len() == 0 {
        notice_line("\x1b[31m"@, "✗ No linter or formatter configs found"@, 43)
    } else {
        tools_text(linters, "linter"@, linters.len()) + tools_text(
            formatters,
            "formatter"@,
            formatters.len(),
        )
    }) + blank_line() + bottom_edge() + "\n"@
}

/// The line for one pipeline: the platform, and its configuration at the
/// right.
pub open spec fn pipeline_line(platform: Seq<char>, config: Seq<char>) -> Seq<char> {
    let line = "  "@ + platform;
    amber() + "│"@ + "\x1b[1m"@ + line + reset() + pad_of(
        byte_len_of(line) + byte_len_of(config) + 4,
    ) + "  "@ + dimmed_of(config) + "│"@ + reset() + "\n"@
}

/// The lines for the first `n` pipelines.
pub open spec fn pipelines_text(pipelines: Seq<(Seq<char>, Seq<char>)>, n: nat) -> Seq<char>
    decreases n,
{
    if n == 0 || n > pipelines.len() {
        Seq::empty()
    } else {
        pipelines_text(pipelines, (n - 1) as nat) + pipeline_line(
            pipelines[n - 1].0,
            pipelines[n - 1].1,
        )
    }
}

/// The box that lists the pipelines found.
pub open spec fn pipelines_box(pipelines: Seq<(Seq<char>, Seq<char>)>) -> Seq<char> {
    section_edge("CI/CD PIPELINES"@) + blank_line() + (if pipelines.len() == 0 {
        notice_line("\x1b[31m"@, "✗ No CI/CD configuration found"@, 36)
    } else {
        pipelines_text(pipelines, pipelines.len())
    }) + blank_line() + bottom_edge() + "\n"@
}

/// A line in green.
pub open spec fn green_line(line: Seq<char>) -> Seq<char> {
    amber() + "│"@ + "\x1b[32m"@ + line + reset() + pad_of(byte_len_of(line) + 2) + "│"@
        + reset() + "\n"@
}

/// The box that names the hook configuration found.
pub open spec fn hooks_box(found: Option<Seq<char>>) -> Seq<char> {
    section_edge("PRE-COMMIT HOOKS"@) + blank_line() + (match found {
        Some(config) => green_line("  ✓ "@ + config),
        None => notice_line("\x1b[31m"@, "✗ No pre-commit hooks found"@, 32),
    }) + blank_line() + bottom_edge() + "\n"@
}

/// A dimmed line.
pub open spec fn dimmed_line(line: Seq<char>) -> Seq<char> {
    amber() + "│"@ + dimmed_of(line) + reset() + pad_of(byte_len_of(line) + 2) + "│"@ + reset()
        + "\n"@
}

/// What is said of a tool that is recommended, cut to the room that a line
/// has.
pub open spec fn advice_of(tool: ToolSpec) -> Seq<char> {
    let line = "  • Add "@ + tool.name + " for "@ + lowercase_of(tool.description);
    if byte_len_of(line) > 64 {
        byte_slice_of(line, 0, 61) + "..."@
    } else {
        line
    }
}

/// The lines for the first `n` tools recommended for a language, three at
/// most.
pub open spec fn advice_text(tools: Seq<ToolSpec>, n: nat) -> Seq<char>
    decreases n,
{
    if n == 0 || n > tools.len() || n > 3 {
        Seq::empty()
    } else {
        advice_text(tools, (n - 1) as nat) + dimmed_line(advice_of(tools[n - 1]))
    }
}

/// How many of some tools are shown.
pub open spec fn shown(tools: Seq<ToolSpec>) -> nat {
    if tools.len() > 3 {
        3
    } else {
        tools.len()
    }
}

/// The lines for one language: its name, the tools recommended, and an
/// empty line.
pub open spec fn language_lines(name: Seq<char>, tools: Seq<ToolSpec>) -> Seq<char> {
    let header = "  "@ + name;
    amber() + "│"@ + "\x1b[1m"@ + header + reset() + pad_of(byte_len_of(header) + 2) + "│"@
        + reset() + "\n"@ + advice_text(tools, shown(tools)) + blank_line()
}

/// The lines for the first `n` languages.
pub open spec fn languages_text(recs: Seq<(Seq<char>, Seq<ToolSpec>)>, n: nat) -> Seq<char>
    decreases n,
{
    if n == 0 || n > recs.len() {
        Seq::empty()
    } else {
        languages_text(recs, (n - 1) as nat) + language_lines(recs[n - 1].0, recs[n - 1].1)
    }
}

/// A tip, where it applies.
pub open spec fn tip(applies: bool, line: Seq<char>) -> Seq<char> {
    if applies {
        dimmed_line(line)
    } else {
        Seq::empty()
    }
}

/// What a [`HygieneSurvey`] holds, as plain values.
pub struct SurveySpec {
    pub project_types: Seq<(Seq<char>, Seq<char>)>,
    pub linters_found: Seq<Seq<char>>,
    pub formatters_found: Seq<Seq<char>>,
    pub ci_pipelines: Seq<(Seq<char>, Seq<char>)>,
    pub precommit_found: Option<Seq<char>>,
    pub root_path: Seq<char>,
    pub recommendations: Seq<(Seq<char>, Seq<ToolSpec>)>,
}

impl DeepView for CIPipeline {
    type V = (Seq<char>, Seq<char>);

    open spec fn deep_view(&self) -> (Seq<char>, Seq<char>) {
        (self.platform@, self.config_file@)
    }
}

impl DeepView for HygieneSurvey {
    type V = SurveySpec;

    open spec fn deep_view(&self) -> SurveySpec {
        SurveySpec {
            project_types: self.project_types.deep_view(),
            linters_found: self.linters_found.deep_view(),
            formatters_found: self.formatters_found.deep_view(),
            ci_pipelines: self.ci_pipelines.deep_view(),
            precommit_found: self.precommit_found.deep_view(),
            root_path: self.root_path@,
            recommendations: self.recommendations.deep_view(),
        }
    }
}

/// The box with the recommendations, and the tips below them.
pub open spec fn advice_box(survey: SurveySpec) -> Seq<char> {
    section_edge("RECOMMENDATIONS"@) + blank_line() + (if survey.recommendations.len() == 0 {
        green_line("  ✓ All recommended tools configured!"@)
    } else {
        languages_text(survey.recommendations, survey.recommendations.len())
    }) + tip(
        survey.precommit_found is None && survey.project_types.len() > 0,
        "  💡 Consider adding pre-commit hooks for automated checks"@,
    ) + tip(
        survey.ci_pipelines.len() == 0 && survey.project_types.len() > 0,
        "  💡 Consider adding GitHub Actions or other CI/CD"@,
    ) + bottom_edge()
}

/// The report of a survey: the title, then one box each for the kinds of
/// project, the tools, the pipelines, the hooks and the recommendations.
pub open spec fn report_text(survey: SurveySpec) -> Seq<char> {
    title_box(survey.root_path) + project_box(survey.project_types) + tools_box(
        survey.linters_found,
        survey.formatters_found,
    ) + pipelines_box(survey.ci_pipelines) + hooks_box(survey.precommit_found) + advice_box(survey)
}

/// How many cells are left of a line of which `a + b` are taken.
fn room(a: usize, b: usize) -> (n: usize)
    ensures
        n == if a + b >= box_width() {
            0
        } else {
            box_width() - (a + b)
        },
{
    if a >= 68 || b >= 68 {
        0
    } else if a + b >= 68 {
        0
    } else {
        68 - (a + b)
    }
}

/// The blanks that fill a line of which `a + b` cells are taken.
fn pad(a: usize, b: usize) -> (s: String)
    ensures
        s@ == pad_of((a + b) as nat),
{
    repeat(" ", room(a, b))
}

/// The blanks that fill a line of which `a + b + c` cells are taken.
fn pad3(a: usize, b: usize, c: usize) -> (s: String)
    ensures
        s@ == pad_of((a + b + c) as nat),
{
    if a >= 68 || b >= 68 || c >= 68 {
        repeat(" ", 0)
    } else {
        pad(a + b, c)
    }
}

/// How many blanks stand before a text of `len` bytes in the middle.
fn centre(len: usize) -> (n: usize)
    ensures
        n == centre_of(len as nat),
        n <= 34,
{
    if len >= 68 {
        0
    } else {
        (68 - len) / 2
    }
}

/// Writes the upper edge of a box.
fn write_top(out: &mut String)
    ensures
        final(out)@ == old(out)@ + top_edge(),
{
    let mut text = "\x1b[38;5;214m".to_owned();
    text.push_str("┌");
    text.push_str(repeat("─", 68).as_str());
    text.push_str("┐");
    text.push_str("\x1b[0m");
    text.push_str("\n");
    out.push_str(text.as_str());
}

/// Writes the lower edge of a box.
fn write_bottom(out: &mut String)
    ensures
        final(out)@ == old(out)@ + bottom_edge(),
{
    let mut text = "\x1b[38;5;214m".to_owned();
    text.push_str("└");
    text.push_str(repeat("─", 68).as_str());
    text.push_str("┘");
    text.push_str("\x1b[0m");
    text.push_str("\n");
    out.push_str(text.as_str());
}

/// Writes an empty line of a box.
fn write_blank(out: &mut String)
    ensures
        final(out)@ == old(out)@ + blank_line(),
{
    let mut text = "\x1b[38;5;214m".to_owned();
    text.push_str("│");
    text.push_str(repeat(" ", 68).as_str());
    text.push_str("│");
    text.push_str("\x1b[0m");
    text.push_str("\n");
    out.push_str(text.as_str());
}

/// Writes the upper edge of a box with a title in it.
fn write_section(out: &mut String, title: &str)
    ensures
        final(out)@ == old(out)@ + section_edge(title@),
{
    let mut text = "\x1b[38;5;214m".to_owned();
    text.push_str("┌─ ");
    text.push_str(title);
    text.push_str(" ");
    text.push_str(repeat("─", room(byte_len(title), 3)).as_str());
    text.push_str("┐");
    text.push_str("\x1b[0m");
    text.push_str("\n");
    out.push_str(text.as_str());
}

/// Writes a line that says that something is missing.
fn write_notice(out: &mut String, colour: &str, text: &str, used: usize)
    ensures
        final(out)@ == old(out)@ + notice_line(colour@, text@, used as nat),
{
    let mut line = "\x1b[38;5;214m".to_owned();
    line.push_str("│  ");
    line.push_str(colour);
    line.push_str(text);
    line.push_str("\x1b[0m");
    line.push_str(pad(used, 0).as_str());
    line.push_str("│");
    line.push_str("\x1b[0m");
    line.push_str("\n");
    out.push_str(line.as_str());
}

/// Writes a line in green.
fn write_green(out: &mut String, line: &str)
    ensures
        final(out)@ == old(out)@ + green_line(line@),
{
    let mut text = "\x1b[38;5;214m".to_owned();
    text.push_str("│");
    text.push_str("\x1b[32m");
    text.push_str(line);
    text.push_str("\x1b[0m");
    text.push_str(pad(byte_len(line), 2).as_str());
    text.push_str("│");
    text.push_str("\x1b[0m");
    text.push_str("\n");
    out.push_str(text.as_str());
}

/// Writes a dimmed line.
fn write_dimmed(out: &mut String, line: &str)
    ensures
        final(out)@ == old(out)@ + dimmed_line(line@),
{
    let mut text = "\x1b[38;5;214m".to_owned();
    text.push_str("│");
    text.push_str(dimmed(line).as_str());
    text.push_str("\x1b[0m");
    text.push_str(pad(byte_len(line), 2).as_str());
    text.push_str("│");
    text.push_str("\x1b[0m");
    text.push_str("\n");
    out.push_str(text.as_str());
}

/// Writes the box with the title and the path.
fn write_title(out: &mut String, root: &str)
    ensures
        final(out)@ == old(out)@ + title_box(root@),
{
    let title = "CODE   HYGIENE   SURVEY";
    let mut path_line = "for ".to_owned();
    path_line.push_str(root);
    let mut text = String::new();
    write_top(&mut text);
    assert(text@ =~= top_edge());
    text.push_str("\x1b[38;5;214m");
    text.push_str("│");
    let left = centre(byte_len(title));
    text.push_str(repeat(" ", left).as_str());
    text.push_str("\x1b[1m");
    text.push_str(title);
    text.push_str(pad(left, byte_len(title)).as_str());
    text.push_str("│");
    text.push_str("\x1b[0m");
    text.push_str("\n");
    text.push_str("\x1b[38;5;214m");
    text.push_str("│");
    let left = centre(byte_len(path_line.as_str()));
    text.push_str(repeat(" ", left).as_str());
    text.push_str(dimmed(path_line.as_str()).as_str());
    text.push_str(pad(left, byte_len(path_line.as_str())).as_str());
    text.push_str("│");
    text.push_str("\x1b[0m");
    text.push_str("\n");
    write_bottom(&mut text);
    text.push_str("\n");
    out.push_str(text.as_str());
}

/// Writes the two lines for one project type.
fn write_project(out: &mut String, language: &str, marker: &str)
    ensures
        final(out)@ == old(out)@ + project_lines(language@, marker@),
{
    let mut line = "  ".to_owned();
    line.push_str(language.to_uppercase().as_str());
    line.push_str(" PROJECT");
    let mut found = marker.to_owned();
    found.push_str(" found");
    let mut text = "\x1b[38;5;214m".to_owned();
    text.push_str("│");
    text.push_str("\x1b[1m");
    text.push_str(line.as_str());
    text.push_str("\x1b[0m");
    text.push_str(pad3(byte_len(line.as_str()), byte_len(found.as_str()), 2).as_str());
    text.push_str("  ");
    text.push_str(dimmed(found.as_str()).as_str());
    text.push_str("│");
    text.push_str("\x1b[0m");
    text.push_str("\n");
    text.push_str("\x1b[38;5;214m");
    text.push_str("│  ");
    text.push_str("\x1b[38;5;214m");
    text.push_str(repeat("█", 48).as_str());
    text.push_str("\x1b[0m");
    text.push_str("  ");
    text.push_str("100%");
    text.push_str(pad(62, 0).as_str());
    text.push_str("│");
    text.push_str("\x1b[0m");
    text.push_str("\n");
    out.push_str(text.as_str());
}

/// Writes the box that says of which kinds the project is.
fn write_projects(out: &mut String, types: &Vec<(String, String)>)
    ensures
        final(out)@ == old(out)@ + project_box(types.deep_view()),
{
    let ghost all = types.deep_view();
    let mut text = String::new();
    write_section(&mut text, "PROJECT DETECTION");
    write_blank(&mut text);
    let ghost head = text@;
    assert(head =~= section_edge("PROJECT DETECTION"@) + blank_line());
    if types.len() == 0 {
        write_notice(
            &mut text,
            "\x1b[2m",
            "No project markers found. Add Cargo.toml, package.json, etc.",
            60,
        );
    } else {
        let mut i: usize = 0;
        assert(head + Seq::<char>::empty() =~= head);
        while i < types.len()
            invariant
                i <= types.len(),
                all == types.deep_view(),
                text@ == head + projects_text(all, i as nat),
            decreases types.len() - i,
        {
            let ghost done = projects_text(all, i as nat);
            assert(all[i as int] == types[i as int].deep_view());
            write_project(&mut text, types[i].0.as_str(), types[i].1.as_str());
            assert((head + done) + project_lines(all[i as int].0, all[i as int].1) =~= head + (done
                + project_lines(all[i as int].0, all[i as int].1)));
            i += 1;
        }
    }
    write_blank(&mut text);
    write_bottom(&mut text);
    text.push_str("\n");
    assert(text@ =~= project_box(all));
    out.push_str(text.as_str());
}

/// Writes the line for a tool that was found.
fn write_tool(out: &mut String, name: &str, kind: &str)
    ensures
        final(out)@ == old(out)@ + tool_line(name@, kind@),
{
    let mut line = "  ✓ ".to_owned();
    line.push_str(name);
    let mut text = "\x1b[38;5;214m".to_owned();
    text.push_str("│");
    text.push_str("\x1b[32m");
    text.push_str(line.as_str());
    text.push_str("\x1b[0m");
    text.push_str(pad(byte_len(line.as_str()), 20).as_str());
    text.push_str(" ");
    text.push_str(dimmed(kind).as_str());
    text.push_str("│");
    text.push_str("\x1b[0m");
    text.push_str("\n");
    out.push_str(text.as_str());
}

/// Writes the lines for the tools of one kind.
fn write_tools_of(out: &mut String, names: &Vec<String>, kind: &str)
    ensures
        final(out)@ == old(out)@ + tools_text(names.deep_view(), kind@, names.len() as nat),
{
    let ghost start = out@;
    let ghost all = names.deep_view();
    let mut i: usize = 0;
    assert(start + Seq::<char>::empty() =~= start);
    while i < names.len()
        invariant
            i <= names.len(),
            all == names.deep_view(),
            out@ == start + tools_text(all, kind@, i as nat),
        decreases names.len() - i,
    {
        let ghost done = tools_text(all, kind@, i as nat);
        assert(all[i as int] == names[i as int]@);
        write_tool(out, names[i].as_str(), kind);
        assert((start + done) + tool_line(all[i as int], kind@) =~= start + (done + tool_line(
            all[i as int],
            kind@,
        )));
        i += 1;
    }
}

/// Writes the box that lists the linters and formatters found.
fn write_tools(out: &mut String, linters: &Vec<String>, formatters: &Vec<String>)
    ensures
        final(out)@ == old(out)@ + tools_box(linters.deep_view(), formatters.deep_view()),
{
    let mut text = String::new();
    write_section(&mut text, "LINTERS & FORMATTERS");
    write_blank(&mut text);
    let ghost head = text@;
    assert(head =~= section_edge("LINTERS & FORMATTERS"@) + blank_line());
    if linters.len() == 0 && formatters.len() == 0 {
        write_notice(&mut text, "\x1b[31m", "✗ No linter or formatter configs found", 43);
    } else {
        write_tools_of(&mut text, linters, "linter");
        write_tools_of(&mut text, formatters, "formatter");
        assert(text@ =~= head + (tools_text(
            linters.deep_view(),
            "linter"@,
            linters.len() as nat,
        ) + tools_text(formatters.deep_view(), "formatter"@, formatters.len() as nat)));
    }
    write_blank(&mut text);
    write_bottom(&mut text);
    text.push_str("\n");
    assert(text@ =~= tools_box(linters.deep_view(), formatters.deep_view()));
    out.push_str(text.as_str());
}

/// Writes the line for one pipeline.
fn write_pipeline(out: &mut String, pipeline: &CIPipeline)
    ensures
        final(out)@ == old(out)@ + pipeline_line(pipeline.platform@, pipeline.config_file@),
{
    let mut line = "  ".to_owned();
    line.push_str(pipeline.platform.as_str());
    let mut text = "\x1b[38;5;214m".to_owned();
    text.push_str("│");
    text.push_str("\x1b[1m");
    text.push_str(line.as_str());
    text.push_str("\x1b[0m");
    text.push_str(
        pad3(byte_len(line.as_str()), byte_len(pipeline.config_file.as_str()), 4).as_str(),
    );
    text.push_str("  ");
    text.push_str(dimmed(pipeline.config_file.as_str()).as_str());
    text.push_str("│");
    text.push_str("\x1b[0m");
    text.push_str("\n");
    out.push_str(text.as_str());
}

/// Writes the box that lists the pipelines found.
fn write_pipelines(out: &mut String, pipelines: &Vec<CIPipeline>)
    ensures
        final(out)@ == old(out)@ + pipelines_box(pipelines.deep_view()),
{
    let ghost all = pipelines.deep_view();
    let mut text = String::new();
    write_section(&mut text, "CI/CD PIPELINES");
    write_blank(&mut text);
    let ghost head = text@;
    assert(head =~= section_edge("CI/CD PIPELINES"@) + blank_line());
    if pipelines.len() == 0 {
        write_notice(&mut text, "\x1b[31m", "✗ No CI/CD configuration found", 36);
    } else {
        let mut i: usize = 0;
        assert(head + Seq::<char>::empty() =~= head);
        while i < pipelines.len()
            invariant
                i <= pipelines.len(),
                all == pipelines.deep_view(),
                text@ == head + pipelines_text(all, i as nat),
            decreases pipelines.len() - i,
        {
            let ghost done = pipelines_text(all, i as nat);
            assert(all[i as int] == pipelines[i as int].deep_view());
            write_pipeline(&mut text, &pipelines[i]);
            assert((head + done) + pipeline_line(all[i as int].0, all[i as int].1) =~= head + (done
                + pipeline_line(all[i as int].0, all[i as int].1)));
            i += 1;
        }
    }
    write_blank(&mut text);
    write_bottom(&mut text);
    text.push_str("\n");
    assert(text@ =~= pipelines_box(all));
    out.push_str(text.as_str());
}

/// Writes the box that names the hook configuration found.
fn write_hooks(out: &mut String, found: &Option<String>)
    ensures
        final(out)@ == old(out)@ + hooks_box(found.deep_view()),
{
    let mut text = String::new();
    write_section(&mut text, "PRE-COMMIT HOOKS");
    write_blank(&mut text);
    match found {
        Some(config) => {
            let mut line = "  ✓ ".to_owned();
            line.push_str(config.as_str());
            write_green(&mut text, line.as_str());
        },
        None => {
            write_notice(&mut text, "\x1b[31m", "✗ No pre-commit hooks found", 32);
        },
    }
    write_blank(&mut text);
    write_bottom(&mut text);
    text.push_str("\n");
    assert(text@ =~= hooks_box(found.deep_view()));
    out.push_str(text.as_str());
}

/// What is said of a tool that is recommended.
fn advice(tool: &Tool) -> (line: String)
    ensures
        line@ == advice_of(tool.deep_view()),
{
    let mut line = "  • Add ".to_owned();
    line.push_str(tool.name.as_str());
    line.push_str(" for ");
    line.push_str(tool.description.as_str().to_lowercase().as_str());
    if byte_len(line.as_str()) > 64 {
        let mut cut = byte_slice(line.as_str(), 0, 61);
        cut.push_str("...");
        cut
    } else {
        line
    }
}

/// Writes the lines for one language and the tools recommended for it.
fn write_language(out: &mut String, name: &str, tools: &Vec<Tool>)
    ensures
        final(out)@ == old(out)@ + language_lines(name@, tools.deep_view()),
{
    let ghost all = tools.deep_view();
    let mut header = "  ".to_owned();
    header.push_str(name);
    let mut text = "\x1b[38;5;214m".to_owned();
    text.push_str("│");
    text.push_str("\x1b[1m");
    text.push_str(header.as_str());
    text.push_str("\x1b[0m");
    text.push_str(pad(byte_len(header.as_str()), 2).as_str());
    text.push_str("│");
    text.push_str("\x1b[0m");
    text.push_str("\n");
    let ghost head = text@;
    let count: usize = if tools.len() > 3 {
        3
    } else {
        tools.len()
    };
    let mut i: usize = 0;
    assert(head + Seq::<char>::empty() =~= head);
    while i < count
        invariant
            i <= count,
            count <= 3,
            count <= tools.len(),
            all == tools.deep_view(),
            text@ == head + advice_text(all, i as nat),
        decreases count - i,
    {
        let ghost done = advice_text(all, i as nat);
        assert(all[i as int] == tools[i as int].deep_view());
        let line = advice(&tools[i]);
        write_dimmed(&mut text, line.as_str());
        assert((head + done) + dimmed_line(line@) =~= head + (done + dimmed_line(line@)));
        i += 1;
    }
    write_blank(&mut text);
    assert(text@ =~= language_lines(name@, all));
    out.push_str(text.as_str());
}

/// Writes the box with the recommendations and the tips.
fn write_advice(out: &mut String, survey: &HygieneSurvey)
    ensures
        final(out)@ == old(out)@ + advice_box(survey.deep_view()),
{
    let ghost recs = survey.recommendations.deep_view();
    let mut text = String::new();
    write_section(&mut text, "RECOMMENDATIONS");
    write_blank(&mut text);
    let ghost head = text@;
    assert(head =~= section_edge("RECOMMENDATIONS"@) + blank_line());
    if survey.recommendations.len() == 0 {
        write_green(&mut text, "  ✓ All recommended tools configured!");
    } else {
        let mut i: usize = 0;
        assert(head + Seq::<char>::empty() =~= head);
        while i < survey.recommendations.len()
            invariant
                i <= survey.recommendations.len(),
                recs == survey.recommendations.deep_view(),
                text@ == head + languages_text(recs, i as nat),
            decreases survey.recommendations.len() - i,
        {
            let ghost done = languages_text(recs, i as nat);
            let entry = &survey.recommendations[i];
            assert(recs[i as int] == entry.deep_view());
            write_language(&mut text, entry.0.as_str(), &entry.1);
            assert((head + done) + language_lines(recs[i as int].0, recs[i as int].1) =~= head + (
            done + language_lines(recs[i as int].0, recs[i as int].1)));
            i += 1;
        }
    }
    let ghost body = text@;
    if survey.precommit_found.is_none() && survey.project_types.len() > 0 {
        write_dimmed(&mut text, "  💡 Consider adding pre-commit hooks for automated checks");
    } else {
        assert(body + Seq::<char>::empty() =~= body);
    }
    let ghost tipped = text@;
    if survey.ci_pipelines.len() == 0 && survey.project_types.len() > 0 {
        write_dimmed(&mut text, "  💡 Consider adding GitHub Actions or other CI/CD");
    } else {
        assert(tipped + Seq::<char>::empty() =~= tipped);
    }
    write_bottom(&mut text);
    assert(text@ =~= advice_box(survey.deep_view()));
    out.push_str(text.as_str());
}

/// The report of a hygiene survey.
pub fn render_report(survey: &HygieneSurvey) -> (text: String)
    ensures
        text@ == report_text(survey.deep_view()),
{
    let mut text = String::new();
    write_title(&mut text, survey.root_path.as_str());
    assert(text@ =~= title_box(survey.root_path@));
    write_projects(&mut text, &survey.project_types);
    write_tools(&mut text, &survey.linters_found, &survey.formatters_found);
    write_pipelines(&mut text, &survey.ci_pipelines);
    write_hooks(&mut text, &survey.precommit_found);
    write_advice(&mut text, survey);
    text
}

} // verus!
