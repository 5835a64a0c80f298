//! Classification of a file by the extension of its path, and the parts of
//! a path.  A path is read as `std::path::Path` reads one whose separator is
//! `/`.

use vstd::prelude::*;
use crate::text::{chars_eq, lower_ascii, skip_back_until, to_chars, to_lower_ascii, trail};

verus! {

/// Language detection strategy.
#[derive(Debug, Clone, Copy, PartialEq, Eq, Hash, Structural)]
pub enum Language {
    /// Python source.
    Python,
    /// JavaScript.
    JavaScript,
    /// TypeScript.
    TypeScript,
    /// JSX (React).
    Jsx,
    /// TSX (React TypeScript).
    Tsx,
    /// Rust.
    Rust,
    /// Go.
    Go,
    /// Java.
    Java,
    /// Kotlin.
    Kotlin,
    /// C/C++.
    CCpp,
    /// C#.
    CSharp,
    /// Ruby.
    Ruby,
    /// PHP.
    Php,
    /// Swift.
    Swift,
    /// Shell scripts.
    Shell,
    /// Unknown language.
    Unknown,
}

/// A path without the separators and the `.` components at its end.  The
/// root stays, and so does a `.` with which the path starts: `a/b//` and
/// `a/b/.` are `a/b`, `/.` is `/`, and `./` is `.`.
pub open spec fn trimmed_path(path: Seq<char>) -> Seq<char>
    decreases path.len(),
{
    if path.len() <= 1 {
        path
    } else if path.last() == '/' {
        trimmed_path(path.drop_last())
    } else if path.last() == '.' && path[path.len() - 2] == '/' {
        if path.len() == 2 {
            path.take(1)
        } else {
            trimmed_path(path.take(path.len() - 2))
        }
    } else {
        path
    }
}

/// What follows the last `/` of a text; all of it where it has none.
pub open spec fn last_segment(text: Seq<char>) -> Seq<char> {
    text.skip(text.len() - trail(text, |c: char| c != '/'))
}

/// The file name of a path, as `std::path::Path` reads a path whose
/// separator is `/`: its last component, where separators and `.` components
/// at the end of the path do not count.  A path that is empty, is the root or
/// ends in `.` or `..` has no file name; for it this is the empty text, which
/// is never a file name.
pub open spec fn file_name_of(path: Seq<char>) -> Seq<char> {
    let last = last_segment(trimmed_path(path));
    if last == seq!['.'] || last == seq!['.', '.'] {
        Seq::empty()
    } else {
        last
    }
}

/// The extension of a path: what follows the last `.` of its file name.
/// None where the path has no file name, where the name has no `.`, and
/// where its only `.` is its first character.
pub open spec fn extension_of(path: Seq<char>) -> Option<Seq<char>> {
    let name = file_name_of(path);
    let k = trail(name, |c: char| c != '.');
    if k + 1 < name.len() {
        Some(name.skip(name.len() - k))
    } else {
        None
    }
}

/// The stem of a path: its file name without the extension and the dot
/// before it, and all of the file name where it has no extension.  Empty
/// exactly where the path has no file name.
pub open spec fn file_stem_of(path: Seq<char>) -> Seq<char> {
    let name = file_name_of(path);
    match extension_of(path) {
        Some(ext) => name.take(name.len() - ext.len() - 1),
        None => name,
    }
}

/// The parent of a path: the path without its last component, and without
/// the separators and `.` components before that.  The parent of a single
/// relative component is the empty path, that of a file under the root is
/// the root.  The empty path and the root have none.
pub open spec fn parent_of(path: Seq<char>) -> Option<Seq<char>> {
    let whole = trimmed_path(path);
    let last = last_segment(whole);
    if last.len() == 0 {
        None
    } else if last.len() == whole.len() {
        Some(Seq::empty())
    } else if whole.len() - last.len() == 1 {
        Some(whole.take(1))
    } else {
        Some(trimmed_path(whole.take(whole.len() - last.len() - 1)))
    }
}

/// The parts of a path: its parent, and its file name with the stem and
/// the extension of that name.
pub struct PathParts {
    pub directory: Option<String>,
    pub name: String,
    pub stem: String,
    pub extension: Option<String>,
}

/// How much of the first `n` characters of a path is left without the
/// separators and the `.` components at their end.
fn trimmed_len(cs: &Vec<char>, n: usize) -> (end: usize)
    requires
        n <= cs.len(),
    ensures
        end <= n,
        cs@.take(end as int) == trimmed_path(cs@.take(n as int)),
{
    let mut end: usize = n;
    loop
        invariant
            end <= n <= cs.len(),
            trimmed_path(cs@.take(end as int)) == trimmed_path(cs@.take(n as int)),
        ensures
            trimmed_path(cs@.take(end as int)) == cs@.take(end as int),
        decreases end,
    {
        let ghost t = cs@.take(end as int);
        if end <= 1 {
            break ;
        }
        if cs[end - 1] == '/' {
            assert(t.drop_last() =~= cs@.take(end - 1));
            end -= 1;
        } else if cs[end - 1] == '.' && cs[end - 2] == '/' {
            if end == 2 {
                assert(t.take(1) =~= cs@.take(1));
                end = 1;
            } else {
                assert(t.take(t.len() - 2) =~= cs@.take(end - 2));
                end -= 2;
            }
        } else {
            break ;
        }
    }
    end
}

/// Where the last segment of the trimmed path lies, and whether it is a
/// file name.
fn name_bounds(cs: &Vec<char>) -> (b: (usize, usize, bool))
    ensures
        b.0 <= b.1 <= cs.len(),
        cs@.take(b.1 as int) == trimmed_path(cs@),
        cs@.subrange(b.0 as int, b.1 as int) == last_segment(trimmed_path(cs@)),
        b.2 <==> file_name_of(cs@) == last_segment(trimmed_path(cs@)),
        !b.2 ==> file_name_of(cs@) == Seq::<char>::empty(),
{
    let end = trimmed_len(cs, cs.len());
    assert(cs@.take(cs@.len() as int) =~= cs@);
    let start = skip_back_until(cs, 0, end, '/');
    let ghost whole = cs@.take(end as int);
    let ghost last = cs@.subrange(start as int, end as int);
    assert(cs@.subrange(0, end as int) =~= whole);
    assert(last =~= last_segment(whole));
    let one = end - start == 1 && cs[start] == '.';
    let two = end - start == 2 && cs[start] == '.' && cs[start + 1] == '.';
    proof {
        if one {
            assert(last =~= seq!['.']);
        } else if two {
            assert(last =~= seq!['.', '.']);
        } else {
            if last == seq!['.'] {
                assert(last.len() == 1 && last[0] == '.');
            }
            if last == seq!['.', '.'] {
                assert(last.len() == 2 && last[0] == '.' && last[1] == '.');
            }
        }
    }
    (start, end, !one && !two)
}

/// Takes a path apart.
pub fn path_parts(path: &str) -> (parts: PathParts)
    ensures
        parts.directory.deep_view() == parent_of(path@),
        parts.name@ == file_name_of(path@),
        parts.stem@ == file_stem_of(path@),
        parts.extension.deep_view() == extension_of(path@),
{
    let cs = to_chars(path);
    let (first, end, named) = name_bounds(&cs);
    let directory = if first == end {
        None
    } else if first == 0 {
        assert(cs@.subrange(0, end as int) =~= cs@.take(end as int));
        Some(String::new())
    } else if first == 1 {
        assert(cs@.subrange(0, 1) =~= cs@.take(end as int).take(1));
        Some(crate::text::from_chars(&cs, 0, 1))
    } else {
        let stop = trimmed_len(&cs, first - 1);
        assert(cs@.take(end as int).take(first - 1) =~= cs@.take(first - 1));
        assert(cs@.subrange(0, stop as int) =~= cs@.take(stop as int));
        Some(crate::text::from_chars(&cs, 0, stop))
    };
    let start = if named {
        first
    } else {
        end
    };
    let ghost name_text = file_name_of(cs@);
    assert(cs@.subrange(start as int, end as int) =~= name_text);
    let dot = skip_back_until(&cs, start, end, '.');
    let name = crate::text::from_chars(&cs, start, end);
    if dot > start && dot - start > 1 {
        let ext = crate::text::from_chars(&cs, dot, end);
        let stem = crate::text::from_chars(&cs, start, dot - 1);
        proof {
            assert(name_text.skip(name_text.len() - (end - dot)) =~= cs@.subrange(
                dot as int,
                end as int,
            ));
            assert(name_text.take(name_text.len() - (end - dot) - 1) =~= cs@.subrange(
                start as int,
                dot - 1,
            ));
        }
        PathParts { directory, name, stem, extension: Some(ext) }
    } else {
        let stem = name.clone();
        PathParts { directory, name, stem, extension: None }
    }
}

/// The language that a lower-case extension stands for.
pub open spec fn language_of_extension(ext: Seq<char>) -> Language {
    if ext == "py"@ {
        Language::Python
    } else if ext == "js"@ || ext == "mjs"@ || ext == "cjs"@ {
        Language::JavaScript
    } else if ext == "ts"@ {
        Language::TypeScript
    } else if ext == "jsx"@ {
        Language::Jsx
    } else if ext == "tsx"@ {
        Language::Tsx
    } else if ext == "rs"@ {
        Language::Rust
    } else if ext == "go"@ {
        Language::Go
    } else if ext == "java"@ {
        Language::Java
    } else if ext == "kt"@ || ext == "kts"@ {
        Language::Kotlin
    } else if ext == "c"@ || ext == "cpp"@ || ext == "cc"@ || ext == "cxx"@ || ext == "h"@ || ext
        == "hpp"@ {
        Language::CCpp
    } else if ext == "cs"@ {
        Language::CSharp
    } else if ext == "rb"@ {
        Language::Ruby
    } else if ext == "php"@ {
        Language::Php
    } else if ext == "swift"@ {
        Language::Swift
    } else if ext == "sh"@ || ext == "bash"@ || ext == "zsh"@ || ext == "fish"@ {
        Language::Shell
    } else {
        Language::Unknown
    }
}

/// The language of the file at `path`: that of its lower-cased extension, and
/// `Unknown` where it has none.
pub open spec fn classify(path: Seq<char>) -> Language {
    match extension_of(path) {
        Some(ext) => language_of_extension(lower_ascii(ext)),
        None => Language::Unknown,
    }
}

/// A separator at the end of a path does not count: a path that is not
/// empty, and the same path with a `/` behind it, have the same file name,
/// extension, stem and parent, and are of the same language.
pub proof fn law_trailing_separator_is_skipped(path: Seq<char>)
    requires
        path.len() > 0,
    ensures
        file_name_of(path.push('/')) == file_name_of(path),
        extension_of(path.push('/')) == extension_of(path),
        file_stem_of(path.push('/')) == file_stem_of(path),
        parent_of(path.push('/')) == parent_of(path),
        classify(path.push('/')) == classify(path),
{
    assert(path.push('/').drop_last() =~= path);
}

/// Nor does a `.` component at the end of a path: a path that is not empty,
/// and the same path with `/.` behind it, have the same file name,
/// extension, stem and parent, and are of the same language.
pub proof fn law_trailing_dot_is_skipped(path: Seq<char>)
    requires
        path.len() > 0,
    ensures
        file_name_of(path + seq!['/', '.']) == file_name_of(path),
        extension_of(path + seq!['/', '.']) == extension_of(path),
        file_stem_of(path + seq!['/', '.']) == file_stem_of(path),
        parent_of(path + seq!['/', '.']) == parent_of(path),
        classify(path + seq!['/', '.']) == classify(path),
{
    let longer = path + seq!['/', '.'];
    assert(longer.last() == '.');
    assert(longer[longer.len() - 2] == '/');
    assert(longer.take(longer.len() - 2) =~= path);
}

/// Whether the extension `ext` is spelled `lit`.
fn is(ext: &Vec<char>, lit: &str) -> (r: bool)
    ensures
        r == (ext@ == lit@),
{
    let l = to_chars(lit);
    chars_eq(ext, &l)
}

/// The extension of `path`, as [`extension_of`] defines it.
pub fn extension(path: &str) -> (ext: Option<Vec<char>>)
    ensures
        match ext {
            Some(e) => extension_of(path@) == Some(e@),
            None => extension_of(path@) is None,
        },
{
    let cs = to_chars(path);
    let (first, end, named) = name_bounds(&cs);
    let start = if named {
        first
    } else {
        end
    };
    let ghost name = file_name_of(cs@);
    assert(cs@.subrange(start as int, end as int) =~= name);
    let dot = skip_back_until(&cs, start, end, '.');
    if dot > start && dot - start > 1 {
        let mut out: Vec<char> = Vec::new();
        let mut i: usize = dot;
        while i < end
            invariant
                dot <= i <= end <= cs.len(),
                out@ == cs@.subrange(dot as int, i as int),
            decreases end - i,
        {
            out.push(cs[i]);
            assert(cs@.subrange(dot as int, i + 1) =~= cs@.subrange(dot as int, i as int).push(
                cs@[i as int],
            ));
            i += 1;
        }
        proof {
            assert(name.skip(name.len() - (end - dot)) =~= cs@.subrange(dot as int, end as int));
        }
        Some(out)
    } else {
        None
    }
}

impl Language {
    /// Whether a parsing grammar for this language is at hand.
    pub open spec fn has_grammar(self) -> bool {
        self == Language::Python || self == Language::JavaScript || self == Language::Jsx || self
            == Language::TypeScript || self == Language::Tsx || self == Language::Rust
    }

    /// The name under which structural rules refer to this language.
    pub open spec fn grammar_name(self) -> Seq<char> {
        match self {
            Language::Python => "Python"@,
            Language::JavaScript | Language::Jsx => "JavaScript"@,
            Language::TypeScript | Language::Tsx => "TypeScript"@,
            Language::Rust => "Rust"@,
            _ => "Unknown"@,
        }
    }

    /// Detect language from file extension.
    pub fn from_path(path: &str) -> (lang: Language)
        ensures
            lang == classify(path@),
    {
        let ext = match extension(path) {
            Some(e) => to_lower_ascii(&e),
            None => {
                return Language::Unknown;
            },
        };
        if is(&ext, "py") {
            Language::Python
        } else if is(&ext, "js") || is(&ext, "mjs") || is(&ext, "cjs") {
            Language::JavaScript
        } else if is(&ext, "ts") {
            Language::TypeScript
        } else if is(&ext, "jsx") {
            Language::Jsx
        } else if is(&ext, "tsx") {
            Language::Tsx
        } else if is(&ext, "rs") {
            Language::Rust
        } else if is(&ext, "go") {
            Language::Go
        } else if is(&ext, "java") {
            Language::Java
        } else if is(&ext, "kt") || is(&ext, "kts") {
            Language::Kotlin
        } else if is(&ext, "c") || is(&ext, "cpp") || is(&ext, "cc") || is(&ext, "cxx") || is(
            &ext,
            "h",
        ) || is(&ext, "hpp") {
            Language::CCpp
        } else if is(&ext, "cs") {
            Language::CSharp
        } else if is(&ext, "rb") {
            Language::Ruby
        } else if is(&ext, "php") {
            Language::Php
        } else if is(&ext, "swift") {
            Language::Swift
        } else if is(&ext, "sh") || is(&ext, "bash") || is(&ext, "zsh") || is(&ext, "fish") {
            Language::Shell
        } else {
            Language::Unknown
        }
    }

    /// Returns true if tree-sitter supports this language.
    pub fn has_tree_sitter(self) -> (r: bool)
        ensures
            r == self.has_grammar(),
    {
        match self {
            Language::Python
            | Language::JavaScript
            | Language::Jsx
            | Language::TypeScript
            | Language::Tsx
            | Language::Rust => true,
            _ => false,
        }
    }

    /// The name under which structural rules refer to this language.
    pub fn language_name(self) -> (s: &'static str)
        ensures
            s@ == self.grammar_name(),
    {
        match self {
            Language::Python => "Python",
            Language::JavaScript | Language::Jsx => "JavaScript",
            Language::TypeScript | Language::Tsx => "TypeScript",
            Language::Rust => "Rust",
            _ => "Unknown",
        }
    }
}

} // verus!
