//! Regex-based comment extraction fallback.
//!
//! This extractor knows no language.  It looks on every line for the common
//! line-comment markers, each family on its own, and pairs block-comment
//! delimiters across lines.  A line on which several families match yields
//! one comment for each of them.

use vstd::prelude::*;
use crate::detector::{capped_usize, Comment, CommentSpec};
use crate::rx::{compile, compiles, find, matches_in, regex_compile, regex_find};
use crate::text::{
    ends_with, from_chars, has_prefix, has_suffix, join_lines, join_of, lines_of, skip_any,
    skip_space, skip_space_back, split_lines, starts_with, string_of, strip_leading, to_chars,
    trim, trim_of,
};

verus! {

/// The line-comment patterns, one for each family of markers.
pub open spec fn line_sources() -> Seq<Seq<char>> {
    seq!["//.*"@, "#.*"@, "--.*"@, "%.*"@, ";.*"@]
}

/// The patterns that open a block comment.
pub open spec fn open_sources() -> Seq<Seq<char>> {
    seq!["/\\*"@, "\"\"\""@, "'''"@, "<!--"@]
}

/// The patterns that close a block comment, in the order of [`open_sources`].
pub open spec fn close_sources() -> Seq<Seq<char>> {
    seq!["\\*/"@, "\"\"\""@, "'''"@, "-->"@]
}

/// The matchers of those `sources` that compile, in their order.
pub open spec fn compile_each(sources: Seq<Seq<char>>) -> Seq<regex::Regex>
    decreases sources.len(),
{
    if sources.len() == 0 {
        Seq::empty()
    } else if compiles(sources.last()) {
        compile_each(sources.drop_last()).push(regex_compile(sources.last())->Ok_0)
    } else {
        compile_each(sources.drop_last())
    }
}

/// The pairs of matchers of those delimiter pairs of which both patterns
/// compile, in their order.
pub open spec fn compile_pairs(opens: Seq<Seq<char>>, closes: Seq<Seq<char>>) -> Seq<
    (regex::Regex, regex::Regex),
>
    decreases opens.len(),
{
    if opens.len() == 0 || closes.len() != opens.len() {
        Seq::empty()
    } else if compiles(opens.last()) && compiles(closes.last()) {
        compile_pairs(opens.drop_last(), closes.drop_last()).push(
            (regex_compile(opens.last())->Ok_0, regex_compile(closes.last())->Ok_0),
        )
    } else {
        compile_pairs(opens.drop_last(), closes.drop_last())
    }
}

/// The marker characters removed from the start of a line comment.
pub open spec fn markers() -> Seq<char> {
    seq!['/', '#', '-', '%', ';', '"', '\'']
}

/// The marker characters removed in a second pass.
pub open spec fn quote_markers() -> Seq<char> {
    seq!['/', '"', '\'']
}

/// The content of a line comment: the matched text without its leading
/// marker characters and without the white space around what is left.
pub open spec fn line_content(matched: Seq<char>) -> Seq<char> {
    trim_of(strip_leading(strip_leading(matched, markers()), quote_markers()))
}

/// The comment, if any, that one family of markers finds on one line.
pub open spec fn line_hit(re: regex::Regex, line: Seq<char>, idx: nat) -> Seq<CommentSpec> {
    match regex_find(re, line) {
        Some(m) => {
            let content = line_content(m.text);
            if content.len() > 0 {
                seq![
                    CommentSpec {
                        line: idx + 1,
                        column: capped_usize(m.start + 1) as nat,
                        content,
                    },
                ]
            } else {
                Seq::empty()
            }
        },
        None => Seq::empty(),
    }
}

/// The comments that the families find on one line, family after family.
pub open spec fn line_hits(res: Seq<regex::Regex>, line: Seq<char>, idx: nat) -> Seq<CommentSpec>
    decreases res.len(),
{
    if res.len() == 0 {
        Seq::empty()
    } else {
        line_hits(res.drop_last(), line, idx) + line_hit(res.last(), line, idx)
    }
}

/// The line comments of a text, line after line.
pub open spec fn line_pass(res: Seq<regex::Regex>, lines: Seq<Seq<char>>) -> Seq<CommentSpec>
    decreases lines.len(),
{
    if lines.len() == 0 {
        Seq::empty()
    } else {
        line_pass(res, lines.drop_last()) + line_hits(
            res,
            lines.last(),
            (lines.len() - 1) as nat,
        )
    }
}

/// Whether some opening pattern matches in `line`.
pub open spec fn opens_block(pairs: Seq<(regex::Regex, regex::Regex)>, line: Seq<char>) -> bool {
    exists|k: int| 0 <= k < pairs.len() && matches_in(#[trigger] pairs[k].0, line)
}

/// Whether some closing pattern matches in `line`.
pub open spec fn closes_block(pairs: Seq<(regex::Regex, regex::Regex)>, line: Seq<char>) -> bool {
    exists|k: int| 0 <= k < pairs.len() && matches_in(#[trigger] pairs[k].1, line)
}

/// The delimiters that open a block comment, as they are written.
pub open spec fn opening_delimiters() -> Seq<Seq<char>> {
    seq!["/*"@, "\"\"\""@, "'''"@, "<!--"@]
}

/// The delimiters that close a block comment, as they are written.
pub open spec fn closing_delimiters() -> Seq<Seq<char>> {
    seq!["*/"@, "\"\"\""@, "'''"@, "-->"@]
}

/// A text without the first of some delimiters with which it starts; the
/// text itself where it starts with none.
pub open spec fn without_opening(t: Seq<char>, delimiters: Seq<Seq<char>>) -> Seq<char>
    decreases delimiters.len(),
{
    if delimiters.len() == 0 {
        t
    } else if starts_with(t, delimiters[0]) {
        t.skip(delimiters[0].len() as int)
    } else {
        without_opening(t, delimiters.drop_first())
    }
}

/// A text without the first of some delimiters with which it ends; the text
/// itself where it ends with none.
pub open spec fn without_closing(t: Seq<char>, delimiters: Seq<Seq<char>>) -> Seq<char>
    decreases delimiters.len(),
{
    if delimiters.len() == 0 {
        t
    } else if ends_with(t, delimiters[0]) {
        t.take(t.len() - delimiters[0].len())
    } else {
        without_closing(t, delimiters.drop_first())
    }
}

/// The content of a block comment, from the lines that it spans, joined:
/// the text without the white space around it, without the opening
/// delimiter at its start and the closing delimiter at its end, and without
/// the white space around what is left.
pub open spec fn block_content(joined: Seq<char>) -> Seq<char> {
    trim_of(
        without_closing(
            without_opening(trim_of(joined), opening_delimiters()),
            closing_delimiters(),
        ),
    )
}

/// The comment made of the lines `first..=last`, unless it is empty.
pub open spec fn block_comment(lines: Seq<Seq<char>>, first: nat, last: nat) -> Seq<CommentSpec> {
    let content = block_content(join_of(lines.subrange(first as int, last as int + 1), seq!['\n']));
    if content.len() > 0 {
        seq![CommentSpec { line: first + 1, column: 1, content }]
    } else {
        Seq::empty()
    }
}

/// Where the pairing of block delimiters stands after some lines.
pub struct BlockState {
    /// The line on which the block that is open began.
    pub open: Option<nat>,
    /// The block comments completed so far.
    pub done: Seq<CommentSpec>,
}

/// The pairing of block delimiters after the first `n` lines.  Outside a
/// block, a line with an opening delimiter begins one.  Inside, a later line
/// with any closing delimiter ends it, and the lines from the first to that
/// one make a comment.
pub open spec fn block_pass(pairs: Seq<(regex::Regex, regex::Regex)>, lines: Seq<Seq<char>>, n: nat)
    -> BlockState
    decreases n,
{
    if n == 0 || n > lines.len() {
        BlockState { open: None, done: Seq::empty() }
    } else {
        let before = block_pass(pairs, lines, (n - 1) as nat);
        let line = lines[n - 1];
        match before.open {
            Some(first) => {
                if closes_block(pairs, line) {
                    BlockState {
                        open: None,
                        done: before.done + block_comment(lines, first, (n - 1) as nat),
                    }
                } else {
                    before
                }
            },
            None => {
                if opens_block(pairs, line) {
                    BlockState { open: Some((n - 1) as nat), done: before.done }
                } else {
                    before
                }
            },
        }
    }
}

/// The comments that the fallback extracts from a text: its line comments,
/// then its block comments.
pub open spec fn fallback_comments(
    res: Seq<regex::Regex>,
    pairs: Seq<(regex::Regex, regex::Regex)>,
    source: Seq<char>,
) -> Seq<CommentSpec> {
    let lines = lines_of(source);
    line_pass(res, lines) + block_pass(pairs, lines, lines.len()).done
}

/// Regex-based comment extractor.
pub struct RegexExtractor {
    /// Line comment patterns.
    pub line_comments: Vec<regex::Regex>,
    /// Block comment patterns (open, close).
    pub block_comments: Vec<(regex::Regex, regex::Regex)>,
}

/// Compiles those of `sources` that compile.
fn compile_all(sources: &Vec<&str>) -> (out: Vec<regex::Regex>)
    ensures
        out@ == compile_each(sources.deep_view()),
{
    let ghost all = sources.deep_view();
    let mut out: Vec<regex::Regex> = Vec::new();
    let mut i: usize = 0;
    while i < sources.len()
        invariant
            i <= sources.len(),
            all == sources.deep_view(),
            out@ == compile_each(all.take(i as int)),
        decreases sources.len() - i,
    {
        proof {
            assert(all.take(i + 1).drop_last() =~= all.take(i as int));
            assert(all.take(i + 1).last() == sources[i as int]@);
        }
        match compile(sources[i]) {
            Ok(re) => {
                out.push(re);
            },
            Err(_) => {},
        }
        i += 1;
    }
    assert(all.take(i as int) =~= all);
    out
}

/// Compiles those delimiter pairs of which both patterns compile.
fn compile_both(opens: &Vec<&str>, closes: &Vec<&str>) -> (out: Vec<(regex::Regex, regex::Regex)>)
    requires
        opens.len() == closes.len(),
    ensures
        out@ == compile_pairs(opens.deep_view(), closes.deep_view()),
{
    let ghost os = opens.deep_view();
    let ghost cs = closes.deep_view();
    let mut out: Vec<(regex::Regex, regex::Regex)> = Vec::new();
    let mut i: usize = 0;
    while i < opens.len()
        invariant
            i <= opens.len(),
            opens.len() == closes.len(),
            os == opens.deep_view(),
            cs == closes.deep_view(),
            out@ == compile_pairs(os.take(i as int), cs.take(i as int)),
        decreases opens.len() - i,
    {
        proof {
            assert(os.take(i + 1).drop_last() =~= os.take(i as int));
            assert(cs.take(i + 1).drop_last() =~= cs.take(i as int));
            assert(os.take(i + 1).last() == opens[i as int]@);
            assert(cs.take(i + 1).last() == closes[i as int]@);
        }
        match compile(opens[i]) {
            Ok(open) => {
                match compile(closes[i]) {
                    Ok(close) => {
                        out.push((open, close));
                    },
                    Err(_) => {},
                }
            },
            Err(_) => {},
        }
        i += 1;
    }
    assert(os.take(i as int) =~= os);
    assert(cs.take(i as int) =~= cs);
    out
}

/// The content of a line comment, from the text that its pattern matched.
pub fn comment_content(matched: &str) -> (out: String)
    ensures
        out@ == line_content(matched@),
{
    let cs = to_chars(matched);
    let n = cs.len();
    let set: Vec<char> = vec!['/', '#', '-', '%', ';', '"', '\''];
    let quotes: Vec<char> = vec!['/', '"', '\''];
    assert(set@ =~= markers());
    assert(quotes@ =~= quote_markers());
    let a = skip_any(&cs, 0, n, &set);
    let b = skip_any(&cs, a, n, &quotes);
    let c = skip_space(&cs, b, n);
    let d = skip_space_back(&cs, c, n);
    let out = from_chars(&cs, c, d);
    proof {
        let s0 = cs@;
        assert(s0.subrange(0, n as int) =~= s0);
        let s1 = strip_leading(s0, markers());
        assert(s1 =~= s0.subrange(a as int, n as int));
        let s2 = strip_leading(s1, quote_markers());
        assert(s2 =~= s0.subrange(b as int, n as int));
        assert(s2.skip(c - b) =~= s0.subrange(c as int, n as int));
        assert(s0.subrange(c as int, n as int).take(d - c) =~= s0.subrange(c as int, d as int));
    }
    out
}

/// A text without the first of some delimiters with which it starts.
fn strip_opening(t: Vec<char>, delimiters: &Vec<&str>) -> (out: Vec<char>)
    ensures
        out@ == without_opening(t@, delimiters.deep_view()),
{
    let ghost all = delimiters.deep_view();
    let mut i: usize = 0;
    assert(all.skip(0) =~= all);
    while i < delimiters.len()
        invariant
            i <= delimiters.len(),
            all == delimiters.deep_view(),
            without_opening(t@, all) == without_opening(t@, all.skip(i as int)),
        decreases delimiters.len() - i,
    {
        proof {
            assert(all.skip(i as int)[0] == delimiters[i as int]@);
            assert(all.skip(i as int).drop_first() =~= all.skip(i + 1));
        }
        let d = to_chars(delimiters[i]);
        if has_prefix(&t, &d) {
            let rest = from_chars(&t, d.len(), t.len());
            assert(t@.subrange(d@.len() as int, t@.len() as int) =~= t@.skip(d@.len() as int));
            return to_chars(rest.as_str());
        }
        i += 1;
    }
    t
}

/// A text without the first of some delimiters with which it ends.
fn strip_closing(t: Vec<char>, delimiters: &Vec<&str>) -> (out: Vec<char>)
    ensures
        out@ == without_closing(t@, delimiters.deep_view()),
{
    let ghost all = delimiters.deep_view();
    let mut i: usize = 0;
    assert(all.skip(0) =~= all);
    while i < delimiters.len()
        invariant
            i <= delimiters.len(),
            all == delimiters.deep_view(),
            without_closing(t@, all) == without_closing(t@, all.skip(i as int)),
        decreases delimiters.len() - i,
    {
        proof {
            assert(all.skip(i as int)[0] == delimiters[i as int]@);
            assert(all.skip(i as int).drop_first() =~= all.skip(i + 1));
        }
        let d = to_chars(delimiters[i]);
        if has_suffix(&t, &d) {
            let rest = from_chars(&t, 0, t.len() - d.len());
            assert(t@.subrange(0, t@.len() - d@.len()) =~= t@.take(t@.len() - d@.len()));
            return to_chars(rest.as_str());
        }
        i += 1;
    }
    t
}

/// The content of a block comment, from the lines that it spans, joined.
pub fn block_comment_content(joined: &str) -> (out: String)
    ensures
        out@ == block_content(joined@),
{
    let opening: Vec<&str> = vec!["/*", "\"\"\"", "'''", "<!--"];
    let closing: Vec<&str> = vec!["*/", "\"\"\"", "'''", "-->"];
    assert(opening.deep_view() =~= opening_delimiters());
    assert(closing.deep_view() =~= closing_delimiters());
    let t = to_chars(trim(joined).as_str());
    let inner = strip_closing(strip_opening(t, &opening), &closing);
    trim(string_of(&inner).as_str())
}

impl RegexExtractor {
    /// The line matchers, as plain values.
    pub open spec fn lines(&self) -> Seq<regex::Regex> {
        self.line_comments@
    }

    /// The block delimiter matchers, as plain values.
    pub open spec fn blocks(&self) -> Seq<(regex::Regex, regex::Regex)> {
        self.block_comments@
    }

    /// The comments that this extractor finds in a text.
    pub open spec fn comments_of(&self, source: Seq<char>) -> Seq<CommentSpec> {
        fallback_comments(self.lines(), self.blocks(), source)
    }

    /// Create a new regex-based extractor.
    pub fn new() -> (e: Self)
        ensures
            e.lines() == compile_each(line_sources()),
            e.blocks() == compile_pairs(open_sources(), close_sources()),
    {
        let lines: Vec<&str> = vec!["//.*", "#.*", "--.*", "%.*", ";.*"];
        let opens: Vec<&str> = vec!["/\\*", "\"\"\"", "'''", "<!--"];
        let closes: Vec<&str> = vec!["\\*/", "\"\"\"", "'''", "-->"];
        assert(lines.deep_view() =~= line_sources());
        assert(opens.deep_view() =~= open_sources());
        assert(closes.deep_view() =~= close_sources());
        RegexExtractor {
            line_comments: compile_all(&lines),
            block_comments: compile_both(&opens, &closes),
        }
    }

    /// Extract all comments from source code.
    pub fn extract(&self, source: &str) -> (comments: Vec<Comment>)
        ensures
            comments.deep_view() == self.comments_of(source@),
    {
        let mut comments: Vec<Comment> = Vec::new();
        let lines = split_lines(source);
        let ghost ls = lines.deep_view();
        let ghost res = self.lines();
        let mut idx: usize = 0;
        assert(ls.take(0) =~= Seq::<Seq<char>>::empty());
        assert(comments.deep_view() =~= Seq::<CommentSpec>::empty());
        while idx < lines.len()
            invariant
                idx <= lines.len(),
                ls == lines.deep_view(),
                res == self.line_comments@,
                comments.deep_view() == line_pass(res, ls.take(idx as int)),
            decreases lines.len() - idx,
        {
            let line = lines[idx].as_str();
            let ghost before = comments.deep_view();
            proof {
                assert(ls.take(idx + 1).drop_last() =~= ls.take(idx as int));
                assert(ls.take(idx + 1).last() == line@);
                assert(res.take(0) =~= Seq::<regex::Regex>::empty());
                assert(before + Seq::<CommentSpec>::empty() =~= before);
            }
            let mut k: usize = 0;
            while k < self.line_comments.len()
                invariant
                    k <= self.line_comments.len(),
                    idx < lines.len(),
                    res == self.line_comments@,
                    comments.deep_view() == before + line_hits(
                        res.take(k as int),
                        line@,
                        idx as nat,
                    ),
                decreases self.line_comments.len() - k,
            {
                let ghost sofar = comments.deep_view();
                proof {
                    assert(res.take(k + 1).drop_last() =~= res.take(k as int));
                    assert(res.take(k + 1).last() == self.line_comments[k as int]);
                }
                match find(&self.line_comments[k], line) {
                    Some(m) => {
                        let content = comment_content(m.text.as_str());
                        if !content.as_str().is_empty() {
                            let c = Comment {
                                line: idx + 1,
                                column: m.start.saturating_add(1),
                                content,
                            };
                            comments.push(c);
                            assert(comments.deep_view() =~= sofar.push(c.deep_view()));
                            assert(sofar.push(c.deep_view()) =~= sofar + seq![c.deep_view()]);
                        } else {
                            assert(sofar + Seq::<CommentSpec>::empty() =~= sofar);
                        }
                    },
                    None => {
                        assert(sofar + Seq::<CommentSpec>::empty() =~= sofar);
                    },
                }
                proof {
                    let hit = line_hit(self.line_comments[k as int], line@, idx as nat);
                    let prev = line_hits(res.take(k as int), line@, idx as nat);
                    assert(before + (prev + hit) =~= (before + prev) + hit);
                }
                k += 1;
            }
            proof {
                assert(res.take(k as int) =~= res);
            }
            idx += 1;
        }
        proof {
            assert(ls.take(idx as int) =~= ls);
        }
        self.extract_block_comments(&lines, &mut comments);
        comments
    }

    /// Whether some opening delimiter matches in `line`.
    fn opens_in(&self, line: &str) -> (r: bool)
        ensures
            r == opens_block(self.blocks(), line@),
    {
        let mut k: usize = 0;
        while k < self.block_comments.len()
            invariant
                k <= self.block_comments.len(),
                forall|j: int|
                    0 <= j < k ==> !matches_in(#[trigger] self.block_comments@[j].0, line@),
            decreases self.block_comments.len() - k,
        {
            if find(&self.block_comments[k].0, line).is_some() {
                return true;
            }
            k += 1;
        }
        false
    }

    /// Whether some closing delimiter matches in `line`.
    fn closes_in(&self, line: &str) -> (r: bool)
        ensures
            r == closes_block(self.blocks(), line@),
    {
        let mut k: usize = 0;
        while k < self.block_comments.len()
            invariant
                k <= self.block_comments.len(),
                forall|j: int|
                    0 <= j < k ==> !matches_in(#[trigger] self.block_comments@[j].1, line@),
            decreases self.block_comments.len() - k,
        {
            if find(&self.block_comments[k].1, line).is_some() {
                return true;
            }
            k += 1;
        }
        false
    }

    /// Extract block comments (multi-line), and append them to `comments`.
    pub fn extract_block_comments(&self, lines: &Vec<String>, comments: &mut Vec<Comment>)
        ensures
            final(comments).deep_view() == old(comments).deep_view() + block_pass(
                self.blocks(),
                lines.deep_view(),
                lines.len() as nat,
            ).done,
    {
        let ghost ls = lines.deep_view();
        let ghost start = comments.deep_view();
        let ghost pairs = self.blocks();
        let mut in_block: Option<usize> = None;
        let mut idx: usize = 0;
        assert(start + Seq::<CommentSpec>::empty() =~= start);
        while idx < lines.len()
            invariant
                idx <= lines.len(),
                ls == lines.deep_view(),
                pairs == self.blocks(),
                in_block matches Some(first) ==> first < idx,
                match in_block {
                    Some(first) => block_pass(pairs, ls, idx as nat).open == Some(first as nat),
                    None => block_pass(pairs, ls, idx as nat).open is None,
                },
                comments.deep_view() == start + block_pass(pairs, ls, idx as nat).done,
            decreases lines.len() - idx,
        {
            let line = lines[idx].as_str();
            let ghost sofar = comments.deep_view();
            let ghost state = block_pass(pairs, ls, idx as nat);
            assert(ls[idx as int] == line@);
            match in_block {
                Some(first) => {
                    if self.closes_in(line) {
                        let joined = join_lines(lines, first, idx);
                        let content = block_comment_content(joined.as_str());
                        if !content.as_str().is_empty() {
                            let c = Comment { line: first + 1, column: 1, content };
                            comments.push(c);
                            assert(comments.deep_view() =~= sofar.push(c.deep_view()));
                            assert(sofar.push(c.deep_view()) =~= start + (state.done + seq![
                                c.deep_view(),
                            ]));
                        } else {
                            assert(state.done + Seq::<CommentSpec>::empty() =~= state.done);
                        }
                        in_block = None;
                    }
                },
                None => {
                    if self.opens_in(line) {
                        in_block = Some(idx);
                    }
                },
            }
            idx += 1;
        }
    }
}

impl Default for RegexExtractor {
    fn default() -> (e: Self)
        ensures
            e.lines() == compile_each(line_sources()),
            e.blocks() == compile_pairs(open_sources(), close_sources()),
    {
        Self::new()
    }
}

} // verus!
