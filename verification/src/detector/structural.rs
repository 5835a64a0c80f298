//! Tree-sitter based comment extraction and AST slop detection.
//!
//! Provides accurate, language-aware comment extraction using tree-sitter,
//! as well as AST-level pattern matching for code slop that regex cannot detect.

use vstd::prelude::*;
use crate::detector::language::Language;
use crate::detector::patterns::{CompiledPattern, CompiledSpec};
use crate::detector::{capped_usize, Comment, CommentSpec, Finding, FindingSpec};
use crate::rx::{find, matches_in};
use crate::syntax::{
    byte_range, captures, child, child_count, javascript_grammar, kind,
    node_bytes, node_children, node_descendants, node_kind, node_start, parse, parse_tree,
    python_grammar, query_captures, query_compile, query_new, root, rust_grammar, start_point,
    tree_root, typescript_grammar,
};
use crate::text::{
    byte_slice, byte_slice_of, contains_string, contains_sub, ends_with, from_chars, has_prefix,
    has_string, has_suffix, starts_with, str_contains, string_of, to_chars, trim, trim_of,
    trim_start, trim_start_of,
};

verus! {

/// The text after a marker at its start, without leading white space; `None`
/// where it does not start with the marker.
pub open spec fn after_marker(t: Seq<char>, marker: Seq<char>) -> Option<Seq<char>> {
    if starts_with(t, marker) {
        Some(trim_start_of(t.skip(marker.len() as int)))
    } else {
        None
    }
}

/// The text between two delimiters, trimmed; the closing one may be missing.
/// `None` where the text does not start with the opening one.
pub open spec fn inside_block(t: Seq<char>, open: Seq<char>, close: Seq<char>) -> Option<
    Seq<char>,
> {
    if starts_with(t, open) {
        let rest = t.skip(open.len() as int);
        if ends_with(rest, close) {
            Some(trim_of(rest.take(rest.len() - close.len())))
        } else {
            Some(trim_of(rest))
        }
    } else {
        None
    }
}

/// A text without the line marker `//`, `#` or `--` at its start and the
/// white space behind it; `None` where it starts with none of them.
pub open spec fn line_stripped(t: Seq<char>) -> Option<Seq<char>> {
    if after_marker(t, "//"@) is Some {
        after_marker(t, "//"@)
    } else if after_marker(t, "#"@) is Some {
        after_marker(t, "#"@)
    } else {
        after_marker(t, "--"@)
    }
}

/// A text without the block delimiters `/*` and `*/`, or `{-` and `-}`,
/// around it; `None` where it starts with neither opening delimiter.
pub open spec fn block_stripped(t: Seq<char>) -> Option<Seq<char>> {
    if inside_block(t, "/*"@, "*/"@) is Some {
        inside_block(t, "/*"@, "*/"@)
    } else {
        inside_block(t, "{-"@, "-}"@)
    }
}

/// A comment's text without its markers.  The text is trimmed; then a line
/// marker at its start goes, or the block delimiters around it.  Whatever
/// the node's kind, both are tried: the block delimiters first where the
/// kind names a block comment, the line markers first otherwise.  A text
/// with none of these markers stays as it is.
pub open spec fn strip_markers(text: Seq<char>, kind: Seq<char>) -> Seq<char> {
    let t = trim_of(text);
    if contains_sub(kind, "block"@) {
        if block_stripped(t) is Some {
            block_stripped(t)->0
        } else if line_stripped(t) is Some {
            line_stripped(t)->0
        } else {
            t
        }
    } else if line_stripped(t) is Some {
        line_stripped(t)->0
    } else if block_stripped(t) is Some {
        block_stripped(t)->0
    } else {
        t
    }
}

/// The text after `marker`, where `t` starts with it.
fn strip_line_marker(t: &Vec<char>, marker: &str) -> (out: Option<String>)
    ensures
        out.deep_view() == after_marker(t@, marker@),
{
    let m = to_chars(marker);
    if has_prefix(t, &m) {
        let rest = from_chars(t, m.len(), t.len());
        assert(t@.subrange(m@.len() as int, t@.len() as int) =~= t@.skip(m@.len() as int));
        Some(trim_start(rest.as_str()))
    } else {
        None
    }
}

/// The text between `open` and `close`, where `t` starts with `open`.
fn strip_block_markers(t: &Vec<char>, open: &str, close: &str) -> (out: Option<String>)
    ensures
        out.deep_view() == inside_block(t@, open@, close@),
{
    let o = to_chars(open);
    let c = to_chars(close);
    if has_prefix(t, &o) {
        let rest = to_chars(from_chars(t, o.len(), t.len()).as_str());
        assert(t@.subrange(o@.len() as int, t@.len() as int) =~= t@.skip(o@.len() as int));
        if has_suffix(&rest, &c) {
            let inner = from_chars(&rest, 0, rest.len() - c.len());
            assert(rest@.subrange(0, rest@.len() - c@.len()) =~= rest@.take(
                rest@.len() - c@.len(),
            ));
            Some(trim(inner.as_str()))
        } else {
            let all = string_of(&rest);
            Some(trim(all.as_str()))
        }
    } else {
        None
    }
}

/// The text without a line marker at its start.
fn strip_line(t: &Vec<char>) -> (out: Option<String>)
    ensures
        out.deep_view() == line_stripped(t@),
{
    match strip_line_marker(t, "//") {
        Some(rest) => {
            return Some(rest);
        },
        None => {},
    }
    match strip_line_marker(t, "#") {
        Some(rest) => {
            return Some(rest);
        },
        None => {},
    }
    strip_line_marker(t, "--")
}

/// The text without block delimiters around it.
fn strip_block(t: &Vec<char>) -> (out: Option<String>)
    ensures
        out.deep_view() == block_stripped(t@),
{
    match strip_block_markers(t, "/*", "*/") {
        Some(rest) => {
            return Some(rest);
        },
        None => {},
    }
    strip_block_markers(t, "{-", "-}")
}

/// Strips the comment markers from the text of a comment node.
pub fn strip_comment_markers(text: &str, kind: &str) -> (out: String)
    ensures
        out@ == strip_markers(text@, kind@),
{
    let trimmed = trim(text);
    let t = to_chars(trimmed.as_str());
    let block_first = str_contains(kind, "block");
    let first = if block_first {
        strip_block(&t)
    } else {
        strip_line(&t)
    };
    match first {
        Some(rest) => {
            return rest;
        },
        None => {},
    }
    let second = if block_first {
        strip_line(&t)
    } else {
        strip_block(&t)
    };
    match second {
        Some(rest) => rest,
        None => trimmed,
    }
}

/// What a [`Span`] holds, as plain values.
pub struct SpanSpec {
    pub line: nat,
    pub column: nat,
    pub text: Seq<char>,
}

/// Where a node starts, counted from one, and the text it spans.
#[derive(Debug)]
pub struct Span {
    pub line: usize,
    pub column: usize,
    pub text: String,
}

impl DeepView for Span {
    type V = SpanSpec;

    open spec fn deep_view(&self) -> SpanSpec {
        SpanSpec { line: self.line as nat, column: self.column as nat, text: self.text@ }
    }
}

/// The span of a node that starts at the row and column `at`, both counted
/// from zero, and covers the bytes `bytes.0..bytes.1` of the text.
pub open spec fn span_at(at: (nat, nat), bytes: (nat, nat), source: Seq<char>) -> SpanSpec {
    SpanSpec {
        line: capped_usize(at.0 + 1) as nat,
        column: capped_usize(at.1 + 1) as nat,
        text: byte_slice_of(source, bytes.0, bytes.1),
    }
}

/// The span of a node in the text that was parsed.
pub open spec fn span_of(node: tree_sitter::Node<'static>, source: Seq<char>) -> SpanSpec {
    span_at(node_start(node), node_bytes(node), source)
}

/// The span of a node, from where the node starts and which bytes it covers.
pub fn span(at: (usize, usize), bytes: (usize, usize), source: &str) -> (s: Span)
    ensures
        s.deep_view() == span_at(
            (at.0 as nat, at.1 as nat),
            (bytes.0 as nat, bytes.1 as nat),
            source@,
        ),
{
    Span {
        line: at.0.saturating_add(1),
        column: at.1.saturating_add(1),
        text: byte_slice(source, bytes.0, bytes.1),
    }
}

/// The comment that a node of the kind `kind` with the span `span` is: one
/// where the kind names a comment, with the span's text without its markers.
pub open spec fn comment_at(kind: Seq<char>, span: SpanSpec) -> Seq<CommentSpec> {
    if contains_sub(kind, "comment"@) {
        seq![
            CommentSpec {
                line: span.line,
                column: span.column,
                content: strip_markers(span.text, kind),
            },
        ]
    } else {
        Seq::empty()
    }
}

/// The comment that a node is, where its kind names a comment.
pub open spec fn own_comment(node: tree_sitter::Node<'static>, source: Seq<char>) -> Seq<
    CommentSpec,
> {
    comment_at(node_kind(node), span_of(node, source))
}

/// The comment that a node of a kind and with a span is, if it is one.
pub fn node_comment(kind: &str, span: &Span) -> (c: Option<Comment>)
    ensures
        match c {
            Some(comment) => comment_at(kind@, span.deep_view()) == seq![comment.deep_view()],
            None => comment_at(kind@, span.deep_view()) == Seq::<CommentSpec>::empty(),
        },
{
    if str_contains(kind, "comment") {
        Some(
            Comment {
                line: span.line,
                column: span.column,
                content: strip_comment_markers(span.text.as_str(), kind),
            },
        )
    } else {
        None
    }
}

/// The comments at and under a node: the node's own, then those under each
/// of its children in turn.
pub open spec fn comments_under(node: tree_sitter::Node<'static>, source: Seq<char>) -> Seq<
    CommentSpec,
>
    decreases node_descendants(node), node_children(node).len() + 1,
{
    own_comment(node, source) + comments_below(node, source, node_children(node).len())
}

/// The comments under the first `k` children of a node.
pub open spec fn comments_below(node: tree_sitter::Node<'static>, source: Seq<char>, k: nat)
    -> Seq<CommentSpec>
    decreases node_descendants(node), k,
{
    if k == 0 || k > node_children(node).len() {
        Seq::empty()
    } else {
        let c = node_children(node)[k - 1];
        comments_below(node, source, (k - 1) as nat) + if node_descendants(c)
            < node_descendants(node) {
            comments_under(c, source)
        } else {
            Seq::empty()
        }
    }
}

/// The comments of a text as a grammar sees it; none where it does not parse.
pub open spec fn tree_comments(grammar: tree_sitter::Language, source: Seq<char>) -> Seq<
    CommentSpec,
> {
    match parse_tree(grammar, source) {
        Some(tree) => comments_under(tree_root(tree), source),
        None => Seq::empty(),
    }
}

/// Whether a structural rule applies to files of the language named `name`:
/// it has a query, and its list of languages holds that name.
pub open spec fn applies_to(rule: CompiledSpec, name: Seq<char>) -> bool {
    rule.pattern.ast_query is Some && has_string(rule.pattern.languages, name)
}

/// The finding of a rule for a captured span.  It names no file yet.
pub open spec fn finding_at(rule: crate::config::PatternSpec, span: SpanSpec) -> FindingSpec {
    FindingSpec {
        file: Seq::empty(),
        line: span.line,
        column: span.column,
        severity: rule.severity,
        category: rule.category,
        message: rule.message,
        match_text: span.text,
        pattern_regex: rule.regex,
    }
}

/// The finding for one captured node: none unless the rule's own regex
/// matches in the text that the node spans.
pub open spec fn gated_finding(
    rule: CompiledSpec,
    node: tree_sitter::Node<'static>,
    source: Seq<char>,
) -> Seq<FindingSpec> {
    let span = span_of(node, source);
    if rule.compiled is Some && matches_in(rule.compiled->0, span.text) {
        seq![finding_at(rule.pattern, span)]
    } else {
        Seq::empty()
    }
}

/// The finding of a rule for a captured span.
pub fn structural_finding(pattern: &crate::config::Pattern, span: Span) -> (f: Finding)
    ensures
        f.deep_view() == finding_at(pattern.deep_view(), span.deep_view()),
{
    Finding {
        file: String::new(),
        line: span.line,
        column: span.column,
        severity: pattern.severity,
        category: pattern.category,
        message: pattern.message.clone(),
        match_text: span.text,
        pattern_regex: pattern.regex.clone(),
    }
}

/// The findings of one rule for the nodes that its query captured, in their
/// order.
pub open spec fn capture_findings(
    rule: CompiledSpec,
    nodes: Seq<tree_sitter::Node<'static>>,
    source: Seq<char>,
) -> Seq<FindingSpec>
    decreases nodes.len(),
{
    if nodes.len() == 0 {
        Seq::empty()
    } else {
        capture_findings(rule, nodes.drop_last(), source) + gated_finding(
            rule,
            nodes.last(),
            source,
        )
    }
}

/// The findings of one rule in a tree.  A rule that does not apply to the
/// language, or whose query does not compile, has none.
pub open spec fn rule_findings(
    rule: CompiledSpec,
    grammar: tree_sitter::Language,
    name: Seq<char>,
    tree: tree_sitter::Tree,
    source: Seq<char>,
) -> Seq<FindingSpec> {
    if applies_to(rule, name) {
        match query_compile(grammar, rule.pattern.ast_query->0) {
            Ok(query) => capture_findings(rule, query_captures(query, tree, source), source),
            Err(_) => Seq::empty(),
        }
    } else {
        Seq::empty()
    }
}

/// The structural findings of a tree: rule after rule, and for each rule
/// capture after capture.
pub open spec fn tree_findings(
    rules: Seq<CompiledSpec>,
    grammar: tree_sitter::Language,
    name: Seq<char>,
    tree: tree_sitter::Tree,
    source: Seq<char>,
) -> Seq<FindingSpec>
    decreases rules.len(),
{
    if rules.len() == 0 {
        Seq::empty()
    } else {
        tree_findings(rules.drop_last(), grammar, name, tree, source) + rule_findings(
            rules.last(),
            grammar,
            name,
            tree,
            source,
        )
    }
}

/// The structural findings of a text; none where it does not parse.
pub open spec fn structural_findings(
    rules: Seq<CompiledSpec>,
    grammar: tree_sitter::Language,
    name: Seq<char>,
    source: Seq<char>,
) -> Seq<FindingSpec> {
    match parse_tree(grammar, source) {
        Some(tree) => tree_findings(rules, grammar, name, tree, source),
        None => Seq::empty(),
    }
}

/// What is said of a rule whose query does not compile: the query, and the
/// words of the query compiler.
pub open spec fn query_warning(query: Seq<char>, words: Seq<char>) -> Seq<char> {
    "Invalid tree-sitter query '"@ + query + "': "@ + words
}

/// The warning for one rule: one where the rule applies to the language and
/// its query does not compile.
pub open spec fn rule_warning(
    rule: CompiledSpec,
    grammar: tree_sitter::Language,
    name: Seq<char>,
) -> Seq<Seq<char>> {
    if applies_to(rule, name) && query_compile(grammar, rule.pattern.ast_query->0) is Err {
        seq![
            query_warning(
                rule.pattern.ast_query->0,
                query_compile(grammar, rule.pattern.ast_query->0)->Err_0,
            ),
        ]
    } else {
        Seq::empty()
    }
}

/// The warnings for some rules, rule after rule: one for each rule that
/// applies to the language and is passed over because its query does not
/// compile.
pub open spec fn warnings_of(
    rules: Seq<CompiledSpec>,
    grammar: tree_sitter::Language,
    name: Seq<char>,
) -> Seq<Seq<char>>
    decreases rules.len(),
{
    if rules.len() == 0 {
        Seq::empty()
    } else {
        warnings_of(rules.drop_last(), grammar, name) + rule_warning(rules.last(), grammar, name)
    }
}

/// Every structural finding carries a text in which its rule's regex matches.
pub open spec fn passes_gate(rules: Seq<CompiledSpec>, f: FindingSpec) -> bool {
    exists|i: int|
        0 <= i < rules.len() && (#[trigger] rules[i]).compiled is Some && rules[i].pattern.regex
            == f.pattern_regex && matches_in(rules[i].compiled->0, f.match_text)
}

/// No finding passes the capture step whose text fails the rule's regex.
pub proof fn lemma_capture_findings_gated(
    rule: CompiledSpec,
    nodes: Seq<tree_sitter::Node<'static>>,
    source: Seq<char>,
    k: int,
)
    requires
        0 <= k < capture_findings(rule, nodes, source).len(),
    ensures
        rule.compiled is Some,
        capture_findings(rule, nodes, source)[k].pattern_regex == rule.pattern.regex,
        matches_in(rule.compiled->0, capture_findings(rule, nodes, source)[k].match_text),
    decreases nodes.len(),
{
    if nodes.len() > 0 {
        let head = capture_findings(rule, nodes.drop_last(), source);
        if k < head.len() {
            lemma_capture_findings_gated(rule, nodes.drop_last(), source, k);
        }
    }
}

/// The structural regex gate: every structural finding of a tree carries a
/// text in which the regex of one of the rules, the one whose regex text the
/// finding names, matches.
pub proof fn lemma_tree_findings_gated(
    rules: Seq<CompiledSpec>,
    grammar: tree_sitter::Language,
    name: Seq<char>,
    tree: tree_sitter::Tree,
    source: Seq<char>,
    k: int,
)
    requires
        0 <= k < tree_findings(rules, grammar, name, tree, source).len(),
    ensures
        passes_gate(rules, tree_findings(rules, grammar, name, tree, source)[k]),
    decreases rules.len(),
{
    if rules.len() > 0 {
        let head = tree_findings(rules.drop_last(), grammar, name, tree, source);
        let f = tree_findings(rules, grammar, name, tree, source)[k];
        if k < head.len() {
            lemma_tree_findings_gated(rules.drop_last(), grammar, name, tree, source, k);
            let i = choose|i: int|
                0 <= i < rules.drop_last().len() && (#[trigger] rules.drop_last()[i]).compiled
                    is Some && rules.drop_last()[i].pattern.regex == f.pattern_regex && matches_in(
                    rules.drop_last()[i].compiled->0,
                    f.match_text,
                );
            assert(rules[i] == rules.drop_last()[i]);
        } else {
            let rule = rules.last();
            let query = query_compile(grammar, rule.pattern.ast_query->0);
            lemma_capture_findings_gated(
                rule,
                query_captures(query->Ok_0, tree, source),
                source,
                k - head.len(),
            );
            assert(rules[rules.len() - 1] == rule);
        }
    }
}

/// The grammar for a language, where there is one.  Each call hands out a
/// grammar of its own; an extractor parses with the one it was made with.
pub fn get_language_fn(lang: Language) -> (g: Option<tree_sitter::Language>)
    ensures
        g is Some <==> lang.has_grammar(),
{
    match lang {
        Language::Python => Some(python_grammar()),
        Language::JavaScript | Language::Jsx => Some(javascript_grammar()),
        Language::TypeScript | Language::Tsx => Some(typescript_grammar()),
        Language::Rust => Some(rust_grammar()),
        _ => None,
    }
}

/// Tree-sitter based comment extractor.
pub struct TreeSitterExtractor {
    /// The grammar with which this extractor parses.
    pub grammar: tree_sitter::Language,
    /// The language that the grammar is for.
    pub language: Language,
}

/// Get a comment extractor for the given language.
pub fn get_extractor(lang: Language) -> (e: Option<TreeSitterExtractor>)
    ensures
        e is Some <==> lang.has_grammar(),
        e matches Some(x) ==> x.language == lang,
{
    TreeSitterExtractor::new(lang)
}

/// The grammar held for a language among some extractors: that of the first
/// extractor that was made for the language.
pub open spec fn grammar_among(extractors: Seq<TreeSitterExtractor>, lang: Language) -> Option<
    tree_sitter::Language,
>
    decreases extractors.len(),
{
    if extractors.len() == 0 {
        None
    } else if extractors[0].language == lang {
        Some(extractors[0].grammar)
    } else {
        grammar_among(extractors.drop_first(), lang)
    }
}

/// One extractor for each language that has a grammar.
pub fn all_extractors() -> (extractors: Vec<TreeSitterExtractor>)
    ensures
        forall|lang: Language|
            (#[trigger] grammar_among(extractors@, lang)) is Some <==> lang.has_grammar(),
{
    let languages: Vec<Language> = vec![
        Language::Python,
        Language::JavaScript,
        Language::Jsx,
        Language::TypeScript,
        Language::Tsx,
        Language::Rust,
    ];
    let mut extractors: Vec<TreeSitterExtractor> = Vec::new();
    let mut i: usize = 0;
    while i < languages.len()
        invariant
            i <= languages.len(),
            languages@ == seq![
                Language::Python,
                Language::JavaScript,
                Language::Jsx,
                Language::TypeScript,
                Language::Tsx,
                Language::Rust,
            ],
            extractors.len() == i,
            forall|j: int| 0 <= j < i ==> (#[trigger] extractors@[j]).language == languages@[j],
        decreases languages.len() - i,
    {
        match get_extractor(languages[i]) {
            Some(e) => {
                extractors.push(e);
            },
            None => {
                return Vec::new();
            },
        }
        i += 1;
    }
    proof {
        let all = extractors@;
        assert forall|lang: Language| (#[trigger] grammar_among(all, lang)) is Some
            <==> lang.has_grammar() by {
            lemma_grammar_among(all, lang);
            if lang.has_grammar() {
                let j: int = if lang == Language::Python {
                    0
                } else if lang == Language::JavaScript {
                    1
                } else if lang == Language::Jsx {
                    2
                } else if lang == Language::TypeScript {
                    3
                } else if lang == Language::Tsx {
                    4
                } else {
                    5
                };
                assert(all[j].language == lang);
            } else if grammar_among(all, lang) is Some {
                let j = choose|j: int| 0 <= j < all.len() && (#[trigger] all[j]).language == lang;
                assert(languages@[j].has_grammar());
            }
        }
    }
    extractors
}

/// A grammar is held for a language exactly where some extractor was made
/// for it.
pub proof fn lemma_grammar_among(extractors: Seq<TreeSitterExtractor>, lang: Language)
    ensures
        grammar_among(extractors, lang) is Some <==> exists|j: int|
            0 <= j < extractors.len() && (#[trigger] extractors[j]).language == lang,
    decreases extractors.len(),
{
    if extractors.len() > 0 {
        let rest = extractors.drop_first();
        lemma_grammar_among(rest, lang);
        if extractors[0].language != lang {
            if grammar_among(rest, lang) is Some {
                let j = choose|j: int| 0 <= j < rest.len() && (#[trigger] rest[j]).language == lang;
                assert(extractors[j + 1].language == lang);
            }
            if exists|j: int|
                0 <= j < extractors.len() && (#[trigger] extractors[j]).language == lang {
                let j = choose|j: int|
                    0 <= j < extractors.len() && (#[trigger] extractors[j]).language == lang;
                assert(rest[j - 1].language == lang);
            }
        }
    }
}

/// The extractor held for a language, where there is one.
pub fn extractor_for(extractors: &Vec<TreeSitterExtractor>, lang: Language) -> (e: Option<
    &TreeSitterExtractor,
>)
    ensures
        match e {
            Some(x) => x.language == lang && grammar_among(extractors@, lang) == Some(x.grammar),
            None => grammar_among(extractors@, lang) is None,
        },
{
    let ghost all = extractors@;
    let mut i: usize = 0;
    assert(all.skip(0) =~= all);
    while i < extractors.len()
        invariant
            i <= extractors.len(),
            all == extractors@,
            grammar_among(all, lang) == grammar_among(all.skip(i as int), lang),
        decreases extractors.len() - i,
    {
        proof {
            assert(all.skip(i as int)[0] == extractors@[i as int]);
            assert(all.skip(i as int).drop_first() =~= all.skip(i + 1));
        }
        if extractors[i].language == lang {
            return Some(&extractors[i]);
        }
        i += 1;
    }
    None
}

/// Appends the comments at and under `node` to `comments`.
fn extract_comments_recursive(node: &tree_sitter::Node, source: &str, comments: &mut Vec<Comment>)
    ensures
        final(comments).deep_view() == old(comments).deep_view() + comments_under(*node, source@),
    decreases node_descendants(*node),
{
    let ghost start = comments.deep_view();
    let name = kind(node);
    if str_contains(name.as_str(), "comment") {
        let here = span(start_point(node), byte_range(node), source);
        match node_comment(name.as_str(), &here) {
            Some(c) => {
                comments.push(c);
            },
            None => {},
        }
    }
    assert(comments.deep_view() =~= start + own_comment(*node, source@));
    let ghost own = comments.deep_view();
    let n = child_count(node);
    let mut i: u32 = 0;
    assert(own + comments_below(*node, source@, 0) =~= own);
    while i < n
        invariant
            i <= n,
            n == node_children(*node).len(),
            comments.deep_view() == own + comments_below(*node, source@, i as nat),
        decreases n - i,
    {
        let ghost before = comments.deep_view();
        match child(node, i) {
            Some(c) => {
                extract_comments_recursive(&c, source, comments);
                proof {
                    let below = comments_below(*node, source@, i as nat);
                    let under = comments_under(c, source@);
                    assert((own + below) + under =~= own + (below + under));
                }
            },
            None => {},
        }
        i += 1;
    }
    proof {
        let under = comments_below(*node, source@, n as nat);
        assert(start + (own_comment(*node, source@) + under) =~= own + under);
    }
}

impl TreeSitterExtractor {
    /// The comments that this extractor finds in a text.
    pub open spec fn comments_of(&self, source: Seq<char>) -> Seq<CommentSpec> {
        tree_comments(self.grammar, source)
    }

    /// The structural findings of this extractor's language for some rules.
    pub open spec fn findings_of(&self, rules: Seq<CompiledSpec>, source: Seq<char>) -> Seq<
        FindingSpec,
    > {
        structural_findings(rules, self.grammar, self.language.grammar_name(), source)
    }

    /// Create a new extractor for the given language.
    pub fn new(lang: Language) -> (e: Option<Self>)
        ensures
            e is Some <==> lang.has_grammar(),
            e matches Some(x) ==> x.language == lang,
    {
        match get_language_fn(lang) {
            Some(grammar) => Some(TreeSitterExtractor { grammar, language: lang }),
            None => None,
        }
    }

    /// Extract all comments from source code.
    pub fn extract(&self, source: &str) -> (comments: Vec<Comment>)
        ensures
            comments.deep_view() == self.comments_of(source@),
    {
        let mut comments: Vec<Comment> = Vec::new();
        match parse(&self.grammar, source) {
            Some(tree) => {
                let node = root(&tree);
                assert(comments.deep_view() =~= Seq::<CommentSpec>::empty());
                extract_comments_recursive(&node, source, &mut comments);
                assert(Seq::<CommentSpec>::empty() + comments_under(node, source@)
                    =~= comments_under(node, source@));
            },
            None => {
                assert(comments.deep_view() =~= Seq::<CommentSpec>::empty());
            },
        }
        comments
    }

    /// Extract AST-level findings using tree-sitter queries.
    ///
    /// Returns findings from patterns that have `ast_query` set and apply to
    /// this language.  A captured node gives a finding only where the rule's
    /// own regex matches in its text.  A rule whose query does not compile is
    /// passed over; [`TreeSitterExtractor::query_warnings`] says which rules
    /// those are.  The findings name no file yet.
    pub fn extract_ast_findings(&self, source: &str, patterns: &[CompiledPattern]) -> (findings:
        Vec<Finding>)
        ensures
            findings.deep_view() == self.findings_of(patterns.deep_view(), source@),
            forall|k: int|
                0 <= k < findings.len() ==> passes_gate(
                    patterns.deep_view(),
                    #[trigger] findings.deep_view()[k],
                ),
    {
        let mut findings: Vec<Finding> = Vec::new();
        assert(findings.deep_view() =~= Seq::<FindingSpec>::empty());
        let tree = match parse(&self.grammar, source) {
            Some(t) => t,
            None => {
                return findings;
            },
        };
        let lang_name = self.language.language_name();
        let ghost rules = patterns.deep_view();
        let ghost name = self.language.grammar_name();
        let mut i: usize = 0;
        assert(rules.take(0) =~= Seq::<CompiledSpec>::empty());
        while i < patterns.len()
            invariant
                i <= patterns.len(),
                rules == patterns.deep_view(),
                name == self.language.grammar_name(),
                lang_name@ == name,
                parse_tree(self.grammar, source@) == Some(tree),
                findings.deep_view() == tree_findings(
                    rules.take(i as int),
                    self.grammar,
                    name,
                    tree,
                    source@,
                ),
            decreases patterns.len() - i,
        {
            let pattern = &patterns[i];
            let ghost rule = pattern.deep_view();
            let ghost before = findings.deep_view();
            proof {
                assert(rules.take(i + 1).drop_last() =~= rules.take(i as int));
                assert(rules.take(i + 1).last() == rule);
                assert(before + Seq::<FindingSpec>::empty() =~= before);
            }
            match &pattern.pattern.ast_query {
                Some(query_str) => {
                    if contains_string(&pattern.pattern.languages, lang_name) {
                        match query_new(&self.grammar, query_str.as_str()) {
                            Ok(query) => {
                                let nodes = captures(
                                    &self.grammar,
                                    &query,
                                    query_str.as_str(),
                                    &tree,
                                    source,
                                );
                                self.gate_captures(pattern, &nodes, source, &mut findings);
                            },
                            Err(_) => {},
                        }
                    }
                },
                None => {},
            }
            i += 1;
        }
        proof {
            assert(rules.take(i as int) =~= rules);
            assert forall|k: int| 0 <= k < findings.len() implies passes_gate(
                rules,
                #[trigger] findings.deep_view()[k],
            ) by {
                lemma_tree_findings_gated(rules, self.grammar, name, tree, source@, k);
            }
        }
        findings
    }

    /// The warnings for the rules that apply to this extractor's language
    /// and whose query does not compile.  Such a rule finds nothing; every
    /// other rule is not touched by it.
    pub fn query_warnings(&self, patterns: &[CompiledPattern]) -> (warnings: Vec<String>)
        ensures
            warnings.deep_view() == warnings_of(
                patterns.deep_view(),
                self.grammar,
                self.language.grammar_name(),
            ),
    {
        let mut warnings: Vec<String> = Vec::new();
        let lang_name = self.language.language_name();
        let ghost rules = patterns.deep_view();
        let ghost name = self.language.grammar_name();
        let mut i: usize = 0;
        assert(rules.take(0) =~= Seq::<CompiledSpec>::empty());
        assert(warnings.deep_view() =~= Seq::<Seq<char>>::empty());
        while i < patterns.len()
            invariant
                i <= patterns.len(),
                rules == patterns.deep_view(),
                name == self.language.grammar_name(),
                lang_name@ == name,
                warnings.deep_view() == warnings_of(rules.take(i as int), self.grammar, name),
            decreases patterns.len() - i,
        {
            let pattern = &patterns[i];
            let ghost before = warnings.deep_view();
            proof {
                assert(rules.take(i + 1).drop_last() =~= rules.take(i as int));
                assert(rules.take(i + 1).last() == pattern.deep_view());
                assert(before + Seq::<Seq<char>>::empty() =~= before);
            }
            match &pattern.pattern.ast_query {
                Some(query_str) => {
                    if contains_string(&pattern.pattern.languages, lang_name) {
                        match query_new(&self.grammar, query_str.as_str()) {
                            Ok(_) => {},
                            Err(words) => {
                                let mut text = "Invalid tree-sitter query '".to_owned();
                                text.push_str(query_str.as_str());
                                text.push_str("': ");
                                text.push_str(words.as_str());
                                warnings.push(text);
                                assert(warnings.deep_view() =~= before + seq![text@]);
                            },
                        }
                    }
                },
                None => {},
            }
            i += 1;
        }
        proof {
            assert(rules.take(i as int) =~= rules);
        }
        warnings
    }

    /// Appends the findings of one rule for the nodes its query captured.
    fn gate_captures(
        &self,
        pattern: &CompiledPattern,
        nodes: &Vec<tree_sitter::Node>,
        source: &str,
        findings: &mut Vec<Finding>,
    )
        ensures
            final(findings).deep_view() == old(findings).deep_view() + capture_findings(
                pattern.deep_view(),
                nodes@,
                source@,
            ),
    {
        let ghost start = findings.deep_view();
        let ghost rule = pattern.deep_view();
        let mut k: usize = 0;
        assert(nodes@.take(0) =~= Seq::<tree_sitter::Node<'static>>::empty());
        assert(start + Seq::<FindingSpec>::empty() =~= start);
        while k < nodes.len()
            invariant
                k <= nodes.len(),
                rule == pattern.deep_view(),
                findings.deep_view() == start + capture_findings(
                    rule,
                    nodes@.take(k as int),
                    source@,
                ),
            decreases nodes.len() - k,
        {
            let node = &nodes[k];
            let ghost before = findings.deep_view();
            let ghost sofar = capture_findings(rule, nodes@.take(k as int), source@);
            proof {
                assert(nodes@.take(k + 1).drop_last() =~= nodes@.take(k as int));
                assert(nodes@.take(k + 1).last() == *node);
            }
            let here = span(start_point(node), byte_range(node), source);
            let passes = match &pattern.compiled {
                Some(re) => find(re, here.text.as_str()).is_some(),
                None => false,
            };
            if passes {
                let f = structural_finding(&pattern.pattern, here);
                findings.push(f);
                proof {
                    assert(findings.deep_view() =~= before.push(f.deep_view()));
                    assert(before.push(f.deep_view()) =~= start + (sofar + gated_finding(
                        rule,
                        *node,
                        source@,
                    )));
                }
            } else {
                assert(start + (sofar + Seq::<FindingSpec>::empty()) =~= before);
            }
            k += 1;
        }
        proof {
            assert(nodes@.take(k as int) =~= nodes@);
        }
    }
}

} // verus!
