//! What holds of every scan and of every summary.

use crate::config::PatternSpec;
use crate::detector::language::{classify, Language};
use crate::detector::patterns::{all_compile, compiled_rules, CompiledSpec};
use crate::detector::regex_fallback::{
    block_comment, block_content, block_pass, close_sources, closing_delimiters, compile_each,
    compile_pairs, fallback_comments, line_content, line_hit, line_hits, line_pass, line_sources,
    markers, open_sources, opening_delimiters, quote_markers, without_closing, without_opening,
};
use crate::detector::scanner::{
    comment_hits, comments_for, findings_of_comments, rule_hit, scan_findings, scan_of,
    structural_for, Scanner,
};
use crate::detector::structural::{
    after_marker, block_stripped, capture_findings, comments_below, comments_under,
    lemma_tree_findings_gated, line_stripped, own_comment, passes_gate, strip_markers,
    structural_findings, tree_findings,
};
use crate::detector::{
    all_findings, score_sum, summary_of, total_score_of, CommentSpec, FileScanResult, FileScanSpec,
    FindingSpec,
};
use crate::syntax::{
    node_bytes, node_children, node_descendants, node_kind, parse_tree, query_captures,
    query_compile, tree_root,
};
use crate::text::{
    byte_slice_of, is_space, lead, lemma_lead_is, lemma_trail_is, lines_of, starts_with,
    strip_leading, trail, trim_end_of, trim_of, trim_start_of,
};
use vstd::prelude::*;
use vstd::utf8::{encode_utf8, encode_utf8_decode_utf8};

verus! {

/// A scan is a function of the scanner, the path and the text: two scans by
/// one scanner of one path and one text give the same findings, in the same
/// order, with the same score.
pub proof fn law_scan_is_deterministic(
    scanner: Scanner,
    path: Seq<char>,
    content: Seq<char>,
    first: FileScanResult,
    second: FileScanResult,
)
    requires
        first.deep_view() == scanner.scan(path, content),
        second.deep_view() == scanner.scan(path, content),
    ensures
        first.deep_view() == second.deep_view(),
        first.deep_view().findings == second.deep_view().findings,
        first.score == second.score,
{
}

/// The score of a scanned file is the sum of the weights of its findings'
/// severities, wherever that sum fits the score's type.
pub proof fn law_file_score_is_sum(
    rules: Seq<CompiledSpec>,
    grammar: Option<tree_sitter::Language>,
    path: Seq<char>,
    content: Seq<char>,
)
    requires
        score_sum(scan_of(rules, grammar, path, content).findings) <= u32::MAX,
    ensures
        scan_of(rules, grammar, path, content).wf(),
        scan_of(rules, grammar, path, content).score == score_sum(
            scan_of(rules, grammar, path, content).findings,
        ),
{
}

/// The total score of a summary is the sum of the scores of the files it
/// was built from, wherever that sum fits the score's type.
pub proof fn law_total_score_is_sum(results: Seq<FileScanSpec>)
    requires
        total_score_of(results) <= u32::MAX,
    ensures
        summary_of(results).total_score == total_score_of(results),
{
}

/// Where every file's score is the sum of its findings' weights, the total
/// of the scores is the sum of the weights of all findings.
pub proof fn law_total_score_is_sum_of_weights(results: Seq<FileScanSpec>)
    requires
        forall|i: int|
            0 <= i < results.len() ==> (#[trigger] results[i]).score == score_sum(
                results[i].findings,
            ),
    ensures
        total_score_of(results) == score_sum(all_findings(results)),
    decreases results.len(),
{
    if results.len() > 0 {
        let head = results.drop_last();
        assert forall|i: int| 0 <= i < head.len() implies (#[trigger] head[i]).score == score_sum(
            head[i].findings,
        ) by {
            assert(head[i] == results[i]);
        }
        law_total_score_is_sum_of_weights(head);
        crate::detector::lemma_score_sum_concat(all_findings(head), results.last().findings);
        assert(results.last() == results[results.len() - 1]);
    }
}

/// Two runs of comments that agree, comment by comment, in line and content.
/// Their columns may differ.
pub open spec fn same_text(a: Seq<CommentSpec>, b: Seq<CommentSpec>) -> bool {
    &&& a.len() == b.len()
    &&& forall|i: int|
        0 <= i < a.len() ==> (#[trigger] a[i]).line == b[i].line && a[i].content == b[i].content
}

/// The same findings with the column left out of account.
pub open spec fn without_columns(findings: Seq<FindingSpec>) -> Seq<FindingSpec> {
    Seq::new(findings.len(), |i: int| FindingSpec { column: 0, ..findings[i] })
}

/// Leaving the columns out of two runs of findings, one after the other.
pub proof fn lemma_without_columns_concat(a: Seq<FindingSpec>, b: Seq<FindingSpec>)
    ensures
        without_columns(a + b) == without_columns(a) + without_columns(b),
{
    assert(without_columns(a + b) =~= without_columns(a) + without_columns(b));
}

/// What the rules find in two comments of one line and one content differs
/// in the columns at most.
pub proof fn lemma_comment_hits_same_text(
    path: Seq<char>,
    a: CommentSpec,
    b: CommentSpec,
    rules: Seq<CompiledSpec>,
)
    requires
        a.line == b.line,
        a.content == b.content,
    ensures
        without_columns(comment_hits(path, a, rules)) == without_columns(
            comment_hits(path, b, rules),
        ),
    decreases rules.len(),
{
    if rules.len() > 0 {
        lemma_comment_hits_same_text(path, a, b, rules.drop_last());
        lemma_without_columns_concat(
            comment_hits(path, a, rules.drop_last()),
            rule_hit(path, a, rules.last()),
        );
        lemma_without_columns_concat(
            comment_hits(path, b, rules.drop_last()),
            rule_hit(path, b, rules.last()),
        );
        assert(without_columns(rule_hit(path, a, rules.last())) =~= without_columns(
            rule_hit(path, b, rules.last()),
        ));
    } else {
        assert(without_columns(comment_hits(path, a, rules)) =~= without_columns(
            comment_hits(path, b, rules),
        ));
    }
}

/// Rule matching does not depend on which extractor ran: where two
/// extractors give comments that agree in line and content, the findings
/// drawn from them are the same but for their columns.
pub proof fn law_findings_agree_up_to_column(
    path: Seq<char>,
    a: Seq<CommentSpec>,
    b: Seq<CommentSpec>,
    rules: Seq<CompiledSpec>,
)
    requires
        same_text(a, b),
    ensures
        without_columns(findings_of_comments(path, a, rules)) == without_columns(
            findings_of_comments(path, b, rules),
        ),
    decreases a.len(),
{
    if a.len() > 0 {
        let x = a.drop_last();
        let y = b.drop_last();
        assert forall|i: int| 0 <= i < x.len() implies (#[trigger] x[i]).line == y[i].line
            && x[i].content == y[i].content by {
            assert(a.drop_last()[i] == a[i]);
            assert(b.drop_last()[i] == b[i]);
        }
        law_findings_agree_up_to_column(path, a.drop_last(), b.drop_last(), rules);
        assert(a.last() == a[a.len() - 1]);
        assert(b.last() == b[a.len() - 1]);
        lemma_comment_hits_same_text(path, a.last(), b.last(), rules);
        lemma_without_columns_concat(
            findings_of_comments(path, a.drop_last(), rules),
            comment_hits(path, a.last(), rules),
        );
        lemma_without_columns_concat(
            findings_of_comments(path, b.drop_last(), rules),
            comment_hits(path, b.last(), rules),
        );
    } else {
        assert(without_columns(findings_of_comments(path, a, rules)) =~= without_columns(
            findings_of_comments(path, b, rules),
        ));
    }
}

/// The sum of the weights does not depend on the columns.
pub proof fn lemma_score_without_columns(findings: Seq<FindingSpec>)
    ensures
        score_sum(without_columns(findings)) == score_sum(findings),
    decreases findings.len(),
{
    if findings.len() > 0 {
        lemma_score_without_columns(findings.drop_last());
        assert(without_columns(findings).drop_last() =~= without_columns(findings.drop_last()));
    }
}

/// Whether none of the rules has a structural query.
pub open spec fn comment_rules_only(rules: Seq<CompiledSpec>) -> bool {
    forall|i: int| 0 <= i < rules.len() ==> (#[trigger] rules[i]).pattern.ast_query is None
}

/// Rules without structural queries have no structural findings.
pub proof fn lemma_no_queries_no_tree_findings(
    rules: Seq<CompiledSpec>,
    grammar: tree_sitter::Language,
    name: Seq<char>,
    tree: tree_sitter::Tree,
    source: Seq<char>,
)
    requires
        comment_rules_only(rules),
    ensures
        tree_findings(rules, grammar, name, tree, source) == Seq::<FindingSpec>::empty(),
    decreases rules.len(),
{
    if rules.len() > 0 {
        let head = rules.drop_last();
        assert forall|i: int| 0 <= i < head.len() implies (#[trigger] head[i]).pattern.ast_query
            is None by {
            assert(head[i] == rules[i]);
        }
        lemma_no_queries_no_tree_findings(head, grammar, name, tree, source);
        assert(rules.last() == rules[rules.len() - 1]);
    }
}

/// The two ways of extraction lead to the same scan.  Under rules without
/// structural queries, and for a text in which the grammar and the fallback
/// see the same comments, line by line and content by content, a scan with
/// the grammar and a scan without it give the same findings in the same
/// order, but for their columns, and the same score.
pub proof fn law_scans_agree_up_to_column(
    rules: Seq<CompiledSpec>,
    grammar: tree_sitter::Language,
    path: Seq<char>,
    content: Seq<char>,
)
    requires
        comment_rules_only(rules),
        same_text(comments_for(Some(grammar), content), comments_for(None, content)),
    ensures
        without_columns(scan_of(rules, Some(grammar), path, content).findings) == without_columns(
            scan_of(rules, None, path, content).findings,
        ),
        scan_of(rules, Some(grammar), path, content).score == scan_of(
            rules,
            None,
            path,
            content,
        ).score,
{
    let lang = classify(path);
    let with = scan_findings(rules, Some(grammar), path, content);
    let without = scan_findings(rules, None, path, content);
    let a = comments_for(Some(grammar), content);
    let b = comments_for(None, content);
    if parse_tree(grammar, content) is Some {
        lemma_no_queries_no_tree_findings(
            rules,
            grammar,
            lang.grammar_name(),
            parse_tree(grammar, content)->0,
            content,
        );
    }
    assert(structural_for(rules, Some(grammar), lang, path, content)
        =~= Seq::<FindingSpec>::empty());
    assert(with =~= findings_of_comments(path, a, rules));
    assert(without =~= findings_of_comments(path, b, rules));
    law_findings_agree_up_to_column(path, a, b, rules);
    lemma_score_without_columns(with);
    lemma_score_without_columns(without);
}

/// The structural regex gate: every structural finding of a scan carries a
/// matched text in which the matcher of the rule it names matches.
pub proof fn law_structural_findings_pass_gate(
    rules: Seq<CompiledSpec>,
    grammar: Option<tree_sitter::Language>,
    lang: Language,
    path: Seq<char>,
    source: Seq<char>,
    k: int,
)
    requires
        0 <= k < structural_for(rules, grammar, lang, path, source).len(),
    ensures
        passes_gate(rules, structural_for(rules, grammar, lang, path, source)[k]),
{
    let name = lang.grammar_name();
    let found = structural_findings(rules, grammar->0, name, source);
    let tree = parse_tree(grammar->0, source)->0;
    lemma_tree_findings_gated(rules, grammar->0, name, tree, source, k);
    let f = found[k];
    let g = structural_for(rules, grammar, lang, path, source)[k];
    assert(g.pattern_regex == f.pattern_regex && g.match_text == f.match_text);
    let i = choose|i: int|
        0 <= i < rules.len() && (#[trigger] rules[i]).compiled is Some && rules[i].pattern.regex
            == f.pattern_regex && crate::rx::matches_in(rules[i].compiled->0, f.match_text);
    assert(rules[i].compiled is Some);
}

/// Whether the regex text that a finding names compiles, and compiled
/// matches in the text that the finding carries.
pub open spec fn passes_own_regex(f: FindingSpec) -> bool {
    crate::rx::compiles(f.pattern_regex) && crate::rx::matches_in(
        crate::rx::regex_compile(f.pattern_regex)->Ok_0,
        f.match_text,
    )
}

/// A structural finding answers to the regex text that it names.  Where the
/// matcher of every rule is what the rule's own regex text compiles to, a
/// finding that one of the rules let through carries a text in which the
/// regex that it names, compiled, matches.
pub proof fn law_gate_is_on_the_regex_text(rules: Seq<CompiledSpec>, f: FindingSpec)
    requires
        forall|i: int| 0 <= i < rules.len() ==> (#[trigger] rules[i]).wf(),
        passes_gate(rules, f),
    ensures
        passes_own_regex(f),
{
    let i = choose|i: int|
        0 <= i < rules.len() && (#[trigger] rules[i]).compiled is Some && rules[i].pattern.regex
            == f.pattern_regex && crate::rx::matches_in(rules[i].compiled->0, f.match_text);
    assert(rules[i].wf());
}

/// Every structural finding of a scanner that was made of rules that all
/// compile carries a text in which the regex of its rule matches.
pub proof fn law_structural_findings_pass_their_regex(
    patterns: Seq<PatternSpec>,
    grammar: Option<tree_sitter::Language>,
    lang: Language,
    path: Seq<char>,
    source: Seq<char>,
    k: int,
)
    requires
        all_compile(patterns),
        0 <= k < structural_for(compiled_rules(patterns), grammar, lang, path, source).len(),
    ensures
        passes_own_regex(
            structural_for(compiled_rules(patterns), grammar, lang, path, source)[k],
        ),
{
    let rules = compiled_rules(patterns);
    law_structural_findings_pass_gate(rules, grammar, lang, path, source, k);
    assert forall|i: int| 0 <= i < rules.len() implies (#[trigger] rules[i]).wf() by {
        law_registered_rules_are_valid(patterns, i);
    }
    law_gate_is_on_the_regex_text(rules, structural_for(rules, grammar, lang, path, source)[k]);
}

/// Every rule of a scanner that was made is valid: where all regexes of the
/// rules compile, each registered rule carries the matcher compiled from its
/// own regex text.
pub proof fn law_registered_rules_are_valid(patterns: Seq<PatternSpec>, i: int)
    requires
        all_compile(patterns),
        0 <= i < patterns.len(),
    ensures
        compiled_rules(patterns).len() == patterns.len(),
        compiled_rules(patterns)[i].wf(),
        compiled_rules(patterns)[i].pattern == patterns[i],
{
    assert(crate::rx::compiles(patterns[i].regex));
}

/// One family of markers gives at most one comment on one line.
pub proof fn lemma_line_hits_bounded(res: Seq<regex::Regex>, line: Seq<char>, idx: nat)
    ensures
        line_hits(res, line, idx).len() <= res.len(),
    decreases res.len(),
{
    if res.len() > 0 {
        lemma_line_hits_bounded(res.drop_last(), line, idx);
        assert(line_hit(res.last(), line, idx).len() <= 1);
    }
}

/// The line comments of a text are at most as many as lines times families.
pub proof fn lemma_line_pass_bounded(res: Seq<regex::Regex>, lines: Seq<Seq<char>>)
    ensures
        line_pass(res, lines).len() <= res.len() * lines.len(),
    decreases lines.len(),
{
    if lines.len() > 0 {
        lemma_line_pass_bounded(res, lines.drop_last());
        lemma_line_hits_bounded(res, lines.last(), (lines.len() - 1) as nat);
        assert(res.len() * lines.len() == res.len() * (lines.len() - 1) + res.len())
            by (nonlinear_arith);
    } else {
        assert(res.len() * lines.len() == 0) by (nonlinear_arith)
            requires
                lines.len() == 0,
        ;
    }
}

/// The block comments completed within some lines are at most as many as
/// those lines.
pub proof fn lemma_block_pass_bounded(
    pairs: Seq<(regex::Regex, regex::Regex)>,
    lines: Seq<Seq<char>>,
    n: nat,
)
    ensures
        block_pass(pairs, lines, n).done.len() <= n,
    decreases n,
{
    if n > 0 && n <= lines.len() {
        lemma_block_pass_bounded(pairs, lines, (n - 1) as nat);
    }
}

/// Extraction is bounded by the text: the fallback finds at most one comment
/// for each line and family of markers, and at most one block comment for
/// each line.
pub proof fn law_fallback_comments_are_bounded(
    res: Seq<regex::Regex>,
    pairs: Seq<(regex::Regex, regex::Regex)>,
    source: Seq<char>,
)
    ensures
        fallback_comments(res, pairs, source).len() <= (res.len() + 1) * lines_of(source).len(),
{
    let lines = lines_of(source);
    lemma_line_pass_bounded(res, lines);
    lemma_block_pass_bounded(pairs, lines, lines.len());
    assert((res.len() + 1) * lines.len() == res.len() * lines.len() + lines.len())
        by (nonlinear_arith);
}

/// A text without comments and without structural findings has no findings
/// and the score zero, whatever the rules.
pub proof fn law_nothing_found_scores_zero(
    rules: Seq<CompiledSpec>,
    grammar: Option<tree_sitter::Language>,
    path: Seq<char>,
    content: Seq<char>,
)
    requires
        scan_findings(rules, grammar, path, content).len() == 0,
    ensures
        scan_of(rules, grammar, path, content).score == 0,
{
}

/// What the rules find in no comments is nothing.
pub proof fn lemma_no_comments_no_findings(path: Seq<char>, rules: Seq<CompiledSpec>)
    ensures
        findings_of_comments(path, Seq::empty(), rules) == Seq::<FindingSpec>::empty(),
{
}

/// The empty text has no findings and the score zero under any rules, for
/// every file whose language the scanner holds no grammar for.  With a
/// grammar the findings are those that the parser's tree of the empty text
/// gives.
pub proof fn law_empty_text_has_no_findings(rules: Seq<CompiledSpec>, path: Seq<char>)
    ensures
        scan_of(rules, None, path, Seq::empty()).findings == Seq::<FindingSpec>::empty(),
        scan_of(rules, None, path, Seq::empty()).score == 0,
        scan_of(rules, None, path, Seq::empty()).path == path,
{
    let source = Seq::<char>::empty();
    let res = compile_each(line_sources());
    let pairs = compile_pairs(open_sources(), close_sources());
    assert(lines_of(source) == Seq::<Seq<char>>::empty());
    assert(line_pass(res, lines_of(source)) == Seq::<CommentSpec>::empty());
    assert(block_pass(pairs, lines_of(source), 0).done == Seq::<CommentSpec>::empty());
    assert(comments_for(None, source) =~= Seq::<CommentSpec>::empty());
    lemma_no_comments_no_findings(path, rules);
    assert(scan_findings(rules, None, path, source) =~= Seq::<FindingSpec>::empty());
}


/// Between any two offsets of the empty text lies the empty text.
pub proof fn lemma_slice_of_nothing(start: nat, end: nat)
    ensures
        byte_slice_of(Seq::<char>::empty(), start, end) == Seq::<char>::empty(),
{
    let s = Seq::<char>::empty();
    let bytes = encode_utf8(s);
    assert(bytes =~= Seq::<u8>::empty());
    if start <= end && end <= bytes.len() {
        assert(bytes.subrange(start as int, end as int) =~= bytes);
        encode_utf8_decode_utf8(s);
    }
}

/// The empty text holds no marker: stripped, it is still the empty text.
pub proof fn lemma_strip_nothing(kind: Seq<char>)
    ensures
        strip_markers(Seq::<char>::empty(), kind) == Seq::<char>::empty(),
{
    reveal_strlit("//");
    reveal_strlit("#");
    reveal_strlit("--");
    reveal_strlit("/*");
    reveal_strlit("{-");
    let e = Seq::<char>::empty();
    assert(trim_start_of(e) =~= e);
    assert(trim_end_of(e) =~= e);
    assert(trim_of(e) == e);
    assert(line_stripped(e) is None);
    assert(block_stripped(e) is None);
}

/// Whether every comment of some comments has the empty text as its content.
pub open spec fn all_blank(comments: Seq<CommentSpec>) -> bool {
    forall|i: int| 0 <= i < comments.len() ==> (#[trigger] comments[i]).content.len() == 0
}

/// In the empty text every comment at and under a node is blank.
pub proof fn lemma_comments_under_blank(node: tree_sitter::Node<'static>)
    ensures
        all_blank(comments_under(node, Seq::empty())),
    decreases node_descendants(node), node_children(node).len() + 1,
{
    let source = Seq::<char>::empty();
    lemma_comments_below_blank(node, node_children(node).len());
    lemma_slice_of_nothing(node_bytes(node).0, node_bytes(node).1);
    lemma_strip_nothing(node_kind(node));
}

/// In the empty text every comment under the first children of a node is
/// blank.
pub proof fn lemma_comments_below_blank(node: tree_sitter::Node<'static>, k: nat)
    ensures
        all_blank(comments_below(node, Seq::empty(), k)),
    decreases node_descendants(node), k,
{
    if k > 0 && k <= node_children(node).len() {
        lemma_comments_below_blank(node, (k - 1) as nat);
        let c = node_children(node)[k - 1];
        if node_descendants(c) < node_descendants(node) {
            lemma_comments_under_blank(c);
        }
    }
}

/// Whether none of the rules has a regex that matches in the empty text.
pub open spec fn silent_on_nothing(rules: Seq<CompiledSpec>) -> bool {
    forall|i: int|
        0 <= i < rules.len() && (#[trigger] rules[i]).compiled is Some ==> !crate::rx::matches_in(
            rules[i].compiled->0,
            Seq::empty(),
        )
}

/// Rules that are silent on the empty text find nothing in a blank comment.
pub proof fn lemma_blank_comment_no_hits(path: Seq<char>, c: CommentSpec, rules: Seq<CompiledSpec>)
    requires
        c.content.len() == 0,
        silent_on_nothing(rules),
    ensures
        comment_hits(path, c, rules) == Seq::<FindingSpec>::empty(),
    decreases rules.len(),
{
    if rules.len() > 0 {
        let head = rules.drop_last();
        assert forall|i: int| 0 <= i < head.len() && (#[trigger] head[i]).compiled is Some implies
            !crate::rx::matches_in(head[i].compiled->0, Seq::empty()) by {
            assert(head[i] == rules[i]);
        }
        lemma_blank_comment_no_hits(path, c, head);
        assert(rules.last() == rules[rules.len() - 1]);
        assert(c.content =~= Seq::<char>::empty());
        assert(rule_hit(path, c, rules.last()) == Seq::<FindingSpec>::empty());
    }
}

/// Rules that are silent on the empty text find nothing in blank comments.
pub proof fn lemma_blank_comments_no_findings(
    path: Seq<char>,
    comments: Seq<CommentSpec>,
    rules: Seq<CompiledSpec>,
)
    requires
        all_blank(comments),
        silent_on_nothing(rules),
    ensures
        findings_of_comments(path, comments, rules) == Seq::<FindingSpec>::empty(),
    decreases comments.len(),
{
    if comments.len() > 0 {
        let head = comments.drop_last();
        assert forall|i: int| 0 <= i < head.len() implies (#[trigger] head[i]).content.len()
            == 0 by {
            assert(head[i] == comments[i]);
        }
        lemma_blank_comments_no_findings(path, head, rules);
        assert(comments.last() == comments[comments.len() - 1]);
        lemma_blank_comment_no_hits(path, comments.last(), rules);
    }
}

/// A rule that is silent on the empty text lets no capture in the empty
/// text through.
pub proof fn lemma_captures_of_nothing(
    rule: CompiledSpec,
    nodes: Seq<tree_sitter::Node<'static>>,
)
    requires
        rule.compiled is Some ==> !crate::rx::matches_in(rule.compiled->0, Seq::empty()),
    ensures
        capture_findings(rule, nodes, Seq::empty()) == Seq::<FindingSpec>::empty(),
    decreases nodes.len(),
{
    if nodes.len() > 0 {
        lemma_captures_of_nothing(rule, nodes.drop_last());
        lemma_slice_of_nothing(node_bytes(nodes.last()).0, node_bytes(nodes.last()).1);
    }
}

/// Rules that are silent on the empty text have no structural finding in a
/// tree of the empty text.
pub proof fn lemma_tree_findings_of_nothing(
    rules: Seq<CompiledSpec>,
    grammar: tree_sitter::Language,
    name: Seq<char>,
    tree: tree_sitter::Tree,
)
    requires
        silent_on_nothing(rules),
    ensures
        tree_findings(rules, grammar, name, tree, Seq::empty()) == Seq::<FindingSpec>::empty(),
    decreases rules.len(),
{
    if rules.len() > 0 {
        let head = rules.drop_last();
        assert forall|i: int| 0 <= i < head.len() && (#[trigger] head[i]).compiled is Some implies
            !crate::rx::matches_in(head[i].compiled->0, Seq::empty()) by {
            assert(head[i] == rules[i]);
        }
        lemma_tree_findings_of_nothing(head, grammar, name, tree);
        let rule = rules.last();
        assert(rule == rules[rules.len() - 1]);
        let query = query_compile(grammar, rule.pattern.ast_query->0);
        lemma_captures_of_nothing(rule, query_captures(query->Ok_0, tree, Seq::empty()));
    }
}

/// The empty text has no findings and the score zero, whatever grammar the
/// scanner holds and whatever tree the parser makes of the empty text,
/// under all rules of which none has a regex that matches in the empty
/// text.  A rule whose regex does match there is left out: with a query
/// that captures a node of the empty text it has a finding.
pub proof fn law_empty_text_needs_a_rule_that_matches_it(
    rules: Seq<CompiledSpec>,
    grammar: Option<tree_sitter::Language>,
    path: Seq<char>,
)
    requires
        silent_on_nothing(rules),
    ensures
        scan_of(rules, grammar, path, Seq::empty()).findings == Seq::<FindingSpec>::empty(),
        scan_of(rules, grammar, path, Seq::empty()).score == 0,
        scan_of(rules, grammar, path, Seq::empty()).path == path,
{
    let source = Seq::<char>::empty();
    match grammar {
        Some(g) => {
            let lang = classify(path);
            if parse_tree(g, source) is Some {
                let tree = parse_tree(g, source)->0;
                lemma_comments_under_blank(tree_root(tree));
                lemma_tree_findings_of_nothing(rules, g, lang.grammar_name(), tree);
            }
            assert(all_blank(comments_for(grammar, source)));
            lemma_blank_comments_no_findings(path, comments_for(grammar, source), rules);
            assert(structural_for(rules, grammar, lang, path, source)
                =~= Seq::<FindingSpec>::empty());
            assert(scan_findings(rules, grammar, path, source) =~= Seq::<FindingSpec>::empty());
        },
        None => {
            law_empty_text_has_no_findings(rules, path);
        },
    }
}

/// What [`lead`] counts: the characters before it satisfy `keep`, and the
/// one at it, if there is one, does not.
pub proof fn lemma_lead_props(s: Seq<char>, keep: spec_fn(char) -> bool)
    ensures
        lead(s, keep) <= s.len(),
        forall|j: int| 0 <= j < lead(s, keep) ==> keep(#[trigger] s[j]),
        lead(s, keep) < s.len() ==> !keep(s[lead(s, keep) as int]),
    decreases s.len(),
{
    if s.len() > 0 && keep(s[0]) {
        let t = s.drop_first();
        lemma_lead_props(t, keep);
        assert forall|j: int| 0 <= j < lead(s, keep) implies keep(#[trigger] s[j]) by {
            if j > 0 {
                assert(s[j] == t[j - 1]);
            }
        }
        if lead(s, keep) < s.len() {
            assert(s[lead(s, keep) as int] == t[lead(t, keep) as int]);
        }
    }
}

/// What [`trail`] counts: the last characters satisfy `keep`, and the one
/// before them, if there is one, does not.
pub proof fn lemma_trail_props(s: Seq<char>, keep: spec_fn(char) -> bool)
    ensures
        trail(s, keep) <= s.len(),
        forall|j: int| s.len() - trail(s, keep) <= j < s.len() ==> keep(#[trigger] s[j]),
        trail(s, keep) < s.len() ==> !keep(s[s.len() - trail(s, keep) - 1]),
    decreases s.len(),
{
    if s.len() > 0 && keep(s.last()) {
        let t = s.drop_last();
        lemma_trail_props(t, keep);
        assert forall|j: int| s.len() - trail(s, keep) <= j < s.len() implies keep(
            #[trigger] s[j],
        ) by {
            if j < s.len() - 1 {
                assert(s[j] == t[j]);
            }
        }
        if trail(s, keep) < s.len() {
            assert(s[s.len() - trail(s, keep) - 1] == t[t.len() - trail(t, keep) - 1]);
        }
    }
}

/// Trimming the start and then the end leaves what lies between the leading
/// and the trailing white space.
pub proof fn lemma_trim_is_middle(w: Seq<char>)
    ensures
        lead(w, |c: char| is_space(c)) + trail(w, |c: char| is_space(c)) <= w.len() ==> trim_of(w)
            == w.subrange(
            lead(w, |c: char| is_space(c)) as int,
            w.len() - trail(w, |c: char| is_space(c)),
        ),
        lead(w, |c: char| is_space(c)) + trail(w, |c: char| is_space(c)) > w.len() ==> trim_of(w)
            == Seq::<char>::empty() && lead(w, |c: char| is_space(c)) == w.len() && trail(
            w,
            |c: char| is_space(c),
        ) == w.len(),
{
    let sp = |c: char| is_space(c);
    let a = lead(w, sp);
    let b = trail(w, sp);
    lemma_lead_props(w, sp);
    lemma_trail_props(w, sp);
    let rest = w.skip(a as int);
    if a + b <= w.len() {
        assert forall|j: int| rest.len() - b <= j < rest.len() implies sp(#[trigger] rest[j]) by {
            assert(rest[j] == w[j + a]);
        }
        if b < rest.len() {
            assert(rest[rest.len() - b - 1] == w[w.len() - b - 1]);
        }
        lemma_trail_is(rest, sp, b as int);
        assert(rest.take(rest.len() - b) =~= w.subrange(a as int, w.len() - b));
    } else {
        if a < w.len() {
            assert(sp(w[a as int]));
        }
        assert(a == w.len());
        if b < w.len() {
            assert(sp(w[w.len() - b - 1]));
        }
        assert(rest.len() == 0);
        assert(trim_of(w) =~= Seq::<char>::empty());
    }
}

/// Trimming the end and then the start leaves the same as trimming the
/// start and then the end.
pub proof fn lemma_trim_either_way(w: Seq<char>)
    ensures
        trim_start_of(trim_end_of(w)) == trim_of(w),
{
    let sp = |c: char| is_space(c);
    let a = lead(w, sp);
    let b = trail(w, sp);
    lemma_lead_props(w, sp);
    lemma_trail_props(w, sp);
    lemma_trim_is_middle(w);
    let head = w.take(w.len() - b);
    if a + b <= w.len() {
        assert forall|j: int| 0 <= j < a implies sp(#[trigger] head[j]) by {
            assert(head[j] == w[j]);
        }
        if a < head.len() {
            assert(head[a as int] == w[a as int]);
        }
        lemma_lead_is(head, sp, a as int);
        assert(head.skip(a as int) =~= w.subrange(a as int, w.len() - b));
    } else {
        assert(head.len() == 0);
        assert(trim_start_of(head) =~= Seq::<char>::empty());
    }
}

/// White space at the end of a text is counted alike with a prefix before
/// the text that does not end in white space.
pub proof fn lemma_trail_behind_prefix(prefix: Seq<char>, w: Seq<char>)
    requires
        prefix.len() > 0,
        !is_space(prefix.last()),
    ensures
        trail(prefix + w, |c: char| is_space(c)) == trail(w, |c: char| is_space(c)),
{
    let sp = |c: char| is_space(c);
    let b = trail(w, sp);
    let all = prefix + w;
    lemma_trail_props(w, sp);
    assert forall|j: int| all.len() - b <= j < all.len() implies sp(#[trigger] all[j]) by {
        assert(all[j] == w[j - prefix.len()]);
    }
    if b < w.len() {
        assert(all[all.len() - b - 1] == w[w.len() - b - 1]);
    } else {
        assert(all[all.len() - b - 1] == prefix.last());
    }
    lemma_trail_is(all, sp, b as int);
}

/// A text behind a marker that neither starts nor ends in white space is
/// trimmed at its end only: the marker stays where it is.
pub proof fn lemma_trim_behind_marker(m: Seq<char>, w: Seq<char>)
    requires
        m.len() > 0,
        !is_space(m[0]),
        !is_space(m.last()),
    ensures
        trim_of(m + w) == m + trim_end_of(w),
{
    let sp = |c: char| is_space(c);
    let text = m + w;
    assert(text[0] == m[0]);
    lemma_lead_is(text, sp, 0);
    assert(trim_start_of(text) =~= text);
    lemma_trail_behind_prefix(m, w);
    lemma_trail_props(w, sp);
    assert(trim_of(text) =~= m + trim_end_of(w));
}

/// What the fallback makes of a comment that is a run of marker characters
/// and a rest that does not start with one: the rest, trimmed.
pub proof fn lemma_fallback_strips_marker(m: Seq<char>, w: Seq<char>)
    requires
        forall|j: int| 0 <= j < m.len() ==> markers().contains(#[trigger] m[j]),
        w.len() == 0 || !markers().contains(w[0]),
    ensures
        line_content(m + w) == trim_of(w),
{
    let text = m + w;
    let in_markers = |c: char| markers().contains(c);
    assert forall|j: int| 0 <= j < m.len() implies in_markers(#[trigger] text[j]) by {
        assert(text[j] == m[j]);
    }
    if w.len() > 0 {
        assert(text[m.len() as int] == w[0]);
    }
    lemma_lead_is(text, in_markers, m.len() as int);
    assert(strip_leading(text, markers()) =~= w);
    let in_quotes = |c: char| quote_markers().contains(c);
    if w.len() > 0 && quote_markers().contains(w[0]) {
        let k = choose|k: int| 0 <= k < quote_markers().len() && quote_markers()[k] == w[0];
        assert(markers().contains(w[0])) by {
            if k == 0 {
                assert(markers()[0] == w[0]);
            } else if k == 1 {
                assert(markers()[5] == w[0]);
            } else {
                assert(markers()[6] == w[0]);
            }
        }
    }
    lemma_lead_is(w, in_quotes, 0);
    assert(strip_leading(w, quote_markers()) =~= w);
}

/// A text that neither starts nor ends in white space is its own trimming.
pub proof fn lemma_trim_of_tight(s: Seq<char>)
    requires
        s.len() > 0,
        !is_space(s[0]),
        !is_space(s.last()),
    ensures
        trim_of(s) == s,
{
    let sp = |c: char| is_space(c);
    lemma_lead_is(s, sp, 0);
    assert(trim_start_of(s) =~= s);
    lemma_trail_is(s, sp, 0);
    assert(trim_end_of(s) =~= s);
}

/// The fallback drops the delimiters of a block comment: of `/*`, a text
/// and `*/`, whatever lines the text spans, the content is the text without
/// the white space around it.
pub proof fn law_block_delimiters_are_dropped(w: Seq<char>)
    ensures
        block_content("/*"@ + w + "*/"@) == trim_of(w),
{
    reveal_strlit("/*");
    reveal_strlit("*/");
    let open = "/*"@;
    let close = "*/"@;
    let joined = open + w + close;
    assert(open =~= seq!['/', '*']);
    assert(close =~= seq!['*', '/']);
    assert(joined[0] == '/');
    assert(joined.last() == '/');
    assert(!is_space('/'));
    lemma_trim_of_tight(joined);
    assert(joined.take(2) =~= open);
    assert(opening_delimiters()[0] == open);
    let inner = without_opening(joined, opening_delimiters());
    assert(inner =~= w + close);
    assert(inner.skip(inner.len() - 2) =~= close);
    assert(closing_delimiters()[0] == close);
    assert(without_closing(inner, closing_delimiters()) =~= w);
}

/// Both extractors strip a `//` comment alike.  Of a text that is `//` and
/// a rest that does not start with a marker character, the fallback and the
/// grammar-aware extractor, whatever the kind of the node, make the same
/// content: the rest without the white space around it.
pub proof fn law_slash_comments_are_stripped_alike(w: Seq<char>, kind: Seq<char>)
    requires
        w.len() == 0 || !markers().contains(w[0]),
    ensures
        strip_markers("//"@ + w, kind) == line_content("//"@ + w),
        line_content("//"@ + w) == trim_of(w),
{
    reveal_strlit("//");
    reveal_strlit("/*");
    reveal_strlit("{-");
    let m = "//"@;
    assert(m =~= seq!['/', '/']);
    assert(markers().contains('/')) by {
        assert(markers()[0] == '/');
    }
    assert forall|j: int| 0 <= j < m.len() implies markers().contains(#[trigger] m[j]) by {
        assert(m[j] == '/');
    }
    lemma_fallback_strips_marker(m, w);
    assert(!is_space('/'));
    lemma_trim_behind_marker(m, w);
    let t = trim_of(m + w);
    assert(t.take(2) =~= m);
    assert(starts_with(t, m));
    assert(t.skip(2) =~= trim_end_of(w));
    assert(after_marker(t, m) == Some(trim_start_of(trim_end_of(w))));
    assert(!starts_with(t, "/*"@)) by {
        if starts_with(t, "/*"@) {
            assert(t.take(2)[1] == '*');
        }
    }
    assert(!starts_with(t, "{-"@)) by {
        if starts_with(t, "{-"@) {
            assert(t.take(2)[0] == '{');
        }
    }
    assert(block_stripped(t) is None);
    lemma_trim_either_way(w);
}

/// Both extractors strip a `#` comment alike.  Of a text that is `#` and a
/// rest that does not start with a marker character, the fallback and the
/// grammar-aware extractor, whatever the kind of the node, make the same
/// content: the rest without the white space around it.
pub proof fn law_hash_comments_are_stripped_alike(w: Seq<char>, kind: Seq<char>)
    requires
        w.len() == 0 || !markers().contains(w[0]),
    ensures
        strip_markers("#"@ + w, kind) == line_content("#"@ + w),
        line_content("#"@ + w) == trim_of(w),
{
    reveal_strlit("#");
    reveal_strlit("//");
    reveal_strlit("/*");
    reveal_strlit("{-");
    let m = "#"@;
    assert(m =~= seq!['#']);
    assert(markers().contains('#')) by {
        assert(markers()[1] == '#');
    }
    assert forall|j: int| 0 <= j < m.len() implies markers().contains(#[trigger] m[j]) by {
        assert(m[j] == '#');
    }
    lemma_fallback_strips_marker(m, w);
    assert(!is_space('#'));
    lemma_trim_behind_marker(m, w);
    let t = trim_of(m + w);
    assert(t.take(1) =~= m);
    assert(starts_with(t, m));
    assert(t.skip(1) =~= trim_end_of(w));
    assert(after_marker(t, m) == Some(trim_start_of(trim_end_of(w))));
    assert(!starts_with(t, "//"@)) by {
        if starts_with(t, "//"@) {
            assert(t.take(2)[0] == '/');
        }
    }
    assert(!starts_with(t, "/*"@)) by {
        if starts_with(t, "/*"@) {
            assert(t.take(2)[0] == '/');
        }
    }
    assert(!starts_with(t, "{-"@)) by {
        if starts_with(t, "{-"@) {
            assert(t.take(2)[0] == '{');
        }
    }
    assert(block_stripped(t) is None);
    assert(line_stripped(t) == after_marker(t, m));
    lemma_trim_either_way(w);
}


/// Whether a comment's line and column are counted from one.
pub open spec fn comment_from_one(c: CommentSpec) -> bool {
    c.line >= 1 && c.column >= 1
}

/// Whether every comment's line and column are counted from one.
pub open spec fn comments_from_one(cs: Seq<CommentSpec>) -> bool {
    forall|i: int| 0 <= i < cs.len() ==> comment_from_one(#[trigger] cs[i])
}

/// Comments counted from one, one run after another, are counted from one.
pub proof fn lemma_comments_from_one_concat(a: Seq<CommentSpec>, b: Seq<CommentSpec>)
    requires
        comments_from_one(a),
        comments_from_one(b),
    ensures
        comments_from_one(a + b),
{
    let all = a + b;
    assert forall|i: int| 0 <= i < all.len() implies comment_from_one(#[trigger] all[i]) by {
        if i < a.len() {
            assert(all[i] == a[i]);
        } else {
            assert(all[i] == b[i - a.len()]);
        }
    }
}

/// The line comments of the fallback are counted from one.
pub proof fn lemma_line_pass_from_one(res: Seq<regex::Regex>, lines: Seq<Seq<char>>)
    ensures
        comments_from_one(line_pass(res, lines)),
    decreases lines.len(),
{
    if lines.len() > 0 {
        lemma_line_pass_from_one(res, lines.drop_last());
        lemma_line_hits_from_one(res, lines.last(), (lines.len() - 1) as nat);
        lemma_comments_from_one_concat(
            line_pass(res, lines.drop_last()),
            line_hits(res, lines.last(), (lines.len() - 1) as nat),
        );
    }
}

/// The comments that the families find on one line are counted from one.
pub proof fn lemma_line_hits_from_one(res: Seq<regex::Regex>, line: Seq<char>, idx: nat)
    ensures
        comments_from_one(line_hits(res, line, idx)),
    decreases res.len(),
{
    if res.len() > 0 {
        lemma_line_hits_from_one(res.drop_last(), line, idx);
        lemma_comments_from_one_concat(
            line_hits(res.drop_last(), line, idx),
            line_hit(res.last(), line, idx),
        );
    }
}

/// The block comments of the fallback are counted from one.
pub proof fn lemma_block_pass_from_one(
    pairs: Seq<(regex::Regex, regex::Regex)>,
    lines: Seq<Seq<char>>,
    n: nat,
)
    ensures
        comments_from_one(block_pass(pairs, lines, n).done),
    decreases n,
{
    if n > 0 && n <= lines.len() {
        lemma_block_pass_from_one(pairs, lines, (n - 1) as nat);
        let before = block_pass(pairs, lines, (n - 1) as nat);
        if before.open is Some {
            lemma_comments_from_one_concat(
                before.done,
                block_comment(lines, before.open->0, (n - 1) as nat),
            );
        }
    }
}

/// The comments at and under a node are counted from one.
pub proof fn lemma_comments_under_from_one(node: tree_sitter::Node<'static>, source: Seq<char>)
    ensures
        comments_from_one(comments_under(node, source)),
    decreases node_descendants(node), node_children(node).len() + 1,
{
    lemma_comments_below_from_one(node, source, node_children(node).len());
    lemma_comments_from_one_concat(
        own_comment(node, source),
        comments_below(node, source, node_children(node).len()),
    );
}

/// The comments under the first children of a node are counted from one.
pub proof fn lemma_comments_below_from_one(
    node: tree_sitter::Node<'static>,
    source: Seq<char>,
    k: nat,
)
    ensures
        comments_from_one(comments_below(node, source, k)),
    decreases node_descendants(node), k,
{
    if k > 0 && k <= node_children(node).len() {
        lemma_comments_below_from_one(node, source, (k - 1) as nat);
        let c = node_children(node)[k - 1];
        if node_descendants(c) < node_descendants(node) {
            lemma_comments_under_from_one(c, source);
            lemma_comments_from_one_concat(
                comments_below(node, source, (k - 1) as nat),
                comments_under(c, source),
            );
        } else {
            lemma_comments_from_one_concat(
                comments_below(node, source, (k - 1) as nat),
                Seq::<CommentSpec>::empty(),
            );
        }
    }
}

/// Lines and columns are counted from one: every comment that either
/// extractor finds has a line and a column of at least one.
pub proof fn law_comments_count_from_one(
    grammar: Option<tree_sitter::Language>,
    source: Seq<char>,
)
    ensures
        comments_from_one(comments_for(grammar, source)),
{
    match grammar {
        Some(g) => {
            if parse_tree(g, source) is Some {
                lemma_comments_under_from_one(tree_root(parse_tree(g, source)->0), source);
            }
        },
        None => {
            let res = compile_each(line_sources());
            let pairs = compile_pairs(open_sources(), close_sources());
            let lines = lines_of(source);
            lemma_line_pass_from_one(res, lines);
            lemma_block_pass_from_one(pairs, lines, lines.len());
            lemma_comments_from_one_concat(
                line_pass(res, lines),
                block_pass(pairs, lines, lines.len()).done,
            );
        },
    }
}

/// Whether a finding names the file `path` and has a line and a column
/// counted from one.
pub open spec fn placed(f: FindingSpec, path: Seq<char>) -> bool {
    f.file == path && f.line >= 1 && f.column >= 1
}

/// Whether every finding is placed in the file `path`.
pub open spec fn all_placed(fs: Seq<FindingSpec>, path: Seq<char>) -> bool {
    forall|i: int| 0 <= i < fs.len() ==> placed(#[trigger] fs[i], path)
}

/// Findings placed in a file, one run after another, are placed in it.
pub proof fn lemma_all_placed_concat(a: Seq<FindingSpec>, b: Seq<FindingSpec>, path: Seq<char>)
    requires
        all_placed(a, path),
        all_placed(b, path),
    ensures
        all_placed(a + b, path),
{
    assert forall|i: int| 0 <= i < (a + b).len() implies placed(#[trigger] (a + b)[i], path) by {
        if i < a.len() {
            assert((a + b)[i] == a[i]);
        } else {
            assert((a + b)[i] == b[i - a.len()]);
        }
    }
}

/// What the rules find in a comment counted from one is placed in the file.
pub proof fn lemma_comment_hits_placed(path: Seq<char>, c: CommentSpec, rules: Seq<CompiledSpec>)
    requires
        comment_from_one(c),
    ensures
        all_placed(comment_hits(path, c, rules), path),
    decreases rules.len(),
{
    if rules.len() > 0 {
        lemma_comment_hits_placed(path, c, rules.drop_last());
        lemma_all_placed_concat(
            comment_hits(path, c, rules.drop_last()),
            rule_hit(path, c, rules.last()),
            path,
        );
    }
}

/// What the rules find in comments counted from one is placed in the file.
pub proof fn lemma_findings_of_comments_placed(
    path: Seq<char>,
    comments: Seq<CommentSpec>,
    rules: Seq<CompiledSpec>,
)
    requires
        comments_from_one(comments),
    ensures
        all_placed(findings_of_comments(path, comments, rules), path),
    decreases comments.len(),
{
    if comments.len() > 0 {
        let head = comments.drop_last();
        assert forall|i: int| 0 <= i < head.len() implies comment_from_one(#[trigger] head[i]) by {
            assert(head[i] == comments[i]);
        }
        lemma_findings_of_comments_placed(path, head, rules);
        assert(comment_from_one(comments[comments.len() - 1]));
        lemma_comment_hits_placed(path, comments.last(), rules);
        lemma_all_placed_concat(
            findings_of_comments(path, head, rules),
            comment_hits(path, comments.last(), rules),
            path,
        );
    }
}

/// The structural findings of one rule have lines and columns counted from
/// one.
pub proof fn lemma_capture_findings_from_one(
    rule: CompiledSpec,
    nodes: Seq<tree_sitter::Node<'static>>,
    source: Seq<char>,
    k: int,
)
    requires
        0 <= k < capture_findings(rule, nodes, source).len(),
    ensures
        capture_findings(rule, nodes, source)[k].line >= 1,
        capture_findings(rule, nodes, source)[k].column >= 1,
    decreases nodes.len(),
{
    if nodes.len() > 0 {
        let head = capture_findings(rule, nodes.drop_last(), source);
        if k < head.len() {
            lemma_capture_findings_from_one(rule, nodes.drop_last(), source, k);
        }
    }
}

/// The structural findings of a tree have lines and columns counted from
/// one.
pub proof fn lemma_tree_findings_from_one(
    rules: Seq<CompiledSpec>,
    grammar: tree_sitter::Language,
    name: Seq<char>,
    tree: tree_sitter::Tree,
    source: Seq<char>,
    k: int,
)
    requires
        0 <= k < tree_findings(rules, grammar, name, tree, source).len(),
    ensures
        tree_findings(rules, grammar, name, tree, source)[k].line >= 1,
        tree_findings(rules, grammar, name, tree, source)[k].column >= 1,
    decreases rules.len(),
{
    if rules.len() > 0 {
        let head = tree_findings(rules.drop_last(), grammar, name, tree, source);
        if k < head.len() {
            lemma_tree_findings_from_one(rules.drop_last(), grammar, name, tree, source, k);
        } else {
            let rule = rules.last();
            let query = query_compile(grammar, rule.pattern.ast_query->0);
            lemma_capture_findings_from_one(
                rule,
                query_captures(query->Ok_0, tree, source),
                source,
                k - head.len(),
            );
        }
    }
}

/// Every finding of a scan names the scanned path, and its line and column
/// are counted from one.
pub proof fn law_findings_are_placed(
    rules: Seq<CompiledSpec>,
    grammar: Option<tree_sitter::Language>,
    path: Seq<char>,
    content: Seq<char>,
)
    ensures
        all_placed(scan_findings(rules, grammar, path, content), path),
        scan_of(rules, grammar, path, content).path == path,
{
    let lang = classify(path);
    law_comments_count_from_one(grammar, content);
    lemma_findings_of_comments_placed(path, comments_for(grammar, content), rules);
    let structural = structural_for(rules, grammar, lang, path, content);
    assert forall|k: int| 0 <= k < structural.len() implies placed(
        #[trigger] structural[k],
        path,
    ) by {
        let tree = parse_tree(grammar->0, content)->0;
        lemma_tree_findings_from_one(rules, grammar->0, lang.grammar_name(), tree, content, k);
    }
    lemma_all_placed_concat(
        findings_of_comments(path, comments_for(grammar, content), rules),
        structural,
        path,
    );
}

} // verus!
