//! The scanner: from a path and a text to the findings in that text.
//!
//! A scan classifies the file by its path, extracts the comments with the
//! one strategy chosen for that language, matches every comment rule against
//! every comment, and then, where there is a grammar, runs the structural
//! rules on the syntax tree.  Nothing is read but the two arguments.

use vstd::prelude::*;
use crate::config::{Pattern, PatternSpec};
use crate::detector::language::{classify, Language};
use crate::detector::patterns::{
    all_compile, compiled_rules, first_invalid, CompiledSpec, PatternRegistry,
};
use crate::detector::regex_fallback::{
    close_sources, compile_each, compile_pairs, fallback_comments, line_sources, open_sources,
    RegexExtractor,
};
use crate::detector::structural::{
    all_extractors, extractor_for, grammar_among, structural_findings, tree_comments,
    warnings_of, TreeSitterExtractor,
};
use crate::detector::{
    capped_usize, file_score, lemma_capped_add, lemma_score_sum_push, score_sum, Comment,
    CommentSpec, FileScanResult, FileScanSpec, Finding, FindingSpec,
};
use crate::rx::{find, regex_compile, regex_find, MatchSpec, RegexMatch};
use crate::{Error, ErrorSpec};

verus! {

/// Comment extractor trait: one contract for every way of finding the
/// comments of a text.
pub trait CommentExtractor {
    /// The comments of a text, in the order in which they are found.
    spec fn extracted(&self, source: Seq<char>) -> Seq<CommentSpec>;

    /// Extract all comments from the given source code.
    fn extract(&self, source: &str) -> (comments: Vec<Comment>)
        ensures
            comments.deep_view() == self.extracted(source@),
    ;
}

impl CommentExtractor for RegexExtractor {
    open spec fn extracted(&self, source: Seq<char>) -> Seq<CommentSpec> {
        self.comments_of(source)
    }

    fn extract(&self, source: &str) -> (comments: Vec<Comment>) {
        RegexExtractor::extract(self, source)
    }
}

impl CommentExtractor for TreeSitterExtractor {
    open spec fn extracted(&self, source: Seq<char>) -> Seq<CommentSpec> {
        self.comments_of(source)
    }

    fn extract(&self, source: &str) -> (comments: Vec<Comment>) {
        TreeSitterExtractor::extract(self, source)
    }
}

/// Runs whichever extractor was chosen.
fn run_extractor<E: CommentExtractor>(extractor: &E, source: &str) -> (comments: Vec<Comment>)
    ensures
        comments.deep_view() == extractor.extracted(source@),
{
    extractor.extract(source)
}

/// The finding for a rule whose regex matched in a comment: at the comment's
/// line, and at its column moved on by the offset of the match.
pub open spec fn finding_of(path: Seq<char>, c: CommentSpec, p: PatternSpec, m: MatchSpec)
    -> FindingSpec {
    FindingSpec {
        file: path,
        line: c.line,
        column: capped_usize(c.column + m.start) as nat,
        severity: p.severity,
        category: p.category,
        message: p.message,
        match_text: m.text,
        pattern_regex: p.regex,
    }
}

/// What one rule finds in one comment.  A rule with a structural query is
/// not matched against comments.
pub open spec fn rule_hit(path: Seq<char>, c: CommentSpec, rule: CompiledSpec) -> Seq<FindingSpec> {
    if rule.pattern.ast_query is Some || rule.compiled is None {
        Seq::empty()
    } else {
        match regex_find(rule.compiled->0, c.content) {
            Some(m) => seq![finding_of(path, c, rule.pattern, m)],
            None => Seq::empty(),
        }
    }
}

/// What the rules find in one comment, rule after rule.
pub open spec fn comment_hits(path: Seq<char>, c: CommentSpec, rules: Seq<CompiledSpec>) -> Seq<
    FindingSpec,
>
    decreases rules.len(),
{
    if rules.len() == 0 {
        Seq::empty()
    } else {
        comment_hits(path, c, rules.drop_last()) + rule_hit(path, c, rules.last())
    }
}

/// What the rules find in some comments, comment after comment.
pub open spec fn findings_of_comments(
    path: Seq<char>,
    comments: Seq<CommentSpec>,
    rules: Seq<CompiledSpec>,
) -> Seq<FindingSpec>
    decreases comments.len(),
{
    if comments.len() == 0 {
        Seq::empty()
    } else {
        findings_of_comments(path, comments.drop_last(), rules) + comment_hits(
            path,
            comments.last(),
            rules,
        )
    }
}

/// The comments of a text: those that the grammar finds where there is one,
/// else those of the fallback.
pub open spec fn comments_for(grammar: Option<tree_sitter::Language>, source: Seq<char>) -> Seq<
    CommentSpec,
> {
    match grammar {
        Some(g) => tree_comments(g, source),
        None => fallback_comments(
            compile_each(line_sources()),
            compile_pairs(open_sources(), close_sources()),
            source,
        ),
    }
}

/// The same findings, each naming the file `path`.
pub open spec fn stamped(path: Seq<char>, findings: Seq<FindingSpec>) -> Seq<FindingSpec> {
    Seq::new(findings.len(), |i: int| FindingSpec { file: path, ..findings[i] })
}

/// The structural findings of a file of the language `lang`; none where
/// there is no grammar.
pub open spec fn structural_for(
    rules: Seq<CompiledSpec>,
    grammar: Option<tree_sitter::Language>,
    lang: Language,
    path: Seq<char>,
    source: Seq<char>,
) -> Seq<FindingSpec> {
    match grammar {
        Some(g) => stamped(path, structural_findings(rules, g, lang.grammar_name(), source)),
        None => Seq::empty(),
    }
}

/// The findings of a scan with the grammar, if any, that the scanner holds
/// for the language of the path: those from comments, then the structural
/// ones.
pub open spec fn scan_findings(
    rules: Seq<CompiledSpec>,
    grammar: Option<tree_sitter::Language>,
    path: Seq<char>,
    source: Seq<char>,
) -> Seq<FindingSpec> {
    findings_of_comments(path, comments_for(grammar, source), rules) + structural_for(
        rules,
        grammar,
        classify(path),
        path,
        source,
    )
}

/// The result of a scan: the path, the findings, and their score.
pub open spec fn scan_of(
    rules: Seq<CompiledSpec>,
    grammar: Option<tree_sitter::Language>,
    path: Seq<char>,
    source: Seq<char>,
) -> FileScanSpec {
    let findings = scan_findings(rules, grammar, path, source);
    FileScanSpec { path, findings, score: file_score(findings) }
}

/// The finding that a match of a rule in a comment gives.
pub fn finding_from_match(path: &str, comment: &Comment, pattern: &Pattern, m: RegexMatch) -> (f:
    Finding)
    ensures
        f.deep_view() == finding_of(path@, comment.deep_view(), pattern.deep_view(), m.deep_view()),
{
    Finding {
        file: path.to_owned(),
        line: comment.line,
        column: comment.column.saturating_add(m.start),
        severity: pattern.severity,
        category: pattern.category,
        message: pattern.message.clone(),
        match_text: m.text,
        pattern_regex: pattern.regex.clone(),
    }
}

/// The main scanner.  It holds the rules with their matchers, and for each
/// language that has a grammar the extractor it was made with.
pub struct Scanner {
    registry: PatternRegistry,
    extractors: Vec<TreeSitterExtractor>,
}

impl Scanner {
    /// The rules of this scanner with their matchers, in their order.
    pub closed spec fn rules(&self) -> Seq<CompiledSpec> {
        self.registry.deep_view()
    }

    /// The grammar that this scanner holds for a language, if any.
    pub closed spec fn grammar_for(&self, lang: Language) -> Option<tree_sitter::Language> {
        grammar_among(self.extractors@, lang)
    }

    /// What a scan of a text under a path gives.
    pub open spec fn scan(&self, path: Seq<char>, content: Seq<char>) -> FileScanSpec {
        scan_of(self.rules(), self.grammar_for(classify(path)), path, content)
    }

    /// Create a new scanner with the given patterns.
    ///
    /// Succeeds exactly when every regex compiles.  Otherwise no scanner is
    /// made, and the error names the first regex that does not compile.  The
    /// scanner holds a grammar for exactly the languages that have one.
    pub fn new(patterns: Vec<Pattern>) -> (r: Result<Self, Error>)
        ensures
            r is Ok <==> all_compile(patterns.deep_view()),
            r matches Ok(s) ==> s.rules() == compiled_rules(patterns.deep_view()),
            r matches Ok(s) ==> forall|lang: Language|
                (#[trigger] s.grammar_for(lang)) is Some <==> lang.has_grammar(),
            r matches Err(e) ==> exists|i: int| #[trigger]
                first_invalid(patterns.deep_view(), i) && e.deep_view() == ErrorSpec::Regex(
                    patterns.deep_view()[i].regex,
                    regex_compile(patterns.deep_view()[i].regex)->Err_0,
                ),
    {
        match PatternRegistry::new(patterns) {
            Ok(registry) => Ok(Scanner { registry, extractors: all_extractors() }),
            Err(e) => Err(e),
        }
    }

    /// The registry that this scanner matches with.
    pub fn registry(&self) -> (r: &PatternRegistry)
        ensures
            r.deep_view() == self.rules(),
    {
        &self.registry
    }

    /// The extractor that this scanner holds for a language, if any.
    pub fn extractor(&self, lang: Language) -> (e: Option<&TreeSitterExtractor>)
        ensures
            match e {
                Some(x) => x.language == lang && self.grammar_for(lang) == Some(x.grammar),
                None => self.grammar_for(lang) is None,
            },
    {
        extractor_for(&self.extractors, lang)
    }

    /// The warnings for a file: one for each rule that applies to the file's
    /// language and is passed over because its structural query does not
    /// compile.  None where the scanner holds no grammar for the language.
    pub fn query_warnings(&self, path: &str) -> (warnings: Vec<String>)
        ensures
            warnings.deep_view() == match self.grammar_for(classify(path@)) {
                Some(g) => warnings_of(self.rules(), g, classify(path@).grammar_name()),
                None => Seq::<Seq<char>>::empty(),
            },
    {
        let lang = Language::from_path(path);
        match self.extractor(lang) {
            Some(extractor) => {
                let all = self.registry.all();
                assert(all.deep_view() =~= self.rules());
                extractor.query_warnings(all)
            },
            None => {
                let none: Vec<String> = Vec::new();
                assert(none.deep_view() =~= Seq::<Seq<char>>::empty());
                none
            },
        }
    }

    /// Scan a single file.
    ///
    /// The path is read for its extension and written into each finding; the
    /// file itself is never opened.
    pub fn scan_file(&self, path: &str, content: &str) -> (r: FileScanResult)
        ensures
            r.deep_view() == self.scan(path@, content@),
    {
        let lang = Language::from_path(path);
        let mut result = self.findings_from_comments(path, lang, content);
        let ghost from_comments = result.findings.deep_view();
        match self.extractor(lang) {
            Some(extractor) => {
                let all = self.registry.all();
                assert(all.deep_view() =~= self.rules());
                let ast_findings = extractor.extract_ast_findings(content, all);
                let ghost found = ast_findings.deep_view();
                let mut k: usize = 0;
                assert(stamped(path@, found).take(0) =~= Seq::<FindingSpec>::empty());
                assert(from_comments + Seq::<FindingSpec>::empty() =~= from_comments);
                while k < ast_findings.len()
                    invariant
                        k <= ast_findings.len(),
                        found == ast_findings.deep_view(),
                        result.path@ == path@,
                        result.findings.deep_view() == from_comments + stamped(
                            path@,
                            found,
                        ).take(k as int),
                        result.score == file_score(result.findings.deep_view()),
                    decreases ast_findings.len() - k,
                {
                    let ghost before = result.findings.deep_view();
                    let mut finding = ast_findings[k].clone();
                    finding.file = path.to_owned();
                    proof {
                        assert(finding.deep_view() == stamped(path@, found)[k as int]);
                        assert(stamped(path@, found).take(k + 1) =~= stamped(path@, found).take(
                            k as int,
                        ).push(finding.deep_view()));
                        lemma_score_sum_push(before, finding.deep_view());
                        lemma_capped_add(score_sum(before), finding.severity.weight());
                    }
                    result.score = result.score.saturating_add(finding.severity.score());
                    result.findings.push(finding);
                    proof {
                        assert(result.findings.deep_view() =~= before.push(finding.deep_view()));
                        assert(before.push(finding.deep_view()) =~= from_comments + stamped(
                            path@,
                            found,
                        ).take(k + 1));
                    }
                    k += 1;
                }
                proof {
                    assert(stamped(path@, found).take(k as int) =~= stamped(path@, found));
                }
            },
            None => {
                assert(from_comments + Seq::<FindingSpec>::empty() =~= from_comments);
            },
        }
        result
    }

    /// Extract comments using the best available method: with the extractor
    /// held for the language, else with the fallback.  The choice is made
    /// once for the file.
    fn extract_comments(&self, lang: Language, source: &str) -> (comments: Vec<Comment>)
        ensures
            comments.deep_view() == comments_for(self.grammar_for(lang), source@),
    {
        match self.extractor(lang) {
            Some(extractor) => run_extractor(extractor, source),
            None => run_extractor(&RegexExtractor::new(), source),
        }
    }

    /// Convert comments to findings by matching patterns.
    fn findings_from_comments(&self, path: &str, lang: Language, source: &str) -> (r:
        FileScanResult)
        ensures
            r.path@ == path@,
            r.findings.deep_view() == findings_of_comments(
                path@,
                comments_for(self.grammar_for(lang), source@),
                self.rules(),
            ),
            r.score == file_score(r.findings.deep_view()),
    {
        let comments = self.extract_comments(lang, source);
        self.match_comments(path, &comments)
    }

    /// The findings of the comment rules in given comments, with their score.
    pub fn match_comments(&self, path: &str, comments: &Vec<Comment>) -> (r: FileScanResult)
        ensures
            r.path@ == path@,
            r.findings.deep_view() == findings_of_comments(
                path@,
                comments.deep_view(),
                self.rules(),
            ),
            r.score == file_score(r.findings.deep_view()),
    {
        let mut findings: Vec<Finding> = Vec::new();
        let mut total_score: u32 = 0;
        let ghost cs = comments.deep_view();
        let ghost rules = self.rules();
        let mut i: usize = 0;
        assert(cs.take(0) =~= Seq::<CommentSpec>::empty());
        assert(findings.deep_view() =~= Seq::<FindingSpec>::empty());
        while i < comments.len()
            invariant
                i <= comments.len(),
                cs == comments.deep_view(),
                rules == self.registry.deep_view(),
                findings.deep_view() == findings_of_comments(path@, cs.take(i as int), rules),
                total_score == file_score(findings.deep_view()),
            decreases comments.len() - i,
        {
            let comment = &comments[i];
            let ghost before = findings.deep_view();
            proof {
                assert(cs.take(i + 1).drop_last() =~= cs.take(i as int));
                assert(cs.take(i + 1).last() == comment.deep_view());
                assert(rules.take(0) =~= Seq::<CompiledSpec>::empty());
                assert(before + Seq::<FindingSpec>::empty() =~= before);
            }
            let mut k: usize = 0;
            while k < self.registry.patterns.len()
                invariant
                    k <= self.registry.patterns.len(),
                    rules == self.registry.deep_view(),
                    findings.deep_view() == before + comment_hits(
                        path@,
                        comment.deep_view(),
                        rules.take(k as int),
                    ),
                    total_score == file_score(findings.deep_view()),
                decreases self.registry.patterns.len() - k,
            {
                let pattern = &self.registry.patterns[k];
                let ghost sofar = findings.deep_view();
                let ghost hits = comment_hits(path@, comment.deep_view(), rules.take(k as int));
                proof {
                    assert(rules.take(k + 1).drop_last() =~= rules.take(k as int));
                    assert(rules.take(k + 1).last() == pattern.deep_view());
                    assert(before + (hits + Seq::<FindingSpec>::empty()) =~= sofar);
                }
                if pattern.pattern.ast_query.is_none() {
                    match &pattern.compiled {
                        Some(regex) => {
                            match find(regex, comment.content.as_str()) {
                                Some(mat) => {
                                    let finding = finding_from_match(
                                        path,
                                        comment,
                                        &pattern.pattern,
                                        mat,
                                    );
                                    proof {
                                        lemma_score_sum_push(sofar, finding.deep_view());
                                        lemma_capped_add(
                                            score_sum(sofar),
                                            finding.severity.weight(),
                                        );
                                    }
                                    total_score = total_score.saturating_add(
                                        finding.severity.score(),
                                    );
                                    findings.push(finding);
                                    proof {
                                        assert(findings.deep_view() =~= sofar.push(
                                            finding.deep_view(),
                                        ));
                                        assert(sofar.push(finding.deep_view()) =~= before + (hits
                                            + seq![finding.deep_view()]));
                                    }
                                },
                                None => {},
                            }
                        },
                        None => {},
                    }
                }
                k += 1;
            }
            proof {
                assert(rules.take(k as int) =~= rules);
            }
            i += 1;
        }
        proof {
            assert(cs.take(i as int) =~= cs);
        }
        FileScanResult { path: path.to_owned(), findings, score: total_score }
    }
}

} // verus!
