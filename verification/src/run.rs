//! What a run over many files decides once the files are scanned.

use vstd::prelude::*;
use crate::config::{PatternCategory, Severity};
use crate::detector::{
    capped_u32, capped_usize, count_category, count_severity, lemma_capped_add,
    lemma_count_push, lemma_score_sum_push, score_sum, CategoryCounts, FileScanResult,
    FileScanSpec, Finding, FindingSpec, ScanSummary, SeverityCounts,
};
use crate::hygiene::{insert_name, with_name};

verus! {

/// The exit code of a run: 1 where there is any score or a file could not
/// be read, else 0.
pub fn exit_code(total_score: u32, has_errors: bool) -> (code: i32)
    ensures
        code == if total_score > 0 || has_errors {
            1i32
        } else {
            0i32
        },
{
    if total_score > 0 || has_errors {
        1
    } else {
        0
    }
}

/// A count with some more counted in, as far as its type holds it.
pub open spec fn more(count: usize, added: nat) -> usize {
    capped_usize((count + added) as nat)
}

/// A score with some more added, as far as its type holds it.
pub open spec fn more_score(score: u32, added: nat) -> u32 {
    capped_u32((score + added) as nat)
}

/// The names of some names, each once, in the order of their first
/// occurrence.
pub open spec fn distinct(names: Seq<Seq<char>>) -> Seq<Seq<char>>
    decreases names.len(),
{
    if names.len() == 0 {
        Seq::empty()
    } else {
        with_name(distinct(names.drop_last()), names.last())
    }
}

/// The files of some findings.
pub open spec fn files_of(findings: Seq<FindingSpec>) -> Seq<Seq<char>> {
    Seq::new(findings.len(), |i: int| findings[i].file)
}

/// The paths of those results that have findings.
pub open spec fn paths_with_findings(results: Seq<FileScanSpec>) -> Seq<Seq<char>>
    decreases results.len(),
{
    if results.len() == 0 {
        Seq::empty()
    } else if results.last().findings.len() > 0 {
        paths_with_findings(results.drop_last()).push(results.last().path)
    } else {
        paths_with_findings(results.drop_last())
    }
}

/// A summary of scanned files with the findings about file names counted
/// in: more findings, more score, more of their severities and categories.
/// Where there are such findings, the files with findings are counted anew:
/// every file that such a finding names and every scanned file with
/// findings, each once.
pub open spec fn with_filenames(
    summary: ScanSummary,
    results: Seq<FileScanSpec>,
    extra: Seq<FindingSpec>,
) -> ScanSummary {
    ScanSummary {
        files_scanned: summary.files_scanned,
        files_with_findings: if extra.len() == 0 {
            summary.files_with_findings
        } else {
            capped_usize(distinct(files_of(extra) + paths_with_findings(results)).len())
        },
        total_findings: more(summary.total_findings, extra.len()),
        total_score: more_score(summary.total_score, score_sum(extra)),
        by_severity: SeverityCounts {
            low: more(summary.by_severity.low, count_severity(extra, Severity::Low)),
            medium: more(summary.by_severity.medium, count_severity(extra, Severity::Medium)),
            high: more(summary.by_severity.high, count_severity(extra, Severity::High)),
            critical: more(summary.by_severity.critical, count_severity(extra, Severity::Critical)),
        },
        by_category: CategoryCounts {
            placeholder: more(
                summary.by_category.placeholder,
                count_category(extra, PatternCategory::Placeholder),
            ),
            deferral: more(
                summary.by_category.deferral,
                count_category(extra, PatternCategory::Deferral),
            ),
            hedging: more(
                summary.by_category.hedging,
                count_category(extra, PatternCategory::Hedging),
            ),
            stub: more(summary.by_category.stub, count_category(extra, PatternCategory::Stub)),
            naming_convention: more(
                summary.by_category.naming_convention,
                count_category(extra, PatternCategory::NamingConvention),
            ),
        },
    }
}

/// How many distinct files have findings.
fn files_with_issues(results: &[FileScanResult], extra: &Vec<Finding>) -> (n: usize)
    ensures
        n == distinct(
            files_of(extra.deep_view()) + paths_with_findings(results.deep_view()),
        ).len(),
{
    let ghost fs = files_of(extra.deep_view());
    let ghost rs = results.deep_view();
    let mut seen: Vec<String> = Vec::new();
    let mut i: usize = 0;
    assert(fs.take(0) =~= Seq::<Seq<char>>::empty());
    assert(seen.deep_view() =~= Seq::<Seq<char>>::empty());
    while i < extra.len()
        invariant
            i <= extra.len(),
            fs == files_of(extra.deep_view()),
            seen.deep_view() == distinct(fs.take(i as int)),
        decreases extra.len() - i,
    {
        proof {
            assert(fs.take(i + 1).drop_last() =~= fs.take(i as int));
            assert(fs.take(i + 1).last() == extra[i as int].file@);
        }
        insert_name(&mut seen, extra[i].file.as_str());
        i += 1;
    }
    assert(fs.take(i as int) =~= fs);
    let mut k: usize = 0;
    assert(rs.take(0) =~= Seq::<FileScanSpec>::empty());
    assert(fs + paths_with_findings(rs.take(0)) =~= fs);
    while k < results.len()
        invariant
            k <= results.len(),
            rs == results.deep_view(),
            seen.deep_view() == distinct(fs + paths_with_findings(rs.take(k as int))),
        decreases results.len() - k,
    {
        proof {
            assert(rs.take(k + 1).drop_last() =~= rs.take(k as int));
            assert(rs.take(k + 1).last() == results[k as int].deep_view());
            let before = paths_with_findings(rs.take(k as int));
            assert((fs + before.push(results[k as int].path@)).drop_last() =~= fs + before);
        }
        if results[k].findings.len() > 0 {
            insert_name(&mut seen, results[k].path.as_str());
        }
        k += 1;
    }
    assert(rs.take(k as int) =~= rs);
    seen.len()
}

/// Counts the findings about file names into a summary of scanned files.
pub fn summary_with_filenames(
    summary: &ScanSummary,
    results: &[FileScanResult],
    extra: &Vec<Finding>,
) -> (out: ScanSummary)
    ensures
        out == with_filenames(*summary, results.deep_view(), extra.deep_view()),
{
    let ghost es = extra.deep_view();
    let mut total_score = summary.total_score;
    let mut by_severity = summary.by_severity;
    let mut by_category = summary.by_category;
    let mut i: usize = 0;
    assert(es.take(0) =~= Seq::<FindingSpec>::empty());
    while i < extra.len()
        invariant
            i <= extra.len(),
            es == extra.deep_view(),
            total_score == more_score(summary.total_score, score_sum(es.take(i as int))),
            forall|s: Severity|
                by_severity.of(s) == more(
                    summary.by_severity.of(s),
                    count_severity(es.take(i as int), s),
                ),
            forall|c: PatternCategory|
                by_category.of(c) == more(
                    summary.by_category.of(c),
                    count_category(es.take(i as int), c),
                ),
        decreases extra.len() - i,
    {
        let f = &extra[i];
        proof {
            assert(es.take(i + 1) =~= es.take(i as int).push(f.deep_view()));
            lemma_score_sum_push(es.take(i as int), f.deep_view());
            lemma_count_push(es.take(i as int), f.deep_view());
            lemma_capped_add(
                (summary.total_score + score_sum(es.take(i as int))) as nat,
                f.severity.weight(),
            );
        }
        total_score = total_score.saturating_add(f.severity.score());
        by_severity.add(f.severity);
        by_category.add(f.category);
        i += 1;
    }
    assert(es.take(i as int) =~= es);
    let files_with_findings = if extra.len() == 0 {
        summary.files_with_findings
    } else {
        files_with_issues(results, extra)
    };
    let out = ScanSummary {
        files_scanned: summary.files_scanned,
        files_with_findings,
        total_findings: summary.total_findings.saturating_add(extra.len()),
        total_score,
        by_severity,
        by_category,
    };
    proof {
        let want = with_filenames(*summary, results.deep_view(), es);
        assert(out.by_severity.of(Severity::Low) == want.by_severity.of(Severity::Low));
        assert(out.by_severity.of(Severity::Medium) == want.by_severity.of(Severity::Medium));
        assert(out.by_severity.of(Severity::High) == want.by_severity.of(Severity::High));
        assert(out.by_severity.of(Severity::Critical) == want.by_severity.of(Severity::Critical));
        assert(out.by_category.of(PatternCategory::Placeholder) == want.by_category.of(
            PatternCategory::Placeholder,
        ));
        assert(out.by_category.of(PatternCategory::Deferral) == want.by_category.of(
            PatternCategory::Deferral,
        ));
        assert(out.by_category.of(PatternCategory::Hedging) == want.by_category.of(
            PatternCategory::Hedging,
        ));
        assert(out.by_category.of(PatternCategory::Stub) == want.by_category.of(
            PatternCategory::Stub,
        ));
        assert(out.by_category.of(PatternCategory::NamingConvention) == want.by_category.of(
            PatternCategory::NamingConvention,
        ));
    }
    out
}

/// Whether one text comes before another in the order of strings: at the
/// first character in which they differ the one with the smaller code point
/// comes first, and a text comes before every longer text that starts with
/// it.
pub open spec fn text_before(a: Seq<char>, b: Seq<char>) -> bool
    decreases a.len(),
{
    if b.len() == 0 {
        false
    } else if a.len() == 0 {
        true
    } else if a[0] != b[0] {
        (a[0] as u32) < (b[0] as u32)
    } else {
        text_before(a.drop_first(), b.drop_first())
    }
}

/// Whether one finding comes before another in a report: its file comes
/// first, or in the same file its line does.
pub open spec fn comes_before(f: FindingSpec, g: FindingSpec) -> bool {
    text_before(f.file, g.file) || (f.file == g.file && f.line < g.line)
}

/// Whether no finding comes before one that stands before it.
pub open spec fn in_order(fs: Seq<FindingSpec>) -> bool {
    forall|i: int, j: int|
        0 <= i < j < fs.len() ==> !comes_before(#[trigger] fs[j], #[trigger] fs[i])
}

/// Where a finding goes among findings in order: behind all that do not
/// come after it.
pub open spec fn place_of(fs: Seq<FindingSpec>, f: FindingSpec) -> nat
    decreases fs.len(),
{
    if fs.len() == 0 || comes_before(f, fs[0]) {
        0
    } else {
        1 + place_of(fs.drop_first(), f)
    }
}

/// The findings in the order of file and line.  Findings of one file and
/// line keep the order in which they stood.
pub open spec fn sorted(fs: Seq<FindingSpec>) -> Seq<FindingSpec>
    decreases fs.len(),
{
    if fs.len() == 0 {
        Seq::empty()
    } else {
        let before = sorted(fs.drop_last());
        before.insert(place_of(before, fs.last()) as int, fs.last())
    }
}

/// No text comes before itself, and of two texts one comes before the other
/// unless they are the same.
pub proof fn lemma_text_order_total(a: Seq<char>, b: Seq<char>)
    ensures
        !text_before(a, a),
        a != b ==> (text_before(a, b) || text_before(b, a)),
        !(text_before(a, b) && text_before(b, a)),
    decreases a.len(),
{
    if a.len() > 0 {
        lemma_text_order_total(a.drop_first(), a.drop_first());
    }
    if a.len() > 0 && b.len() > 0 {
        lemma_text_order_total(a.drop_first(), b.drop_first());
        if a[0] == b[0] {
            if a.drop_first() == b.drop_first() {
                assert(a =~= seq![a[0]] + a.drop_first());
                assert(b =~= seq![b[0]] + b.drop_first());
            }
            assert(text_before(a, b) == text_before(a.drop_first(), b.drop_first()));
            assert(text_before(b, a) == text_before(b.drop_first(), a.drop_first()));
        } else {
            vstd::utf8::char_u32_cast(a[0], a[0] as u32);
            vstd::utf8::char_u32_cast(b[0], b[0] as u32);
        }
    } else if a.len() == 0 && b.len() == 0 {
        assert(a =~= b);
    } else if a.len() == 0 {
        assert(text_before(a, b));
    } else {
        assert(text_before(b, a));
    }
}

/// What comes before a text that comes before another comes before that
/// other.
pub proof fn lemma_text_order_transitive(a: Seq<char>, b: Seq<char>, c: Seq<char>)
    requires
        text_before(a, b),
        text_before(b, c),
    ensures
        text_before(a, c),
    decreases a.len(),
{
    if a.len() > 0 && a[0] == b[0] && b[0] == c[0] {
        lemma_text_order_transitive(a.drop_first(), b.drop_first(), c.drop_first());
    }
}

/// What comes before a finding that comes before another comes before that
/// other.
pub proof fn lemma_order_transitive(f: FindingSpec, g: FindingSpec, h: FindingSpec)
    requires
        comes_before(f, g),
        comes_before(g, h),
    ensures
        comes_before(f, h),
{
    if text_before(f.file, g.file) && text_before(g.file, h.file) {
        lemma_text_order_transitive(f.file, g.file, h.file);
    }
}

/// Where a finding goes: none before that place comes after it, and the one
/// at that place does.
pub proof fn lemma_place_props(fs: Seq<FindingSpec>, f: FindingSpec)
    ensures
        place_of(fs, f) <= fs.len(),
        forall|j: int| 0 <= j < place_of(fs, f) ==> !comes_before(f, #[trigger] fs[j]),
        place_of(fs, f) < fs.len() ==> comes_before(f, fs[place_of(fs, f) as int]),
    decreases fs.len(),
{
    if fs.len() > 0 && !comes_before(f, fs[0]) {
        let t = fs.drop_first();
        lemma_place_props(t, f);
        let p = place_of(fs, f);
        assert forall|j: int| 0 <= j < p implies !comes_before(f, #[trigger] fs[j]) by {
            if j > 0 {
                assert(fs[j] == t[j - 1]);
            }
        }
        if place_of(fs, f) < fs.len() {
            assert(fs[place_of(fs, f) as int] == t[place_of(t, f) as int]);
        }
    }
}

/// The place of a finding is the first place whose finding comes after it.
pub proof fn lemma_place_is(fs: Seq<FindingSpec>, f: FindingSpec, p: int)
    requires
        0 <= p <= fs.len(),
        forall|j: int| 0 <= j < p ==> !comes_before(f, #[trigger] fs[j]),
        p == fs.len() || comes_before(f, fs[p]),
    ensures
        place_of(fs, f) == p,
    decreases p,
{
    if p > 0 {
        let t = fs.drop_first();
        assert forall|j: int| 0 <= j < p - 1 implies !comes_before(f, #[trigger] t[j]) by {
            assert(t[j] == fs[j + 1]);
        }
        assert(!comes_before(f, fs[0]));
        lemma_place_is(t, f, p - 1);
    }
}

/// Putting a finding in its place among findings in order leaves them in
/// order.
pub proof fn lemma_insert_keeps_order(fs: Seq<FindingSpec>, f: FindingSpec)
    requires
        in_order(fs),
    ensures
        in_order(fs.insert(place_of(fs, f) as int, f)),
{
    let p = place_of(fs, f) as int;
    let out = fs.insert(p, f);
    lemma_place_props(fs, f);
    assert forall|i: int, j: int| 0 <= i < j < out.len() implies !comes_before(
        #[trigger] out[j],
        #[trigger] out[i],
    ) by {
        if j < p {
            assert(out[i] == fs[i] && out[j] == fs[j]);
        } else if j == p {
            assert(out[i] == fs[i] && out[j] == f);
        } else if i < p {
            assert(out[i] == fs[i] && out[j] == fs[j - 1]);
        } else if i == p {
            assert(out[i] == f && out[j] == fs[j - 1]);
            if j - 1 > p {
                // fs[j - 1] does not come before fs[p], which comes after f.
                lemma_text_order_total(f.file, fs[p].file);
                lemma_text_order_total(fs[j - 1].file, f.file);
                if comes_before(fs[j - 1], f) {
                    lemma_order_transitive(fs[j - 1], f, fs[p]);
                }
            } else {
                lemma_text_order_total(f.file, fs[p].file);
            }
        } else {
            assert(out[i] == fs[i - 1] && out[j] == fs[j - 1]);
        }
    }
}

/// Sorting puts the findings in order: none comes before one that stands
/// before it.
pub proof fn law_sorted_is_in_order(fs: Seq<FindingSpec>)
    ensures
        in_order(sorted(fs)),
        sorted(fs).len() == fs.len(),
    decreases fs.len(),
{
    if fs.len() > 0 {
        law_sorted_is_in_order(fs.drop_last());
        lemma_place_props(sorted(fs.drop_last()), fs.last());
        lemma_insert_keeps_order(sorted(fs.drop_last()), fs.last());
    }
}

/// Sorting neither loses a finding nor makes one: every finding is there as
/// often as before.
pub proof fn law_sorted_is_a_rearrangement(fs: Seq<FindingSpec>)
    ensures
        sorted(fs).to_multiset() == fs.to_multiset(),
    decreases fs.len(),
{
    broadcast use vstd::seq_lib::group_to_multiset_ensures;

    if fs.len() > 0 {
        let head = fs.drop_last();
        let before = sorted(head);
        law_sorted_is_a_rearrangement(head);
        lemma_place_props(before, fs.last());
        let p = place_of(before, fs.last()) as int;
        vstd::seq_lib::to_multiset_insert(before, p, fs.last());
        assert(fs =~= head.push(fs.last()));
        assert(head.push(fs.last()).to_multiset() =~= head.to_multiset().insert(fs.last()));
    } else {
        assert(sorted(fs) =~= fs);
    }
}

/// Whether one text comes before another in the order of strings.
fn comes_first(a: &str, b: &str) -> (r: bool)
    ensures
        r == text_before(a@, b@),
{
    let x = crate::text::to_chars(a);
    let y = crate::text::to_chars(b);
    let mut i: usize = 0;
    assert(x@.skip(0) =~= x@);
    assert(y@.skip(0) =~= y@);
    loop
        invariant
            i <= x.len(),
            i <= y.len(),
            x@ == a@,
            y@ == b@,
            text_before(a@, b@) == text_before(x@.skip(i as int), y@.skip(i as int)),
        decreases x.len() - i,
    {
        if i == y.len() {
            return false;
        }
        if i == x.len() {
            return true;
        }
        proof {
            assert(x@.skip(i as int)[0] == x[i as int]);
            assert(y@.skip(i as int)[0] == y[i as int]);
            assert(x@.skip(i as int).drop_first() =~= x@.skip(i + 1));
            assert(y@.skip(i as int).drop_first() =~= y@.skip(i + 1));
        }
        if x[i] != y[i] {
            return (x[i] as u32) < (y[i] as u32);
        }
        i += 1;
    }
}

/// Whether one finding comes before another in a report.
fn reported_before(f: &Finding, g: &Finding) -> (r: bool)
    ensures
        r == comes_before(f.deep_view(), g.deep_view()),
{
    comes_first(f.file.as_str(), g.file.as_str()) || (f.file == g.file && f.line < g.line)
}

/// Sorts findings by file and line.  Findings of one file and line keep
/// their order.
pub fn sort_findings(findings: Vec<Finding>) -> (out: Vec<Finding>)
    ensures
        out.deep_view() == sorted(findings.deep_view()),
        in_order(out.deep_view()),
        out.deep_view().to_multiset() == findings.deep_view().to_multiset(),
{
    let ghost all = findings.deep_view();
    let mut out: Vec<Finding> = Vec::new();
    let mut i: usize = 0;
    assert(all.take(0) =~= Seq::<FindingSpec>::empty());
    assert(out.deep_view() =~= Seq::<FindingSpec>::empty());
    while i < findings.len()
        invariant
            i <= findings.len(),
            all == findings.deep_view(),
            out.deep_view() == sorted(all.take(i as int)),
        decreases findings.len() - i,
    {
        let f = findings[i].clone();
        let ghost before = out.deep_view();
        proof {
            assert(all.take(i + 1).drop_last() =~= all.take(i as int));
            assert(all.take(i + 1).last() == f.deep_view());
        }
        let mut p: usize = 0;
        while p < out.len() && !reported_before(&f, &out[p])
            invariant
                p <= out.len(),
                before == out.deep_view(),
                forall|j: int| 0 <= j < p ==> !comes_before(f.deep_view(), #[trigger] before[j]),
            decreases out.len() - p,
        {
            assert(before[p as int] == out[p as int].deep_view());
            p += 1;
        }
        proof {
            if p < out.len() {
                assert(before[p as int] == out[p as int].deep_view());
            }
            lemma_place_is(before, f.deep_view(), p as int);
        }
        out.insert(p, f);
        assert(out.deep_view() =~= before.insert(p as int, f.deep_view()));
        i += 1;
    }
    proof {
        assert(all.take(i as int) =~= all);
        law_sorted_is_in_order(all);
        law_sorted_is_a_rearrangement(all);
    }
    out
}

} // verus!
