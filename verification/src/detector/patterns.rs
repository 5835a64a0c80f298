//! Pattern registry for slop detection.

use vstd::prelude::*;
use crate::config::{Pattern, PatternSpec, Severity};
use crate::rx::{compile, compiles, regex_compile};
use crate::{Error, ErrorSpec};

verus! {

/// What a [`CompiledPattern`] holds: the rule as plain values, and its matcher.
pub struct CompiledSpec {
    pub pattern: PatternSpec,
    pub compiled: Option<regex::Regex>,
}

/// A compiled pattern ready for matching.
pub struct CompiledPattern {
    /// The pattern as it was defined.
    pub pattern: Pattern,
    /// Compiled regex for matching.
    pub compiled: Option<regex::Regex>,
}

impl DeepView for CompiledPattern {
    type V = CompiledSpec;

    open spec fn deep_view(&self) -> CompiledSpec {
        CompiledSpec { pattern: self.pattern.deep_view(), compiled: self.compiled }
    }
}

impl CompiledSpec {
    /// The matcher is the compilation of the rule's own regex text.
    pub open spec fn wf(self) -> bool {
        self.compiled is Some && regex_compile(self.pattern.regex) == Ok::<
            regex::Regex,
            Seq<char>,
        >(self.compiled->0)
    }
}

/// The compiled form of one rule whose regex compiles.
pub open spec fn compiled_rule(p: PatternSpec) -> CompiledSpec {
    CompiledSpec { pattern: p, compiled: Some(regex_compile(p.regex)->Ok_0) }
}

/// The compiled forms of rules whose regexes all compile.
pub open spec fn compiled_rules(ps: Seq<PatternSpec>) -> Seq<CompiledSpec> {
    Seq::new(ps.len(), |i: int| compiled_rule(ps[i]))
}

/// Whether the rule at `i` is the first whose regex does not compile.
pub open spec fn first_invalid(ps: Seq<PatternSpec>, i: int) -> bool {
    &&& 0 <= i < ps.len()
    &&& !compiles(ps[i].regex)
    &&& forall|j: int| 0 <= j < i ==> compiles(#[trigger] ps[j].regex)
}

/// Whether every rule's regex compiles.
pub open spec fn all_compile(ps: Seq<PatternSpec>) -> bool {
    forall|j: int| 0 <= j < ps.len() ==> compiles(#[trigger] ps[j].regex)
}

/// Registry of slop detection patterns.
pub struct PatternRegistry {
    /// All registered patterns.
    pub patterns: Vec<CompiledPattern>,
}

impl DeepView for PatternRegistry {
    type V = Seq<CompiledSpec>;

    open spec fn deep_view(&self) -> Seq<CompiledSpec> {
        self.patterns.deep_view()
    }
}

impl PatternRegistry {
    /// Every registered rule carries the matcher compiled from its regex.
    pub open spec fn wf(&self) -> bool {
        forall|i: int| 0 <= i < self.deep_view().len() ==> (#[trigger] self.deep_view()[i]).wf()
    }

    /// Create a new registry from pattern definitions.
    ///
    /// Succeeds exactly when every regex compiles; the registry then holds the
    /// rules in their order, each with its matcher.  Otherwise the error names
    /// the first regex that does not compile, with the compiler's words.
    pub fn new(patterns: Vec<Pattern>) -> (r: Result<Self, Error>)
        ensures
            r is Ok <==> all_compile(patterns.deep_view()),
            r matches Ok(reg) ==> reg.wf() && reg.deep_view() == compiled_rules(
                patterns.deep_view(),
            ),
            r matches Err(e) ==> exists|i: int| #[trigger]
                first_invalid(patterns.deep_view(), i) && e.deep_view() == ErrorSpec::Regex(
                    patterns.deep_view()[i].regex,
                    regex_compile(patterns.deep_view()[i].regex)->Err_0,
                ),
    {
        let ghost ps = patterns.deep_view();
        let mut out: Vec<CompiledPattern> = Vec::new();
        let mut i: usize = 0;
        let n = patterns.len();
        while i < n
            invariant
                i <= n,
                n == patterns.len(),
                patterns.deep_view() == ps,
                out.len() == i,
                forall|j: int| 0 <= j < i ==> compiles(#[trigger] ps[j].regex),
                forall|j: int|
                    0 <= j < i ==> (#[trigger] out[j]).deep_view() == compiled_rule(ps[j]),
            decreases n - i,
        {
            assert(ps[i as int] == patterns[i as int].deep_view());
            let p = patterns[i].clone();
            match compile(p.regex.as_str()) {
                Ok(re) => {
                    out.push(CompiledPattern { pattern: p, compiled: Some(re) });
                },
                Err(msg) => {
                    let err = Error::Regex(p.regex.clone(), msg);
                    assert(first_invalid(ps, i as int));
                    return Err(err);
                },
            }
            i += 1;
        }
        let reg = PatternRegistry { patterns: out };
        assert(reg.deep_view() =~= compiled_rules(ps));
        Ok(reg)
    }

    /// Get all patterns.
    pub fn all(&self) -> (out: &[CompiledPattern])
        ensures
            out@ == self.patterns@,
    {
        self.patterns.as_slice()
    }

    /// Get patterns by severity.
    pub fn by_severity(&self, severity: Severity) -> (out: Vec<&CompiledPattern>)
        ensures
            out@.map_values(|p: &CompiledPattern| *p) == self.patterns@.filter(
                |p: CompiledPattern| p.pattern.severity == severity,
            ),
    {
        let mut out: Vec<&CompiledPattern> = Vec::new();
        let ghost keep = |p: CompiledPattern| p.pattern.severity == severity;
        let ghost deref = |p: &CompiledPattern| *p;
        let mut i: usize = 0;
        assert(self.patterns@.take(0).filter(keep) =~= Seq::<CompiledPattern>::empty()) by {
            reveal(Seq::filter);
        }
        assert(out@.map_values(deref) =~= Seq::<CompiledPattern>::empty());
        while i < self.patterns.len()
            invariant
                i <= self.patterns.len(),
                keep == |p: CompiledPattern| p.pattern.severity == severity,
                deref == |p: &CompiledPattern| *p,
                out@.map_values(deref) == self.patterns@.take(i as int).filter(keep),
            decreases self.patterns.len() - i,
        {
            let ghost before = out@.map_values(deref);
            proof {
                crate::config::lemma_filter_step(self.patterns@, i as int, keep);
            }
            if self.patterns[i].pattern.severity == severity {
                out.push(&self.patterns[i]);
                assert(out@.map_values(deref) =~= before.push(self.patterns@[i as int]));
            }
            i += 1;
        }
        assert(self.patterns@.take(i as int) =~= self.patterns@);
        out
    }

    /// The rules that are, or are not, matched against the syntax tree: those
    /// with a structural query where `structural` is set, else those without.
    fn partition(&self, structural: bool) -> (out: Vec<&CompiledPattern>)
        ensures
            out@.map_values(|p: &CompiledPattern| *p) == self.patterns@.filter(
                |p: CompiledPattern| p.pattern.ast_query.is_some() == structural,
            ),
    {
        let mut out: Vec<&CompiledPattern> = Vec::new();
        let ghost keep = |p: CompiledPattern| p.pattern.ast_query.is_some() == structural;
        let ghost deref = |p: &CompiledPattern| *p;
        let mut i: usize = 0;
        assert(self.patterns@.take(0).filter(keep) =~= Seq::<CompiledPattern>::empty()) by {
            reveal(Seq::filter);
        }
        assert(out@.map_values(deref) =~= Seq::<CompiledPattern>::empty());
        while i < self.patterns.len()
            invariant
                i <= self.patterns.len(),
                keep == |p: CompiledPattern| p.pattern.ast_query.is_some() == structural,
                deref == |p: &CompiledPattern| *p,
                out@.map_values(deref) == self.patterns@.take(i as int).filter(keep),
            decreases self.patterns.len() - i,
        {
            let ghost before = out@.map_values(deref);
            proof {
                crate::config::lemma_filter_step(self.patterns@, i as int, keep);
            }
            if self.patterns[i].pattern.ast_query.is_some() == structural {
                out.push(&self.patterns[i]);
                assert(out@.map_values(deref) =~= before.push(self.patterns@[i as int]));
            }
            i += 1;
        }
        assert(self.patterns@.take(i as int) =~= self.patterns@);
        out
    }

    /// The rules that are matched against comments: those without a
    /// structural query, in their order.
    pub fn comment_rules(&self) -> (out: Vec<&CompiledPattern>)
        ensures
            out@.map_values(|p: &CompiledPattern| *p) == self.patterns@.filter(
                |p: CompiledPattern| p.pattern.ast_query.is_some() == false,
            ),
    {
        self.partition(false)
    }

    /// The rules that are matched against the syntax tree: those with a
    /// structural query, in their order.
    pub fn structural_rules(&self) -> (out: Vec<&CompiledPattern>)
        ensures
            out@.map_values(|p: &CompiledPattern| *p) == self.patterns@.filter(
                |p: CompiledPattern| p.pattern.ast_query.is_some() == true,
            ),
    {
        self.partition(true)
    }
}

} // verus!
