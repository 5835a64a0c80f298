//! Community profiles for antislop.
//!
//! Profiles are shareable collections of slop detection patterns.  Reading
//! them from files or from the network is the caller's work; what a profile
//! is, how two are merged, where one is looked for and in which order
//! inherited profiles are resolved is decided here.

use vstd::prelude::*;
use crate::config::{in_category, select_category, Pattern, PatternCategory, PatternSpec};
use crate::text::{
    alphanumeric, clone_opt_string, clone_strings, has_prefix, join_path, joined_path, starts_with,
    to_chars,
};
use crate::{Error, ErrorSpec};

pub mod load;
pub mod validate;

verus! {

/// What a [`ProfileMetadata`] holds, as plain values.
pub struct MetadataSpec {
    pub name: Seq<char>,
    pub version: Seq<char>,
    pub description: Seq<char>,
    pub author: Seq<char>,
    pub url: Option<Seq<char>>,
    pub requires_version: Option<Seq<char>>,
    pub extends: Seq<Seq<char>>,
}

/// Profile metadata.
#[derive(Debug)]
pub struct ProfileMetadata {
    /// Profile identifier.
    pub name: String,
    /// Semantic version.
    pub version: String,
    /// Human-readable description.
    pub description: String,
    /// Author or organization.
    pub author: String,
    /// URL to the profile repository.
    pub url: Option<String>,
    /// Minimum antislop version required.
    pub requires_version: Option<String>,
    /// Profiles this profile extends (inherits patterns from).
    pub extends: Vec<String>,
}

impl DeepView for ProfileMetadata {
    type V = MetadataSpec;

    open spec fn deep_view(&self) -> MetadataSpec {
        MetadataSpec {
            name: self.name@,
            version: self.version@,
            description: self.description@,
            author: self.author@,
            url: self.url.deep_view(),
            requires_version: self.requires_version.deep_view(),
            extends: self.extends.deep_view(),
        }
    }
}

/// The metadata of a profile of which only the name is known.
pub open spec fn metadata_named(name: Seq<char>) -> MetadataSpec {
    MetadataSpec {
        name,
        version: "0.1.0"@,
        description: Seq::empty(),
        author: Seq::empty(),
        url: None,
        requires_version: None,
        extends: Seq::empty(),
    }
}

impl Default for ProfileMetadata {
    fn default() -> (m: Self)
        ensures
            m.deep_view() == metadata_named(Seq::empty()),
    {
        let m = ProfileMetadata {
            name: String::new(),
            version: "0.1.0".to_owned(),
            description: String::new(),
            author: String::new(),
            url: None,
            requires_version: None,
            extends: Vec::new(),
        };
        assert(m.extends.deep_view() =~= Seq::<Seq<char>>::empty());
        m
    }
}

impl Clone for ProfileMetadata {
    fn clone(&self) -> (r: Self)
        ensures
            r.deep_view() == self.deep_view(),
    {
        ProfileMetadata {
            name: self.name.clone(),
            version: self.version.clone(),
            description: self.description.clone(),
            author: self.author.clone(),
            url: clone_opt_string(&self.url),
            requires_version: clone_opt_string(&self.requires_version),
            extends: clone_strings(&self.extends),
        }
    }
}

/// What a [`Profile`] holds, as plain values.
pub struct ProfileSpec {
    pub metadata: MetadataSpec,
    pub patterns: Seq<PatternSpec>,
}

/// A community profile containing slop detection patterns.
#[derive(Debug)]
pub struct Profile {
    /// Profile metadata.
    pub metadata: ProfileMetadata,
    /// Detection patterns.
    pub patterns: Vec<Pattern>,
}

impl DeepView for Profile {
    type V = ProfileSpec;

    open spec fn deep_view(&self) -> ProfileSpec {
        ProfileSpec { metadata: self.metadata.deep_view(), patterns: self.patterns.deep_view() }
    }
}

/// Copies the rules of `patterns`, in order.
pub fn clone_patterns(patterns: &Vec<Pattern>) -> (out: Vec<Pattern>)
    ensures
        out.deep_view() == patterns.deep_view(),
{
    let mut out: Vec<Pattern> = Vec::new();
    let mut i: usize = 0;
    while i < patterns.len()
        invariant
            i <= patterns.len(),
            out.len() == i,
            forall|j: int| 0 <= j < i ==> out[j].deep_view() == patterns[j].deep_view(),
        decreases patterns.len() - i,
    {
        out.push(patterns[i].clone());
        i += 1;
    }
    assert(out.deep_view() =~= patterns.deep_view());
    out
}

impl Clone for Profile {
    fn clone(&self) -> (r: Self)
        ensures
            r.deep_view() == self.deep_view(),
    {
        Profile { metadata: self.metadata.clone(), patterns: clone_patterns(&self.patterns) }
    }
}

/// What tells two rules of a profile apart: the regex text and the category.
pub open spec fn key_of(p: PatternSpec) -> (Seq<char>, PatternCategory) {
    (p.regex, p.category)
}

/// Whether some rule of `ps` has the key `key`.
pub open spec fn has_key(ps: Seq<PatternSpec>, key: (Seq<char>, PatternCategory)) -> bool {
    exists|i: int| 0 <= i < ps.len() && key_of(#[trigger] ps[i]) == key
}

/// The rules of `ps` without those whose key comes again later: of several
/// rules with one key the last stays, and the order is kept.
pub open spec fn keep_last(ps: Seq<PatternSpec>) -> Seq<PatternSpec>
    decreases ps.len(),
{
    if ps.len() == 0 {
        Seq::empty()
    } else if has_key(ps.drop_first(), key_of(ps[0])) {
        keep_last(ps.drop_first())
    } else {
        seq![ps[0]] + keep_last(ps.drop_first())
    }
}

/// `acc` with those rules of `others` appended whose key is not yet there.
pub open spec fn add_new(acc: Seq<PatternSpec>, others: Seq<PatternSpec>) -> Seq<PatternSpec>
    decreases others.len(),
{
    if others.len() == 0 {
        acc
    } else {
        let a = add_new(acc, others.drop_last());
        if has_key(a, key_of(others.last())) {
            a
        } else {
            a.push(others.last())
        }
    }
}

/// The rules of a profile after another was merged into it: its own rules,
/// each key once, then the other's rules with keys that it did not have.
pub open spec fn merged(own: Seq<PatternSpec>, other: Seq<PatternSpec>) -> Seq<PatternSpec> {
    add_new(keep_last(own), other)
}

/// Whether two rules have the same key.
fn same_key(a: &Pattern, b: &Pattern) -> (r: bool)
    ensures
        r == (key_of(a.deep_view()) == key_of(b.deep_view())),
{
    a.regex == b.regex && a.category == b.category
}

/// Whether a rule of `ps[from..]` has the key of `p`.
fn has_key_from(ps: &Vec<Pattern>, from: usize, p: &Pattern) -> (r: bool)
    requires
        from <= ps.len(),
    ensures
        r == has_key(ps.deep_view().skip(from as int), key_of(p.deep_view())),
{
    let ghost tail = ps.deep_view().skip(from as int);
    let mut i: usize = from;
    while i < ps.len()
        invariant
            from <= i <= ps.len(),
            tail == ps.deep_view().skip(from as int),
            forall|j: int|
                0 <= j < i - from ==> key_of(#[trigger] tail[j]) != key_of(p.deep_view()),
        decreases ps.len() - i,
    {
        assert(tail[i - from] == ps[i as int].deep_view());
        if same_key(&ps[i], p) {
            return true;
        }
        i += 1;
    }
    false
}

impl Profile {
    /// Create a new empty profile.
    pub fn new(name: String) -> (p: Self)
        ensures
            p.deep_view() == (ProfileSpec {
                metadata: metadata_named(name@),
                patterns: Seq::empty(),
            }),
    {
        let mut metadata = ProfileMetadata::default();
        metadata.name = name;
        let p = Profile { metadata, patterns: Vec::new() };
        assert(p.patterns.deep_view() =~= Seq::<PatternSpec>::empty());
        p
    }

    /// Merge another profile's patterns into this one.
    ///
    /// Of this profile's own patterns with one regex and category the last
    /// stays.  The other profile's patterns follow, but for those whose regex
    /// and category this profile has already: this profile's pattern takes
    /// precedence.  The metadata stay as they are.
    pub fn merge_with(&mut self, other: &Profile)
        ensures
            final(self).patterns.deep_view() == merged(
                old(self).patterns.deep_view(),
                other.patterns.deep_view(),
            ),
            final(self).metadata.deep_view() == old(self).metadata.deep_view(),
    {
        let ghost own = self.patterns.deep_view();
        let ghost others = other.patterns.deep_view();
        let mut out: Vec<Pattern> = Vec::new();
        let mut i: usize = 0;
        assert(own.skip(0) =~= own);
        assert(out.deep_view() + keep_last(own) =~= keep_last(own));
        while i < self.patterns.len()
            invariant
                i <= self.patterns.len(),
                own == self.patterns.deep_view(),
                self.metadata.deep_view() == old(self).metadata.deep_view(),
                keep_last(own) == out.deep_view() + keep_last(own.skip(i as int)),
            decreases self.patterns.len() - i,
        {
            let ghost before = out.deep_view();
            let ghost tail = own.skip(i as int);
            proof {
                assert(tail.drop_first() =~= own.skip(i + 1));
                assert(tail[0] == self.patterns[i as int].deep_view());
            }
            if !has_key_from(&self.patterns, i + 1, &self.patterns[i]) {
                out.push(self.patterns[i].clone());
                proof {
                    assert(out.deep_view() =~= before.push(tail[0]));
                    assert(before + (seq![tail[0]] + keep_last(own.skip(i + 1))) =~= before.push(
                        tail[0],
                    ) + keep_last(own.skip(i + 1)));
                }
            }
            i += 1;
        }
        proof {
            assert(out.deep_view() + Seq::<PatternSpec>::empty() =~= out.deep_view());
        }
        let mut k: usize = 0;
        assert(others.take(0) =~= Seq::<PatternSpec>::empty());
        while k < other.patterns.len()
            invariant
                k <= other.patterns.len(),
                others == other.patterns.deep_view(),
                self.metadata.deep_view() == old(self).metadata.deep_view(),
                out.deep_view() == add_new(keep_last(own), others.take(k as int)),
            decreases other.patterns.len() - k,
        {
            let ghost before = out.deep_view();
            proof {
                assert(others.take(k + 1).drop_last() =~= others.take(k as int));
                assert(others.take(k + 1).last() == other.patterns[k as int].deep_view());
                assert(before.skip(0) =~= before);
            }
            if !has_key_from(&out, 0, &other.patterns[k]) {
                out.push(other.patterns[k].clone());
                assert(out.deep_view() =~= before.push(other.patterns[k as int].deep_view()));
            }
            k += 1;
        }
        proof {
            assert(others.take(k as int) =~= others);
        }
        self.patterns = out;
    }

    /// Get all patterns from this profile.
    pub fn patterns(&self) -> (out: &[Pattern])
        ensures
            out@ == self.patterns@,
    {
        self.patterns.as_slice()
    }

    /// Get patterns for a specific category.
    pub fn patterns_for_category(&self, category: &PatternCategory) -> (out: Vec<&Pattern>)
        ensures
            out.deep_view() == in_category(self.deep_view().patterns, *category),
    {
        select_category(&self.patterns, category)
    }
}

/// What a [`ProfileSource`] holds, as plain values.
pub enum SourceSpec {
    Local(Seq<char>),
    Remote(Seq<char>),
    Builtin(Seq<char>),
}

/// Source for loading a profile.
#[derive(Debug)]
pub enum ProfileSource {
    /// Local file path.
    Local(String),
    /// Remote URL (https://).
    Remote(String),
    /// Built-in profile name.
    Builtin(String),
}

impl DeepView for ProfileSource {
    type V = SourceSpec;

    open spec fn deep_view(&self) -> SourceSpec {
        match self {
            ProfileSource::Local(p) => SourceSpec::Local(p@),
            ProfileSource::Remote(u) => SourceSpec::Remote(u@),
            ProfileSource::Builtin(n) => SourceSpec::Builtin(n@),
        }
    }
}

impl Clone for ProfileSource {
    fn clone(&self) -> (r: Self)
        ensures
            r.deep_view() == self.deep_view(),
    {
        match self {
            ProfileSource::Local(p) => ProfileSource::Local(p.clone()),
            ProfileSource::Remote(u) => ProfileSource::Remote(u.clone()),
            ProfileSource::Builtin(n) => ProfileSource::Builtin(n.clone()),
        }
    }
}

/// The source that a text names: a URL where it starts like one, else a
/// local file where there is a file of that name, else a profile's name.
pub open spec fn source_of(input: Seq<char>, exists: bool) -> SourceSpec {
    if starts_with(input, "https://"@) || starts_with(input, "http://"@) {
        SourceSpec::Remote(input)
    } else if exists {
        SourceSpec::Local(input)
    } else {
        SourceSpec::Builtin(input)
    }
}

impl ProfileSource {
    /// Parse a profile source from a string.
    ///
    /// - If it starts with "http://" or "https://", it's a Remote source.
    /// - If it exists as a file, it's a Local source.
    /// - Otherwise, it's a Builtin source (name only).
    ///
    /// Whether it exists as a file the caller says.
    pub fn parse(input: &str, exists: bool) -> (r: Result<Self, Error>)
        ensures
            r matches Ok(source) && source.deep_view() == source_of(input@, exists),
    {
        let cs = to_chars(input);
        let https = to_chars("https://");
        let http = to_chars("http://");
        if has_prefix(&cs, &https) || has_prefix(&cs, &http) {
            return Ok(ProfileSource::Remote(input.to_owned()));
        }
        if exists {
            return Ok(ProfileSource::Local(input.to_owned()));
        }
        Ok(ProfileSource::Builtin(input.to_owned()))
    }
}

/// Where a profile is looked for by name, and what is said where it is not
/// found.
#[derive(Debug)]
pub struct NameSearch {
    /// The files to try, in this order.
    pub candidates: Vec<String>,
    /// The error for the case that none of them exists.
    pub not_found: Error,
}

/// The file name of the profile called `name`.
pub open spec fn profile_file(name: Seq<char>) -> Seq<char> {
    name + ".toml"@
}

/// What is said of a profile that was found in none of three places.
pub open spec fn not_found_text(
    name: Seq<char>,
    project: Seq<char>,
    user: Seq<char>,
    cache: Seq<char>,
) -> Seq<char> {
    "Profile '"@ + name + "' not found. Searched in: "@ + project + ", "@ + user + ", "@ + cache
}

/// Profile loader with support for multiple sources.
#[derive(Debug)]
pub struct ProfileLoader {
    /// Directory for caching remote profiles.
    pub cache_dir: String,
    /// Local project profile directory.
    pub project_dir: String,
    /// User config profile directory.
    pub user_dir: String,
}

impl ProfileLoader {
    /// Create a profile loader with custom directories.
    pub fn with_dirs(cache_dir: String, project_dir: String, user_dir: String) -> (l: Self)
        ensures
            l.cache_dir@ == cache_dir@,
            l.project_dir@ == project_dir@,
            l.user_dir@ == user_dir@,
    {
        ProfileLoader { cache_dir, project_dir, user_dir }
    }

    /// Load a profile by name, searching in multiple locations.
    ///
    /// The search goes to the project's directory first, then to the user's,
    /// then to the cache, each time for the file `<name>.toml`.  This says
    /// where to look and what to answer where nothing is found; the looking
    /// is the caller's.
    pub fn load_by_name(&self, name: &str) -> (search: NameSearch)
        ensures
            search.candidates.deep_view() == seq![
                joined_path(self.project_dir@, profile_file(name@)),
                joined_path(self.user_dir@, profile_file(name@)),
                joined_path(self.cache_dir@, profile_file(name@)),
            ],
            search.not_found.deep_view() == ErrorSpec::ConfigInvalid(
                not_found_text(
                    name@,
                    joined_path(self.project_dir@, profile_file(name@)),
                    joined_path(self.user_dir@, profile_file(name@)),
                    joined_path(self.cache_dir@, profile_file(name@)),
                ),
            ),
    {
        let mut file = name.to_owned();
        file.push_str(".toml");
        let project = join_path(self.project_dir.as_str(), file.as_str());
        let user = join_path(self.user_dir.as_str(), file.as_str());
        let cache = join_path(self.cache_dir.as_str(), file.as_str());
        let mut text = "Profile '".to_owned();
        text.push_str(name);
        text.push_str("' not found. Searched in: ");
        text.push_str(project.as_str());
        text.push_str(", ");
        text.push_str(user.as_str());
        text.push_str(", ");
        text.push_str(cache.as_str());
        let mut candidates: Vec<String> = Vec::new();
        candidates.push(project);
        candidates.push(user);
        candidates.push(cache);
        assert(candidates.deep_view() =~= seq![
            joined_path(self.project_dir@, profile_file(name@)),
            joined_path(self.user_dir@, profile_file(name@)),
            joined_path(self.cache_dir@, profile_file(name@)),
        ]);
        NameSearch { candidates, not_found: Error::ConfigInvalid(text) }
    }
}

/// Information about an available profile.
#[derive(Debug)]
pub struct ProfileInfo {
    /// Profile name.
    pub name: String,
    /// Profile description.
    pub description: String,
    /// Profile version.
    pub version: String,
    /// Source directory.
    pub source: String,
    /// Full path to the profile file.
    pub path: String,
}

impl ProfileInfo {
    /// What is listed of a profile that was read from `path` under `source`.
    pub fn of(profile: &Profile, source: &str, path: &str) -> (info: Self)
        ensures
            info.name@ == profile.metadata.name@,
            info.description@ == profile.metadata.description@,
            info.version@ == profile.metadata.version@,
            info.source@ == source@,
            info.path@ == path@,
    {
        ProfileInfo {
            name: profile.metadata.name.clone(),
            description: profile.metadata.description.clone(),
            version: profile.metadata.version.clone(),
            source: source.to_owned(),
            path: path.to_owned(),
        }
    }
}

/// A name with every character that is neither a letter nor a number
/// replaced by an underscore.
pub open spec fn sanitized(name: Seq<char>) -> Seq<char> {
    Seq::new(
        name.len(),
        |i: int|
            if alphanumeric(name[i]) {
                name[i]
            } else {
                '_'
            },
    )
}

/// Sanitize a name for use in a filename.
pub fn sanitize_name(name: &str) -> (out: String)
    ensures
        out@ == sanitized(name@),
{
    let cs = to_chars(name);
    let mut out = String::new();
    let mut i: usize = 0;
    while i < cs.len()
        invariant
            i <= cs.len(),
            cs@ == name@,
            out@ == sanitized(name@).take(i as int),
        decreases cs.len() - i,
    {
        let c = cs[i];
        if c.is_alphanumeric() {
            out.push(c);
        } else {
            out.push('_');
        }
        assert(sanitized(name@).take(i + 1) =~= sanitized(name@).take(i as int).push(
            sanitized(name@)[i as int],
        ));
        i += 1;
    }
    assert(sanitized(name@).take(i as int) =~= sanitized(name@));
    out
}

} // verus!
