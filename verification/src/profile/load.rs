//! Resolution of the profiles that a profile extends.
//!
//! Loading a profile means loading, depth first, the profiles that it
//! extends, and merging each of them into it.  A profile whose name was met
//! before is a cycle and is refused.  An extended profile that cannot be
//! loaded is passed over; only the failure of the first profile fails the
//! load.
//!
//! Fetching a profile and asking whether a file exists are the caller's
//! work.  The loader says what to do next, the caller does it and reports
//! back, until the loader is done.

use vstd::prelude::*;
use crate::profile::{
    merged, source_of, MetadataSpec, Profile, ProfileLoader, ProfileSource, ProfileSpec,
    SourceSpec,
};
use crate::text::{clone_strings, contains_string, has_string};
use crate::{Error, ErrorSpec};

verus! {

/// What a [`LoadFrame`] holds, as plain values.
pub struct FrameSpec {
    pub profile: ProfileSpec,
    pub pending: Seq<Seq<char>>,
    pub next: nat,
}

/// A profile that is being completed: the extended profiles named in
/// `pending[next..]` are still to be merged into it.
#[derive(Debug)]
pub struct LoadFrame {
    pub profile: Profile,
    pub pending: Vec<String>,
    pub next: usize,
}

impl DeepView for LoadFrame {
    type V = FrameSpec;

    open spec fn deep_view(&self) -> FrameSpec {
        FrameSpec {
            profile: self.profile.deep_view(),
            pending: self.pending.deep_view(),
            next: self.next as nat,
        }
    }
}

/// What an [`Awaiting`] holds, as plain values.
pub enum AwaitingSpec {
    Fetch,
    Probe(Seq<char>),
    Nothing,
}

/// What the loader waits for.
#[derive(Debug)]
pub enum Awaiting {
    /// The profile that was asked for, or the reason why there is none.
    Fetch,
    /// Whether a file of this name exists.
    Probe(String),
    /// Nothing: the load is over.
    Nothing,
}

impl DeepView for Awaiting {
    type V = AwaitingSpec;

    open spec fn deep_view(&self) -> AwaitingSpec {
        match self {
            Awaiting::Fetch => AwaitingSpec::Fetch,
            Awaiting::Probe(name) => AwaitingSpec::Probe(name@),
            Awaiting::Nothing => AwaitingSpec::Nothing,
        }
    }
}

/// What a [`ProfileLoad`] holds, as plain values.
pub struct LoadSpec {
    pub frames: Seq<FrameSpec>,
    pub visited: Seq<Seq<char>>,
    pub awaiting: AwaitingSpec,
}

/// A load under way: the profiles being completed, innermost last, and the
/// names of the profiles met so far.
#[derive(Debug)]
pub struct ProfileLoad {
    pub frames: Vec<LoadFrame>,
    pub visited: Vec<String>,
    pub awaiting: Awaiting,
}

impl DeepView for ProfileLoad {
    type V = LoadSpec;

    open spec fn deep_view(&self) -> LoadSpec {
        LoadSpec {
            frames: self.frames.deep_view(),
            visited: self.visited.deep_view(),
            awaiting: self.awaiting.deep_view(),
        }
    }
}

/// What a [`LoadEvent`] holds, as plain values.
pub enum EventSpec {
    Fetched(Result<ProfileSpec, ErrorSpec>),
    Probed(bool),
}

/// What the caller reports back.
#[derive(Debug)]
pub enum LoadEvent {
    /// The profile that was fetched, or why it could not be.
    Fetched(Result<Profile, Error>),
    /// Whether the file asked about exists.
    Probed(bool),
}

impl DeepView for LoadEvent {
    type V = EventSpec;

    open spec fn deep_view(&self) -> EventSpec {
        match self {
            LoadEvent::Fetched(Ok(p)) => EventSpec::Fetched(Ok(p.deep_view())),
            LoadEvent::Fetched(Err(e)) => EventSpec::Fetched(Err(e.deep_view())),
            LoadEvent::Probed(exists) => EventSpec::Probed(*exists),
        }
    }
}

/// What a [`LoadAction`] holds, as plain values.
pub enum ActionSpec {
    Fetch(SourceSpec),
    Probe(Seq<char>),
    Done(Result<ProfileSpec, ErrorSpec>),
}

/// What the caller is to do next.
#[derive(Debug)]
pub enum LoadAction {
    /// Fetch the profile from this source, and report it.
    Fetch(ProfileSource),
    /// Report whether a file of this name exists.
    Probe(String),
    /// Nothing more: this is the outcome of the load.
    Done(Result<Profile, Error>),
}

impl DeepView for LoadAction {
    type V = ActionSpec;

    open spec fn deep_view(&self) -> ActionSpec {
        match self {
            LoadAction::Fetch(source) => ActionSpec::Fetch(source.deep_view()),
            LoadAction::Probe(name) => ActionSpec::Probe(name@),
            LoadAction::Done(Ok(p)) => ActionSpec::Done(Ok(p.deep_view())),
            LoadAction::Done(Err(e)) => ActionSpec::Done(Err(e.deep_view())),
        }
    }
}

/// A load that is over.
pub open spec fn finished(visited: Seq<Seq<char>>) -> LoadSpec {
    LoadSpec { frames: Seq::empty(), visited, awaiting: AwaitingSpec::Nothing }
}

/// The error for a report that the loader did not wait for.
pub open spec fn out_of_order() -> ErrorSpec {
    ErrorSpec::ConfigInvalid("Profile loading was driven out of order"@)
}

/// The error for a profile whose name was met before.
pub open spec fn circular(name: Seq<char>) -> ErrorSpec {
    ErrorSpec::ConfigInvalid("Circular extends detected: '"@ + name + "'"@)
}

/// A parent frame after the profile of a completed child frame was merged
/// into it.
pub open spec fn absorb(parent: FrameSpec, child: FrameSpec) -> FrameSpec {
    FrameSpec {
        profile: ProfileSpec {
            metadata: parent.profile.metadata,
            patterns: merged(parent.profile.patterns, child.profile.patterns),
        },
        pending: parent.pending,
        next: parent.next,
    }
}

/// What comes next with these frames.  Where the innermost profile still
/// extends something, that is asked about.  Else the profile is complete:
/// the outermost one is the outcome, any other is merged into the one that
/// extends it, and that one is looked at in turn.
pub open spec fn advance(frames: Seq<FrameSpec>, visited: Seq<Seq<char>>) -> (LoadSpec, ActionSpec)
    decreases frames.len(),
{
    if frames.len() == 0 {
        (finished(visited), ActionSpec::Done(Err(out_of_order())))
    } else {
        let top = frames.last();
        if top.next < top.pending.len() {
            let name = top.pending[top.next as int];
            (
                LoadSpec {
                    frames: frames.drop_last().push(
                        FrameSpec {
                            profile: top.profile,
                            pending: top.pending,
                            next: top.next + 1,
                        },
                    ),
                    visited,
                    awaiting: AwaitingSpec::Probe(name),
                },
                ActionSpec::Probe(name),
            )
        } else if frames.len() == 1 {
            (finished(visited), ActionSpec::Done(Ok(top.profile)))
        } else {
            let parent = frames[frames.len() - 2];
            advance(frames.take(frames.len() - 2).push(absorb(parent, top)), visited)
        }
    }
}

/// The frame that a fetched profile starts: the profile without its list of
/// extended profiles, and that list as what is pending.
pub open spec fn frame_of(p: ProfileSpec) -> FrameSpec {
    FrameSpec {
        profile: ProfileSpec {
            metadata: MetadataSpec {
                name: p.metadata.name,
                version: p.metadata.version,
                description: p.metadata.description,
                author: p.metadata.author,
                url: p.metadata.url,
                requires_version: p.metadata.requires_version,
                extends: Seq::empty(),
            },
            patterns: p.patterns,
        },
        pending: p.metadata.extends,
        next: 0,
    }
}

/// What follows where a profile could not be had: the load fails where it
/// was the first profile, else the profile is passed over.
pub open spec fn after_failure(state: LoadSpec, e: ErrorSpec) -> (LoadSpec, ActionSpec) {
    if state.frames.len() == 0 {
        (finished(state.visited), ActionSpec::Done(Err(e)))
    } else {
        advance(state.frames, state.visited)
    }
}

/// One step of a load: from where it stands and what was reported to where
/// it stands then and what is to be done.
pub open spec fn step_of(state: LoadSpec, event: EventSpec) -> (LoadSpec, ActionSpec) {
    match (state.awaiting, event) {
        (AwaitingSpec::Fetch, EventSpec::Fetched(Err(e))) => after_failure(state, e),
        (AwaitingSpec::Fetch, EventSpec::Fetched(Ok(p))) => {
            if has_string(state.visited, p.metadata.name) {
                after_failure(state, circular(p.metadata.name))
            } else {
                advance(state.frames.push(frame_of(p)), state.visited.push(p.metadata.name))
            }
        },
        (AwaitingSpec::Probe(name), EventSpec::Probed(exists)) => (
            LoadSpec {
                frames: state.frames,
                visited: state.visited,
                awaiting: AwaitingSpec::Fetch,
            },
            ActionSpec::Fetch(source_of(name, exists)),
        ),
        _ => (finished(state.visited), ActionSpec::Done(Err(out_of_order()))),
    }
}

/// A load that is over.
fn finish(visited: Vec<String>) -> (state: ProfileLoad)
    ensures
        state.deep_view() == finished(visited.deep_view()),
{
    let state = ProfileLoad { frames: Vec::new(), visited, awaiting: Awaiting::Nothing };
    assert(state.frames.deep_view() =~= Seq::<FrameSpec>::empty());
    state
}

/// What comes next with these frames.
fn go_on(start: Vec<LoadFrame>, visited: Vec<String>) -> (r: (ProfileLoad, LoadAction))
    ensures
        (r.0.deep_view(), r.1.deep_view()) == advance(start.deep_view(), visited.deep_view()),
{
    let ghost first = start.deep_view();
    let mut frames = start;
    loop
        invariant
            first == start.deep_view(),
            advance(frames.deep_view(), visited.deep_view()) == advance(
                first,
                visited.deep_view(),
            ),
        decreases frames.len(),
    {
        let ghost all = frames.deep_view();
        let mut top = match frames.pop() {
            Some(f) => f,
            None => {
                assert(all.len() == 0);
                let error = Error::ConfigInvalid(
                    "Profile loading was driven out of order".to_owned(),
                );
                return (finish(visited), LoadAction::Done(Err(error)));
            },
        };
        proof {
            assert(all.last() == top.deep_view());
            assert(frames.deep_view() =~= all.drop_last());
        }
        if top.next < top.pending.len() {
            let name = top.pending[top.next].clone();
            let asked = name.clone();
            assert(top.pending.deep_view()[top.next as int] == name@);
            top.next = top.next + 1;
            let ghost below = frames.deep_view();
            frames.push(top);
            assert(frames.deep_view() =~= below.push(top.deep_view()));
            return (
                ProfileLoad { frames, visited, awaiting: Awaiting::Probe(name) },
                LoadAction::Probe(asked),
            );
        }
        let mut parent = match frames.pop() {
            Some(f) => f,
            None => {
                assert(all.len() == 1);
                return (finish(visited), LoadAction::Done(Ok(top.profile)));
            },
        };
        proof {
            assert(all[all.len() - 2] == parent.deep_view());
            assert(frames.deep_view() =~= all.take(all.len() - 2));
        }
        let ghost before = parent.deep_view();
        parent.profile.merge_with(&top.profile);
        assert(parent.deep_view() == absorb(before, top.deep_view()));
        let ghost below = frames.deep_view();
        frames.push(parent);
        assert(frames.deep_view() =~= below.push(parent.deep_view()));
    }
}

/// What follows where a profile could not be had.
fn fail_or_pass(state: ProfileLoad, e: Error) -> (r: (ProfileLoad, LoadAction))
    ensures
        (r.0.deep_view(), r.1.deep_view()) == after_failure(state.deep_view(), e.deep_view()),
{
    if state.frames.len() == 0 {
        (finish(state.visited), LoadAction::Done(Err(e)))
    } else {
        go_on(state.frames, state.visited)
    }
}

impl ProfileLoader {
    /// Load a profile from the given source.
    ///
    /// If the profile has `extends` entries, those profiles are loaded
    /// recursively and their patterns are merged.  This begins the load: the
    /// first thing to do is to fetch the profile from the source.
    pub fn load(&self, source: &ProfileSource) -> (r: (ProfileLoad, LoadAction))
        ensures
            r.0.deep_view() == (LoadSpec {
                frames: Seq::empty(),
                visited: Seq::empty(),
                awaiting: AwaitingSpec::Fetch,
            }),
            r.1.deep_view() == ActionSpec::Fetch(source.deep_view()),
    {
        let state = ProfileLoad {
            frames: Vec::new(),
            visited: Vec::new(),
            awaiting: Awaiting::Fetch,
        };
        assert(state.frames.deep_view() =~= Seq::<FrameSpec>::empty());
        assert(state.visited.deep_view() =~= Seq::<Seq<char>>::empty());
        (state, LoadAction::Fetch(source.clone()))
    }
}

impl ProfileLoad {
    /// Takes the caller's report and says what to do next.
    pub fn step(self, event: LoadEvent) -> (r: (ProfileLoad, LoadAction))
        ensures
            (r.0.deep_view(), r.1.deep_view()) == step_of(self.deep_view(), event.deep_view()),
    {
        let ProfileLoad { frames, visited, awaiting } = self;
        match (awaiting, event) {
            (Awaiting::Fetch, LoadEvent::Fetched(Err(e))) => {
                fail_or_pass(ProfileLoad { frames, visited, awaiting: Awaiting::Fetch }, e)
            },
            (Awaiting::Fetch, LoadEvent::Fetched(Ok(profile))) => {
                if contains_string(&visited, profile.metadata.name.as_str()) {
                    let mut text = "Circular extends detected: '".to_owned();
                    text.push_str(profile.metadata.name.as_str());
                    text.push_str("'");
                    fail_or_pass(
                        ProfileLoad { frames, visited, awaiting: Awaiting::Fetch },
                        Error::ConfigInvalid(text),
                    )
                } else {
                    let mut profile = profile;
                    let mut frames = frames;
                    let mut visited = visited;
                    let ghost fetched = profile.deep_view();
                    let ghost below = frames.deep_view();
                    let ghost seen = visited.deep_view();
                    visited.push(profile.metadata.name.clone());
                    let pending = clone_strings(&profile.metadata.extends);
                    profile.metadata.extends = Vec::new();
                    assert(profile.metadata.extends.deep_view() =~= Seq::<Seq<char>>::empty());
                    let frame = LoadFrame { profile, pending, next: 0 };
                    assert(frame.deep_view() == frame_of(fetched));
                    frames.push(frame);
                    assert(frames.deep_view() =~= below.push(frame_of(fetched)));
                    assert(visited.deep_view() =~= seen.push(fetched.metadata.name));
                    go_on(frames, visited)
                }
            },
            (Awaiting::Probe(name), LoadEvent::Probed(exists)) => {
                let source = match ProfileSource::parse(name.as_str(), exists) {
                    Ok(s) => s,
                    Err(_) => ProfileSource::Builtin(name),
                };
                (
                    ProfileLoad { frames, visited, awaiting: Awaiting::Fetch },
                    LoadAction::Fetch(source),
                )
            },
            (_, _) => {
                let error = Error::ConfigInvalid(
                    "Profile loading was driven out of order".to_owned(),
                );
                (finish(visited), LoadAction::Done(Err(error)))
            },
        }
    }
}

} // verus!
