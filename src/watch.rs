//! The decisions of the watch loop: which file-system events start a
//! regeneration, and how events that arrive during one are folded together.
//! The caller performs each action and feeds back what happened.

use vstd::prelude::*;
use crate::text::is_word;

verus! {

#[derive(Clone, Copy, Debug, PartialEq, Eq, Structural)]
pub enum WatchPhase {
    /// Not started yet.
    Idle,
    /// Subscribed, waiting for events.
    Watching,
    /// A regeneration is running.
    Regenerating,
    /// The source root was missing; the loop never started.
    Stopped,
    /// The event source broke; the loop is over.
    Failed,
}

#[derive(Clone, Copy, Debug, PartialEq, Eq, Structural)]
pub struct WatchState {
    pub phase: WatchPhase,
    /// Whether a source change arrived while the current regeneration ran.
    pub pending: bool,
}

/// What the loop observes.
pub enum WatchEvent {
    /// The loop is asked to start; whether the source root exists.
    Start { root_exists: bool },
    /// Files changed: the extension of each changed path, where it has one.
    Changed { extensions: Vec<Option<String>> },
    /// One event could not be read; the event source itself still works.
    EventError,
    /// The event source broke.
    ChannelClosed,
    /// The running regeneration finished.
    RegenerationDone,
}

/// What the loop is to do next.
#[derive(Clone, Copy, Debug, PartialEq, Eq, Structural)]
pub enum WatchAction {
    Nothing,
    /// Subscribe to recursive change notifications on the source root.
    Subscribe,
    /// Run the whole pipeline once.
    Regenerate,
    /// Report the unreadable event and go on.
    Log,
    /// End the loop.
    Stop,
}

/// Whether a path with this extension is a source file.
pub open spec fn is_source_extension(extension: Option<String>) -> bool {
    extension matches Some(e) && e@ == "rs"@
}

/// Whether some changed path is a source file.
pub open spec fn touches_source(extensions: Seq<Option<String>>) -> bool {
    exists|i: int| 0 <= i < extensions.len() && is_source_extension(#[trigger] extensions[i])
}

/// Whether a path with this extension is a source file, to be scanned and
/// watched.
pub fn is_source_file(extension: &Option<String>) -> (r: bool)
    ensures
        r == is_source_extension(*extension),
{
    match extension {
        Some(e) => is_word(e, "rs"),
        None => false,
    }
}

pub open spec fn is_source_change(e: WatchEvent) -> bool {
    match e {
        WatchEvent::Changed { extensions } => touches_source(extensions@),
        _ => false,
    }
}

pub open spec fn state(phase: WatchPhase, pending: bool) -> WatchState {
    WatchState { phase, pending }
}

/// One transition of the watch loop.
pub open spec fn step(s: WatchState, e: WatchEvent) -> (WatchState, WatchAction) {
    match s.phase {
        WatchPhase::Idle => match e {
            WatchEvent::Start { root_exists } => if root_exists {
                (state(WatchPhase::Watching, false), WatchAction::Subscribe)
            } else {
                (state(WatchPhase::Stopped, false), WatchAction::Stop)
            },
            _ => (s, WatchAction::Nothing),
        },
        WatchPhase::Watching => match e {
            WatchEvent::Changed { .. } => if is_source_change(e) {
                (state(WatchPhase::Regenerating, false), WatchAction::Regenerate)
            } else {
                (s, WatchAction::Nothing)
            },
            WatchEvent::EventError => (s, WatchAction::Log),
            WatchEvent::ChannelClosed => (state(WatchPhase::Failed, false), WatchAction::Stop),
            _ => (s, WatchAction::Nothing),
        },
        WatchPhase::Regenerating => match e {
            WatchEvent::Changed { .. } => if is_source_change(e) {
                (state(WatchPhase::Regenerating, true), WatchAction::Nothing)
            } else {
                (s, WatchAction::Nothing)
            },
            WatchEvent::RegenerationDone => if s.pending {
                (state(WatchPhase::Regenerating, false), WatchAction::Regenerate)
            } else {
                (state(WatchPhase::Watching, false), WatchAction::Nothing)
            },
            WatchEvent::EventError => (s, WatchAction::Log),
            WatchEvent::ChannelClosed => (state(WatchPhase::Failed, false), WatchAction::Stop),
            _ => (s, WatchAction::Nothing),
        },
        WatchPhase::Stopped | WatchPhase::Failed => (s, WatchAction::Nothing),
    }
}

/// Whether a change event touches a source file, by the extensions of the
/// changed paths.
pub fn should_regenerate(extensions: &Vec<Option<String>>) -> (r: bool)
    ensures
        r == touches_source(extensions@),
{
    let mut i: usize = 0;
    while i < extensions.len()
        invariant
            0 <= i <= extensions.len(),
            forall|j: int| 0 <= j < i ==> !is_source_extension(#[trigger] extensions@[j]),
        decreases extensions.len() - i,
    {
        if is_source_file(&extensions[i]) {
            return true;
        }
        i += 1;
    }
    false
}

fn at(phase: WatchPhase, pending: bool) -> (r: WatchState)
    ensures
        r == state(phase, pending),
{
    WatchState { phase, pending }
}

impl WatchState {
    /// The state before the loop starts.
    pub fn new() -> (r: WatchState)
        ensures
            r == state(WatchPhase::Idle, false),
    {
        at(WatchPhase::Idle, false)
    }

    /// Takes one event and says what to do. A source change that arrives
    /// while a regeneration runs is remembered, not acted on: when the
    /// regeneration finishes, one more runs for all such changes together.
    pub fn next(self, event: &WatchEvent) -> (r: (WatchState, WatchAction))
        ensures
            r == step(self, *event),
    {
        match self.phase {
            WatchPhase::Idle => match event {
                WatchEvent::Start { root_exists } => if *root_exists {
                    (at(WatchPhase::Watching, false), WatchAction::Subscribe)
                } else {
                    (at(WatchPhase::Stopped, false), WatchAction::Stop)
                },
                _ => (self, WatchAction::Nothing),
            },
            WatchPhase::Watching => match event {
                WatchEvent::Changed { extensions } => if should_regenerate(extensions) {
                    (at(WatchPhase::Regenerating, false), WatchAction::Regenerate)
                } else {
                    (self, WatchAction::Nothing)
                },
                WatchEvent::EventError => (self, WatchAction::Log),
                WatchEvent::ChannelClosed => (at(WatchPhase::Failed, false), WatchAction::Stop),
                _ => (self, WatchAction::Nothing),
            },
            WatchPhase::Regenerating => match event {
                WatchEvent::Changed { extensions } => if should_regenerate(extensions) {
                    (at(WatchPhase::Regenerating, true), WatchAction::Nothing)
                } else {
                    (self, WatchAction::Nothing)
                },
                WatchEvent::RegenerationDone => if self.pending {
                    (at(WatchPhase::Regenerating, false), WatchAction::Regenerate)
                } else {
                    (at(WatchPhase::Watching, false), WatchAction::Nothing)
                },
                WatchEvent::EventError => (self, WatchAction::Log),
                WatchEvent::ChannelClosed => (at(WatchPhase::Failed, false), WatchAction::Stop),
                _ => (self, WatchAction::Nothing),
            },
            WatchPhase::Stopped | WatchPhase::Failed => (self, WatchAction::Nothing),
        }
    }
}

/// The state after a run of events, and the action taken at each.
pub open spec fn run(s: WatchState, events: Seq<WatchEvent>) -> (WatchState, Seq<WatchAction>)
    decreases events.len(),
{
    if events.len() == 0 {
        (s, Seq::empty())
    } else {
        let (mid, acts) = run(s, events.drop_last());
        let (end, a) = step(mid, events.last());
        (end, acts.push(a))
    }
}

/// How many regenerations a run of actions starts.
pub open spec fn regenerations(actions: Seq<WatchAction>) -> nat
    decreases actions.len(),
{
    if actions.len() == 0 {
        0
    } else {
        regenerations(actions.drop_last()) + if actions.last() == WatchAction::Regenerate {
            1nat
        } else {
            0nat
        }
    }
}

proof fn lemma_run_len(s: WatchState, events: Seq<WatchEvent>)
    ensures
        run(s, events).1.len() == events.len(),
    decreases events.len(),
{
    if events.len() > 0 {
        lemma_run_len(s, events.drop_last());
    }
}

proof fn lemma_run_push(s: WatchState, events: Seq<WatchEvent>)
    requires
        events.len() > 0,
    ensures
        run(s, events).0 == step(run(s, events.drop_last()).0, events.last()).0,
        run(s, events).1 == run(s, events.drop_last()).1.push(
            step(run(s, events.drop_last()).0, events.last()).1,
        ),
        regenerations(run(s, events).1) == regenerations(run(s, events.drop_last()).1) + if step(
            run(s, events.drop_last()).0,
            events.last(),
        ).1 == WatchAction::Regenerate {
            1nat
        } else {
            0nat
        },
{
    let acts = run(s, events).1;
    assert(acts.drop_last() =~= run(s, events.drop_last()).1);
}

proof fn lemma_changes_while_running(changes: Seq<WatchEvent>)
    requires
        changes.len() >= 1,
        forall|i: int| 0 <= i < changes.len() ==> is_source_change(#[trigger] changes[i]),
    ensures
        run(state(WatchPhase::Regenerating, false), changes).0 == state(WatchPhase::Regenerating, true),
        regenerations(run(state(WatchPhase::Regenerating, false), changes).1) == 0,
    decreases changes.len(),
{
    let s0 = state(WatchPhase::Regenerating, false);
    let rest = changes.drop_last();
    if changes.len() > 1 {
        assert forall|i: int| 0 <= i < rest.len() implies is_source_change(#[trigger] rest[i]) by {
            assert(rest[i] == changes[i]);
        }
        lemma_changes_while_running(rest);
    } else {
        assert(rest.len() == 0);
        assert(run(s0, rest).1 =~= Seq::<WatchAction>::empty());
    }
    assert(is_source_change(changes[changes.len() - 1]));
    lemma_run_push(s0, changes);
}

/// Source changes that arrive while a regeneration runs are coalesced:
/// however many there are, exactly one more regeneration runs after the
/// current one finishes, and then the loop is back to watching.
pub proof fn lemma_bursts_coalesce(changes: Seq<WatchEvent>, done: WatchEvent)
    requires
        changes.len() >= 1,
        forall|i: int| 0 <= i < changes.len() ==> is_source_change(#[trigger] changes[i]),
        done is RegenerationDone,
    ensures
        ({
            let (end, actions) = run(
                state(WatchPhase::Regenerating, false),
                changes + seq![done, done],
            );
            end == state(WatchPhase::Watching, false) && regenerations(actions) == 1
                && actions[changes.len() as int] == WatchAction::Regenerate
        }),
{
    let s0 = state(WatchPhase::Regenerating, false);
    let all = changes + seq![done, done];
    let once = all.drop_last();
    lemma_changes_while_running(changes);
    assert(once.drop_last() =~= changes);
    assert(once.last() == done);
    assert(all.last() == done);
    lemma_run_push(s0, once);
    lemma_run_push(s0, all);
    lemma_run_len(s0, changes);
    assert(run(s0, once).1[changes.len() as int] == WatchAction::Regenerate);
    assert(run(s0, all).1[changes.len() as int] == run(s0, once).1[changes.len() as int]);
}

} // verus!
