//! The hot-configuration controller: which filesystem notifications count,
//! how a burst of them is settled into one reload, and when a reloaded
//! configuration is published.

use crate::config::{HotConfig, HotConfigView};
use crate::text::str_equal;
use vstd::prelude::*;
use vstd::string::*;

verus! {

/// How long a burst of notifications is left to settle, in milliseconds.
pub const CONFIG_SETTLE_MILLIS: u64 = 50;

/// How a file was accessed.
#[derive(Debug, Clone, Copy, PartialEq, Eq)]
pub enum AccessKind {
    Any,
    Read,
    Open,
    Close,
    Other,
}

/// What was created.
#[derive(Debug, Clone, Copy, PartialEq, Eq)]
pub enum CreateKind {
    Any,
    File,
    Folder,
    Other,
}

/// What of a file was changed.
#[derive(Debug, Clone, Copy, PartialEq, Eq)]
pub enum ModifyKind {
    Any,
    Data,
    Metadata,
    Name,
    Other,
}

/// What was removed.
#[derive(Debug, Clone, Copy, PartialEq, Eq)]
pub enum RemoveKind {
    Any,
    File,
    Folder,
    Other,
}

/// What a filesystem notification says has happened.
#[derive(Debug, Clone, Copy, PartialEq, Eq)]
pub enum EventKind {
    Any,
    Access(AccessKind),
    Create(CreateKind),
    Modify(ModifyKind),
    Remove(RemoveKind),
    Other,
}

/// The kinds that may mean a new configuration: a change of data or of name,
/// the creation or removal of a file, and every kind that does not say
/// more. Access, a change of metadata alone, and what happens to folders do
/// not count.
pub open spec fn relevant_kind(kind: EventKind) -> bool {
    match kind {
        EventKind::Any => true,
        EventKind::Modify(ModifyKind::Data) => true,
        EventKind::Modify(ModifyKind::Name) => true,
        EventKind::Modify(ModifyKind::Any) => true,
        EventKind::Create(CreateKind::File) => true,
        EventKind::Create(CreateKind::Any) => true,
        EventKind::Remove(RemoveKind::File) => true,
        EventKind::Remove(RemoveKind::Any) => true,
        _ => false,
    }
}

/// Whether a notification of this kind may mean a new configuration.
pub fn is_relevant_config_event_kind(kind: &EventKind) -> (r: bool)
    ensures
        r == relevant_kind(*kind),
{
    match kind {
        EventKind::Any => true,
        EventKind::Modify(ModifyKind::Data) => true,
        EventKind::Modify(ModifyKind::Name) => true,
        EventKind::Modify(ModifyKind::Any) => true,
        EventKind::Create(CreateKind::File) => true,
        EventKind::Create(CreateKind::Any) => true,
        EventKind::Remove(RemoveKind::File) => true,
        EventKind::Remove(RemoveKind::Any) => true,
        _ => false,
    }
}

/// A path that a notification names, as it was given and, where the
/// filesystem could resolve it, in canonical form.
#[derive(Debug, PartialEq, Eq)]
pub struct CandidatePath {
    pub path: String,
    pub canonical: Option<String>,
}

/// The values of a [`CandidatePath`].
pub struct CandidatePathView {
    pub path: Seq<char>,
    pub canonical: Option<Seq<char>>,
}

impl View for CandidatePath {
    type V = CandidatePathView;

    open spec fn view(&self) -> CandidatePathView {
        CandidatePathView {
            path: self.path@,
            canonical: match self.canonical {
                Some(c) => Some(c@),
                None => None,
            },
        }
    }
}

/// A path names the watched file if it is that path as given, or if its
/// canonical form is.
pub open spec fn targets_watched(candidate: CandidatePathView, watched: Seq<char>) -> bool {
    candidate.path == watched || candidate.canonical == Some(watched)
}

/// Whether the path names the watched file.
pub fn path_targets_watched_config(candidate: &CandidatePath, watched_path: &str) -> (r: bool)
    ensures
        r == targets_watched(candidate@, watched_path@),
{
    if str_equal(candidate.path.as_str(), watched_path) {
        return true;
    }
    match &candidate.canonical {
        Some(canonical) => str_equal(canonical.as_str(), watched_path),
        None => false,
    }
}

/// A filesystem notification.
#[derive(Debug, PartialEq, Eq)]
pub struct FsEvent {
    pub kind: EventKind,
    pub paths: Vec<CandidatePath>,
}

/// Whether one of the paths names the watched file.
pub open spec fn any_targets_watched(paths: Seq<CandidatePath>, watched: Seq<char>) -> bool {
    exists|i: int| 0 <= i < paths.len() && targets_watched(#[trigger] paths[i]@, watched)
}

/// Whether the notification names the watched file.
pub fn event_targets_watched_config(event: &FsEvent, watched_path: &str) -> (r: bool)
    ensures
        r == any_targets_watched(event.paths@, watched_path@),
{
    let mut i: usize = 0;
    while i < event.paths.len()
        invariant
            i <= event.paths.len(),
            forall|j: int|
                0 <= j < i ==> !targets_watched(#[trigger] event.paths[j]@, watched_path@),
        decreases event.paths.len() - i,
    {
        if path_targets_watched_config(&event.paths[i], watched_path) {
            return true;
        }
        i = i + 1;
    }
    false
}

/// Whether a notification asks for a reload: its kind counts and it names
/// the watched file.
pub fn asks_for_reload(event: &FsEvent, watched_path: &str) -> (r: bool)
    ensures
        r == (relevant_kind(event.kind) && any_targets_watched(event.paths@, watched_path@)),
{
    is_relevant_config_event_kind(&event.kind) && event_targets_watched_config(event, watched_path)
}

/// Where the controller stands between two reloads.
#[derive(Debug, Clone, Copy, PartialEq, Eq)]
pub enum DebounceState {
    /// Nothing is pending.
    Idle,
    /// A notification came in; those that came with it are being cleared.
    Pending,
    /// The burst is left to settle.
    Settling,
    /// What came in while settling is being cleared.
    Clearing,
    /// The configuration is being read again.
    Reloading,
    /// The source of notifications is gone.
    Closed,
}

/// What the driver reports to the controller.
#[derive(Debug, Clone, Copy, PartialEq, Eq)]
pub enum DebounceEvent {
    /// A notification that asks for a reload came in.
    Signal,
    /// The pending notifications were cleared.
    Drained,
    /// The settle delay is over.
    SettleElapsed,
    /// The reload came to an end, whatever way.
    ReloadFinished,
    /// No more notifications will come.
    SourceClosed,
}

/// What the driver is to do.
#[derive(Debug, Clone, Copy, PartialEq, Eq)]
pub enum DebounceAction {
    /// Wait for the next notification.
    AwaitSignal,
    /// Throw away the notifications that are pending.
    DrainPending,
    /// Wait for the given number of milliseconds.
    Settle { millis: u64 },
    /// Read and validate the configuration again.
    Reload,
    /// Give up; nothing more will happen.
    Stop,
}

/// The state after an event. An event that the state does not wait for
/// changes nothing.
pub open spec fn debounce_next(state: DebounceState, event: DebounceEvent) -> DebounceState {
    match (state, event) {
        (DebounceState::Idle, DebounceEvent::Signal) => DebounceState::Pending,
        (DebounceState::Idle, DebounceEvent::SourceClosed) => DebounceState::Closed,
        (DebounceState::Pending, DebounceEvent::Drained) => DebounceState::Settling,
        (DebounceState::Settling, DebounceEvent::SettleElapsed) => DebounceState::Clearing,
        (DebounceState::Clearing, DebounceEvent::Drained) => DebounceState::Reloading,
        (DebounceState::Reloading, DebounceEvent::ReloadFinished) => DebounceState::Idle,
        _ => state,
    }
}

/// What a state has the driver do.
pub open spec fn debounce_action(state: DebounceState) -> DebounceAction {
    match state {
        DebounceState::Idle => DebounceAction::AwaitSignal,
        DebounceState::Pending => DebounceAction::DrainPending,
        DebounceState::Settling => DebounceAction::Settle { millis: CONFIG_SETTLE_MILLIS },
        DebounceState::Clearing => DebounceAction::DrainPending,
        DebounceState::Reloading => DebounceAction::Reload,
        DebounceState::Closed => DebounceAction::Stop,
    }
}

/// Takes the controller from one state to the next and says what the driver
/// is to do there.
pub fn debounce_step(state: DebounceState, event: DebounceEvent) -> (r: (
    DebounceState,
    DebounceAction,
))
    ensures
        r.0 == debounce_next(state, event),
        r.1 == debounce_action(r.0),
{
    let next = match (state, event) {
        (DebounceState::Idle, DebounceEvent::Signal) => DebounceState::Pending,
        (DebounceState::Idle, DebounceEvent::SourceClosed) => DebounceState::Closed,
        (DebounceState::Pending, DebounceEvent::Drained) => DebounceState::Settling,
        (DebounceState::Settling, DebounceEvent::SettleElapsed) => DebounceState::Clearing,
        (DebounceState::Clearing, DebounceEvent::Drained) => DebounceState::Reloading,
        (DebounceState::Reloading, DebounceEvent::ReloadFinished) => DebounceState::Idle,
        (state, _) => state,
    };
    let action = match next {
        DebounceState::Idle => DebounceAction::AwaitSignal,
        DebounceState::Pending => DebounceAction::DrainPending,
        DebounceState::Settling => DebounceAction::Settle { millis: CONFIG_SETTLE_MILLIS },
        DebounceState::Clearing => DebounceAction::DrainPending,
        DebounceState::Reloading => DebounceAction::Reload,
        DebounceState::Closed => DebounceAction::Stop,
    };
    (next, action)
}

/// The state after a run of events.
pub open spec fn debounce_run(state: DebounceState, events: Seq<DebounceEvent>) -> DebounceState
    decreases events.len(),
{
    if events.len() == 0 {
        state
    } else {
        debounce_next(debounce_run(state, events.drop_last()), events.last())
    }
}

/// How many of the events, met in this order from this state, start a
/// reload.
pub open spec fn reloads_started(state: DebounceState, events: Seq<DebounceEvent>) -> nat
    decreases events.len(),
{
    if events.len() == 0 {
        0
    } else {
        let before = debounce_run(state, events.drop_last());
        let after = debounce_next(before, events.last());
        reloads_started(state, events.drop_last()) + if before != DebounceState::Reloading && after
            == DebounceState::Reloading {
            1nat
        } else {
            0nat
        }
    }
}

/// How many of the events are notifications that were let in.
pub open spec fn signals_taken(state: DebounceState, events: Seq<DebounceEvent>) -> nat
    decreases events.len(),
{
    if events.len() == 0 {
        0
    } else {
        let before = debounce_run(state, events.drop_last());
        signals_taken(state, events.drop_last()) + if before == DebounceState::Idle && events.last()
            == DebounceEvent::Signal {
            1nat
        } else {
            0nat
        }
    }
}

/// How far a state is into a cycle that a notification opened.
pub open spec fn cycle_opened(state: DebounceState) -> bool {
    state == DebounceState::Pending || state == DebounceState::Settling || state
        == DebounceState::Clearing
}

/// A reload is never started without a notification, and each notification
/// that is let in starts at most one: whatever the events, from rest the
/// reloads started are as many as the notifications let in, less the one
/// whose burst is still settling. Once the source of notifications is gone,
/// nothing happens any more.
pub proof fn law_one_reload_per_burst(events: Seq<DebounceEvent>)
    ensures
        reloads_started(DebounceState::Idle, events) + (if cycle_opened(
            debounce_run(DebounceState::Idle, events),
        ) {
            1nat
        } else {
            0nat
        }) == signals_taken(DebounceState::Idle, events),
        forall|e: DebounceEvent| #[trigger]
            debounce_next(DebounceState::Closed, e) == DebounceState::Closed,
    decreases events.len(),
{
    if events.len() > 0 {
        law_one_reload_per_burst(events.drop_last());
    }
}

/// What became of a reload.
#[derive(Debug, Clone, Copy, PartialEq, Eq)]
pub enum ReloadOutcome {
    /// The configuration differs from the one in force and took its place.
    Published,
    /// The configuration equals the one in force; nothing was published.
    Unchanged,
    /// The configuration could not be read or is not valid; the one in force
    /// stays.
    Rejected,
}

/// The slot that holds the latest configuration, after a reload.
pub open spec fn slot_after(
    current: HotConfigView,
    loaded: Option<HotConfigView>,
) -> HotConfigView {
    match loaded {
        Some(candidate) => candidate,
        None => current,
    }
}

/// What becomes of a reload, given the configuration in the slot.
pub open spec fn reload_outcome(
    current: HotConfigView,
    loaded: Option<HotConfigView>,
) -> ReloadOutcome {
    match loaded {
        Some(candidate) => if candidate == current {
            ReloadOutcome::Unchanged
        } else {
            ReloadOutcome::Published
        },
        None => ReloadOutcome::Rejected,
    }
}

/// The values of what a reload read, if it read anything.
pub open spec fn loaded_view(loaded: Option<HotConfig>) -> Option<HotConfigView> {
    match loaded {
        Some(candidate) => Some(candidate@),
        None => None,
    }
}

/// Puts a candidate into the slot of the latest configuration if it differs
/// from what the slot holds, and says whether it did. The slot holds one
/// value: a published candidate takes the place of the previous one.
pub fn replace_if_changed(current: &mut HotConfig, candidate: HotConfig) -> (changed: bool)
    ensures
        changed == (candidate@ != old(current)@),
        final(current)@ == candidate@,
{
    if current.same_as(&candidate) {
        false
    } else {
        *current = candidate;
        true
    }
}

/// Settles a reload: a configuration that was read and found valid is
/// published if it differs from the one in the slot; a failed reload leaves
/// the slot alone. `loaded` is `None` where the reload failed.
pub fn settle_reload(current: &mut HotConfig, loaded: Option<HotConfig>) -> (outcome: ReloadOutcome)
    ensures
        outcome == reload_outcome(old(current)@, loaded_view(loaded)),
        final(current)@ == slot_after(old(current)@, loaded_view(loaded)),
        loaded is None ==> *final(current) == *old(current),
{
    match loaded {
        Some(candidate) => {
            if replace_if_changed(current, candidate) {
                ReloadOutcome::Published
            } else {
                ReloadOutcome::Unchanged
            }
        },
        None => ReloadOutcome::Rejected,
    }
}

} // verus!
