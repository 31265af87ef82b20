//! CPU pinning: the decisions of a pinning session as a state machine, the
//! portable platform without per-core affinity, and the scope guard.
//!
//! A session asks the platform one thing at a time (`PinAction`) and is told
//! the answer (`PinEvent`). Pinning to the current core falls back to the
//! first available core when the current core is unknown or cannot be pinned.
//! A platform with real affinity calls drives the same machine with its own
//! answers.

use vstd::prelude::*;

verus! {

/// Which core a session pins to.
#[derive(Debug, Clone, Copy, PartialEq, Eq)]
pub enum PinTarget {
    CurrentCore,
    FirstCore,
    Core(usize),
}

/// What the session asks of the platform next.
#[derive(Debug, Clone, Copy, PartialEq, Eq)]
pub enum PinAction {
    /// Report the core the thread runs on.
    QueryCurrentCpu,
    /// Report the available core ids.
    QueryCoreIds,
    /// Save the thread's affinity for the guard being made, then narrow it
    /// to this core.
    Pin(usize),
    /// The session is over: the core pinned to, if any.
    Finish(Option<usize>),
}

/// The platform's answer to the last action.
#[derive(Debug, PartialEq, Eq)]
pub enum PinEvent {
    CurrentCpu(Option<usize>),
    CoreIds(Option<Vec<usize>>),
    Pinned(bool),
}

/// Where a session stands.
#[derive(Debug, Clone, Copy, PartialEq, Eq)]
pub enum PinStage {
    AwaitCurrentCpu,
    AwaitCoreIds,
    /// Waiting for the outcome of pinning `core`; `fall_back` tells whether a
    /// failure moves on to the first available core.
    AwaitPin { core: usize, fall_back: bool },
    Done(Option<usize>),
}

/// Action that a stage waits on.
pub open spec fn action_of(stage: PinStage) -> PinAction {
    match stage {
        PinStage::AwaitCurrentCpu => PinAction::QueryCurrentCpu,
        PinStage::AwaitCoreIds => PinAction::QueryCoreIds,
        PinStage::AwaitPin { core, fall_back } => PinAction::Pin(core),
        PinStage::Done(r) => PinAction::Finish(r),
    }
}

/// First stage of a session for `target`.
pub open spec fn start_stage(target: PinTarget) -> PinStage {
    match target {
        PinTarget::CurrentCore => PinStage::AwaitCurrentCpu,
        PinTarget::FirstCore => PinStage::AwaitCoreIds,
        PinTarget::Core(c) => PinStage::AwaitPin { core: c, fall_back: false },
    }
}

/// Next stage after `event` in `stage`:
/// - a known current core is pinned, falling back on failure; an unknown one
///   moves on to the core list;
/// - a non-empty core list pins its first core; no list, or an empty one,
///   ends unpinned;
/// - a successful pin ends pinned to that core; a failed one falls back or
///   ends unpinned;
/// - a finished session stays finished; an answer to a question not asked
///   ends the session unpinned.
pub open spec fn next_stage(stage: PinStage, event: PinEvent) -> PinStage {
    match (stage, event) {
        (PinStage::Done(r), _) => PinStage::Done(r),
        (PinStage::AwaitCurrentCpu, PinEvent::CurrentCpu(Some(c))) => PinStage::AwaitPin {
            core: c,
            fall_back: true,
        },
        (PinStage::AwaitCurrentCpu, PinEvent::CurrentCpu(None)) => PinStage::AwaitCoreIds,
        (PinStage::AwaitCoreIds, PinEvent::CoreIds(Some(ids))) => if ids@.len() > 0 {
            PinStage::AwaitPin { core: ids@[0], fall_back: false }
        } else {
            PinStage::Done(None)
        },
        (PinStage::AwaitCoreIds, PinEvent::CoreIds(None)) => PinStage::Done(None),
        (PinStage::AwaitPin { core, fall_back }, PinEvent::Pinned(ok)) => if ok {
            PinStage::Done(Some(core))
        } else if fall_back {
            PinStage::AwaitCoreIds
        } else {
            PinStage::Done(None)
        },
        _ => PinStage::Done(None),
    }
}

/// Steps left before a stage is done, at most.
pub open spec fn steps_left(stage: PinStage) -> nat {
    match stage {
        PinStage::AwaitCurrentCpu => 4,
        PinStage::AwaitPin { core, fall_back } => if fall_back {
            3
        } else {
            1
        },
        PinStage::AwaitCoreIds => 2,
        PinStage::Done(_) => 0,
    }
}

/// Starts a pinning session: its first stage and the action it asks for.
pub fn pin_start(target: PinTarget) -> (r: (PinStage, PinAction))
    ensures
        r.0 == start_stage(target),
        r.1 == action_of(r.0),
{
    match target {
        PinTarget::CurrentCore => (PinStage::AwaitCurrentCpu, PinAction::QueryCurrentCpu),
        PinTarget::FirstCore => (PinStage::AwaitCoreIds, PinAction::QueryCoreIds),
        PinTarget::Core(c) => (PinStage::AwaitPin { core: c, fall_back: false }, PinAction::Pin(c)),
    }
}

/// Advances a session by the platform's answer: the next stage and the
/// action it asks for. Every step of an unfinished session brings it closer
/// to the end.
pub fn pin_step(stage: PinStage, event: PinEvent) -> (r: (PinStage, PinAction))
    ensures
        r.0 == next_stage(stage, event),
        r.1 == action_of(r.0),
        !(stage is Done) ==> steps_left(r.0) < steps_left(stage),
{
    let next = match (stage, event) {
        (PinStage::Done(r), _) => PinStage::Done(r),
        (PinStage::AwaitCurrentCpu, PinEvent::CurrentCpu(Some(c))) => PinStage::AwaitPin {
            core: c,
            fall_back: true,
        },
        (PinStage::AwaitCurrentCpu, PinEvent::CurrentCpu(None)) => PinStage::AwaitCoreIds,
        (PinStage::AwaitCoreIds, PinEvent::CoreIds(Some(ids))) => if ids.len() > 0 {
            PinStage::AwaitPin { core: ids[0], fall_back: false }
        } else {
            PinStage::Done(None)
        },
        (PinStage::AwaitCoreIds, PinEvent::CoreIds(None)) => PinStage::Done(None),
        (PinStage::AwaitPin { core, fall_back }, PinEvent::Pinned(ok)) => if ok {
            PinStage::Done(Some(core))
        } else if fall_back {
            PinStage::AwaitCoreIds
        } else {
            PinStage::Done(None)
        },
        _ => PinStage::Done(None),
    };
    let action = match next {
        PinStage::AwaitCurrentCpu => PinAction::QueryCurrentCpu,
        PinStage::AwaitCoreIds => PinAction::QueryCoreIds,
        PinStage::AwaitPin { core, fall_back: _ } => PinAction::Pin(core),
        PinStage::Done(r) => PinAction::Finish(r),
    };
    (next, action)
}

/// Effect of a `Pin(core)` action on a platform with real affinity calls,
/// starting from the set of cores `mask` the thread may run on: the new set,
/// and the set that the guard being made keeps for its own cleanup. When the
/// platform reports success the thread may run on `core` only and the guard
/// keeps `mask`; on failure nothing changes and the guard keeps nothing.
pub open spec fn after_pin(mask: Set<usize>, core: usize, ok: bool) -> (Set<usize>, Option<Set<usize>>) {
    if ok {
        (set![core], Some(mask))
    } else {
        (mask, None)
    }
}

/// Effect of dropping a guard that keeps `saved`: the kept set is restored;
/// a guard that keeps nothing (it did not pin) changes nothing.
pub open spec fn after_drop(mask: Set<usize>, saved: Option<Set<usize>>) -> Set<usize> {
    match saved {
        Some(m) => m,
        None => mask,
    }
}

/// Outcome of a session whose last step is the platform's answer `ok` to
/// `Pin(core)`.
pub open spec fn pin_outcome(core: usize, ok: bool) -> Option<usize> {
    match next_stage(PinStage::AwaitPin { core, fall_back: false }, PinEvent::Pinned(ok)) {
        PinStage::Done(r) => r,
        _ => None,
    }
}

/// Guard cleanup restores the affinity. A guard keeps a saved set exactly
/// when its session ended pinned, and dropping it gives back the set the
/// thread had before it. Because each guard keeps its own saved set, nested
/// guards restore correctly too: dropping the inner one gives back the set
/// the outer one left, and dropping the outer one the set from before both.
pub proof fn lemma_guard_restores_affinity(
    before: Set<usize>,
    outer_core: usize,
    outer_ok: bool,
    inner_core: usize,
    inner_ok: bool,
)
    ensures
        (after_pin(before, outer_core, outer_ok).1 is Some) == (pin_outcome(outer_core, outer_ok) is Some),
        after_drop(after_pin(before, outer_core, outer_ok).0, after_pin(before, outer_core, outer_ok).1)
            == before,
        ({
            let (m1, s1) = after_pin(before, outer_core, outer_ok);
            let (m2, s2) = after_pin(m1, inner_core, inner_ok);
            &&& after_drop(m2, s2) == m1
            &&& after_drop(after_drop(m2, s2), s1) == before
        }),
{
}

// The portable platform: no per-core affinity API. It knows no cores, cannot
// pin, and saving or restoring the (unchanged) affinity always succeeds, so
// every session on it ends unpinned and guards degrade to no-ops.

/// Available core ids; this platform knows none.
pub fn get_core_ids() -> (r: Option<Vec<usize>>)
    ensures
        r is None,
{
    None
}

/// Core the thread runs on; unknown on this platform.
pub fn get_current_cpu() -> (r: Option<usize>)
    ensures
        r is None,
{
    None
}

/// Saves the thread's affinity before pinning; nothing to save here.
pub fn save_affinity() -> (r: bool)
    ensures
        r,
{
    true
}

/// Narrows the thread's affinity to one core; impossible here.
pub fn set_affinity(core_id: usize) -> (r: bool)
    ensures
        !r,
{
    false
}

/// Restores the saved affinity; the affinity never changed here.
pub fn restore_affinity() -> (r: bool)
    ensures
        r,
    opens_invariants none
    no_unwind
{
    true
}

/// The platform's answer to `action`.
fn answer(action: PinAction) -> (r: PinEvent)
    requires
        !(action is Finish),
    ensures
        r == match action {
            PinAction::QueryCurrentCpu => PinEvent::CurrentCpu(None),
            PinAction::QueryCoreIds => PinEvent::CoreIds(None),
            _ => PinEvent::Pinned(false),
        },
{
    match action {
        PinAction::QueryCurrentCpu => PinEvent::CurrentCpu(get_current_cpu()),
        PinAction::QueryCoreIds => PinEvent::CoreIds(get_core_ids()),
        PinAction::Pin(core) => {
            save_affinity();
            PinEvent::Pinned(set_affinity(core))
        },
        PinAction::Finish(_) => PinEvent::Pinned(false),
    }
}

/// Runs a session for `target` on this platform; it ends unpinned.
fn run_session(target: PinTarget) -> (r: Option<usize>)
    ensures
        r is None,
{
    let (mut stage, mut action) = pin_start(target);
    loop
        invariant
            action == action_of(stage),
            stage matches PinStage::Done(r) ==> r is None,
        decreases steps_left(stage),
    {
        match action {
            PinAction::Finish(r) => {
                return r;
            },
            _ => {},
        }
        let event = answer(action);
        let (next, next_action) = pin_step(stage, event);
        stage = next;
        action = next_action;
    }
}

/// Pins the thread to `core_id`, saving its affinity first; whether it
/// succeeded (never on this platform).
pub fn pin_to_core(core_id: usize) -> (r: bool)
    ensures
        !r,
{
    save_affinity();
    set_affinity(core_id)
}

/// Pins the thread to the first available core; the core, or `None` when
/// pinning failed.
pub fn pin_to_first_core() -> (r: Option<usize>)
    ensures
        r is None,
{
    run_session(PinTarget::FirstCore)
}

/// Pins the thread to the core it runs on, falling back to the first
/// available core; the core, or `None` when pinning failed.
pub fn pin_to_current_core() -> (r: Option<usize>)
    ensures
        r is None,
{
    run_session(PinTarget::CurrentCore)
}

/// Restores the thread's saved affinity; whether that succeeded.
pub fn unpin() -> (r: bool)
    ensures
        r,
    opens_invariants none
    no_unwind
{
    restore_affinity()
}

/// Scope guard for pinning on this portable platform: making it runs a
/// pinning session, and dropping it unpins if the session pinned. Sessions
/// here never pin, so the guard reports itself as not pinned.
pub struct CpuPinGuard {
    pinned_core: Option<usize>,
}

impl CpuPinGuard {
    /// Core the guard pinned the thread to, if any.
    pub closed spec fn pinned(&self) -> Option<usize> {
        self.pinned_core
    }

    /// Pins to the current core (falling back to the first available one).
    pub fn new() -> (r: CpuPinGuard)
        ensures
            r.pinned() is None,
    {
        CpuPinGuard { pinned_core: pin_to_current_core() }
    }

    /// Pins to `core_id`.
    pub fn with_core(core_id: usize) -> (r: CpuPinGuard)
        ensures
            r.pinned() is None,
    {
        save_affinity();
        let success = set_affinity(core_id);
        CpuPinGuard {
            pinned_core: if success {
                Some(core_id)
            } else {
                None
            },
        }
    }

    /// Pins to the first available core.
    pub fn first_core() -> (r: CpuPinGuard)
        ensures
            r.pinned() is None,
    {
        CpuPinGuard { pinned_core: pin_to_first_core() }
    }

    /// Core the thread is pinned to, if any.
    pub fn core_id(&self) -> (r: Option<usize>)
        ensures
            r == self.pinned(),
    {
        self.pinned_core
    }

    /// Whether the guard pinned the thread.
    pub fn is_pinned(&self) -> (r: bool)
        ensures
            r == self.pinned() is Some,
    {
        self.pinned_core.is_some()
    }
}

impl Drop for CpuPinGuard {
    fn drop(&mut self)
        opens_invariants none
        no_unwind
    {
        match self.pinned_core {
            Some(_) => {
                unpin();
            },
            None => {},
        }
    }
}

} // verus!
