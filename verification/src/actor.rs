//! The daemon core's bookkeeping around its agent: the engine state shown
//! while the agent is built, what switching the current session records,
//! and the decisions of the core's command loop, one command at a time.
use crate::rebuild::PersonaSessions;
use crate::text::{str_eq, string_views};
use vstd::prelude::*;

verus! {

/// The state of the turn engine, as the WebUI shows it.
#[derive(PartialEq, Eq, Structural, Clone, Copy, Debug)]
pub enum EngineState {
    /// No agent yet: one is built on the next turn.
    Cold,
    Initializing,
    Ready,
    Failed,
}

/// The engine state to show before using the agent: `Initializing` while
/// one has to be built, nothing when it exists.
pub fn ensure_actor_agent(has_agent: bool) -> (r: Option<EngineState>)
    ensures
        has_agent ==> r is None,
        !has_agent ==> r == Some(EngineState::Initializing),
{
    if has_agent {
        None
    } else {
        Some(EngineState::Initializing)
    }
}

/// The engine state after a build: ready, or failed.
pub fn agent_built(ok: bool) -> (r: EngineState)
    ensures
        r == (if ok {
            EngineState::Ready
        } else {
            EngineState::Failed
        }),
{
    if ok {
        EngineState::Ready
    } else {
        EngineState::Failed
    }
}

/// The event published when the current session changes.
pub struct CurrentChanged {
    pub session_id: String,
}

/// Switching the daemon's current session: the active persona scope
/// remembers it, and `session.current_changed` names it.
pub fn switch_actor_session(sessions: &mut PersonaSessions, persona_scope: &str, session_id: &str) -> (r: CurrentChanged)
    requires
        old(sessions).wf(),
    ensures
        final(sessions).wf(),
        final(sessions).view() == old(sessions).view().insert(persona_scope@, session_id@),
        r.session_id@ == session_id@,
{
    sessions.insert(persona_scope, session_id);
    CurrentChanged { session_id: session_id.to_owned() }
}


/// The engine state after a configuration or model change took effect:
/// ready when an agent is in place, cold when the next turn builds one.
pub fn engine_after_change(has_agent: bool) -> (r: EngineState)
    ensures
        r == (if has_agent {
            EngineState::Ready
        } else {
            EngineState::Cold
        }),
{
    if has_agent {
        EngineState::Ready
    } else {
        EngineState::Cold
    }
}

/// A command of the core's loop, as far as its decisions read it.
pub enum ActorCommandView {
    StartTurn,
    RedoTurn,
    SetModels,
    SetThinkingVariants,
    /// `requires_interrupt`: the change moves persona state running turns
    /// stand on (see `config_change_requires_interrupt`).
    ApplyConfig { requires_interrupt: bool },
    ResetConversation,
    ResetPersonaState,
    ClearSessionContent,
    SwitchSession { release_reservation: bool },
    Shutdown,
    Undo { session_id: String },
    Pop { session_id: String },
    Compact { session_id: String },
}

/// When the admin reservation a command came under is released.
#[derive(PartialEq, Eq, Structural, Clone, Copy, Debug)]
pub enum Release {
    /// The command holds none (turns), or keeps it (a switch that was asked
    /// not to release).
    Never,
    /// As soon as the command's work is done, whatever its result.
    AfterWork,
    /// When the spawned task doing the work ends.
    AfterTask,
}

/// What the loop does for one command.
pub struct ActorPlan {
    /// Ask every run in flight to cancel, and wait (a bounded while) until
    /// none is left, before the work.
    pub cancel_and_drain: bool,
    /// The work runs in a task of its own, so the loop takes the next
    /// command at once.
    pub spawn: bool,
    pub release: Release,
    /// After the work succeeded, the daemon's context meters are read again:
    /// the command changed the current session's conversation.
    pub refresh_context: bool,
    /// After the work succeeded, cached resources are dropped.
    pub clear_cache: bool,
    /// After the work succeeded, the engine state is set by
    /// [`engine_after_change`].
    pub set_engine: bool,
    /// The loop ends after this command.
    pub stop: bool,
}

/// The loop's state: whether it still takes commands, and the daemon's
/// current session.
pub struct ActorState {
    pub open: bool,
    pub current_session: String,
}

pub open spec fn plan_view(p: ActorPlan) -> (bool, bool, Release, bool, bool, bool, bool) {
    (p.cancel_and_drain, p.spawn, p.release, p.refresh_context, p.clear_cache, p.set_engine, p.stop)
}

/// The plan of one command, the current session being `current`. Turns and
/// redos are spawned and hold no reservation; a shutdown cancels and drains
/// every run and ends the loop; a configuration change that moves persona
/// state cancels and drains first; undo, pop and compaction refresh the
/// context meters only for the current session; compaction runs in its own
/// task and releases its reservation when that ends; every other admin
/// command releases it once its work is done, a switch only when asked to.
pub open spec fn actor_plan_of(current: Seq<char>, command: ActorCommandView) -> (bool, bool, Release, bool, bool, bool, bool) {
    match command {
        ActorCommandView::StartTurn => (false, true, Release::Never, false, false, false, false),
        ActorCommandView::RedoTurn => (false, true, Release::Never, false, false, false, false),
        ActorCommandView::SetModels => (false, false, Release::AfterWork, false, true, true, false),
        ActorCommandView::SetThinkingVariants => (false, false, Release::AfterWork, false, true, false, false),
        ActorCommandView::ApplyConfig { requires_interrupt } => (
            requires_interrupt,
            false,
            Release::AfterWork,
            false,
            true,
            true,
            false,
        ),
        ActorCommandView::ResetConversation => (false, false, Release::AfterWork, false, false, false, false),
        ActorCommandView::ResetPersonaState => (false, false, Release::AfterWork, false, true, false, false),
        ActorCommandView::ClearSessionContent => (false, false, Release::AfterWork, false, false, false, false),
        ActorCommandView::SwitchSession { release_reservation } => (
            false,
            false,
            if release_reservation {
                Release::AfterWork
            } else {
                Release::Never
            },
            false,
            false,
            false,
            false,
        ),
        ActorCommandView::Shutdown => (true, false, Release::Never, false, false, false, true),
        ActorCommandView::Undo { session_id } => (false, false, Release::AfterWork, session_id@ == current, false, false, false),
        ActorCommandView::Pop { session_id } => (false, false, Release::AfterWork, session_id@ == current, false, false, false),
        ActorCommandView::Compact { session_id } => (false, true, Release::AfterTask, session_id@ == current, false, false, false),
    }
}

/// Once the loop has ended, a command is not acted on.
pub open spec fn idle_plan() -> (bool, bool, Release, bool, bool, bool, bool) {
    (false, false, Release::Never, false, false, false, false)
}

fn plan(cancel_and_drain: bool, spawn: bool, release: Release, refresh_context: bool, clear_cache: bool, set_engine: bool, stop: bool) -> (r: ActorPlan)
    ensures
        plan_view(r) == (cancel_and_drain, spawn, release, refresh_context, clear_cache, set_engine, stop),
{
    ActorPlan { cancel_and_drain, spawn, release, refresh_context, clear_cache, set_engine, stop }
}

/// One step of the core's loop: the plan for `command`, and the loop's
/// state after it (closed after a shutdown; a closed loop acts on nothing).
pub fn actor_step(state: &ActorState, command: &ActorCommandView) -> (r: (ActorState, ActorPlan))
    ensures
        r.0.current_session@ == state.current_session@,
        r.0.open == (state.open && !(command is Shutdown)),
        plan_view(r.1) == (if state.open {
            actor_plan_of(state.current_session@, *command)
        } else {
            idle_plan()
        }),
{
    let next = ActorState { open: state.open && !matches!(command, ActorCommandView::Shutdown), current_session: state.current_session.clone() };
    if !state.open {
        return (next, plan(false, false, Release::Never, false, false, false, false));
    }
    let current = state.current_session.as_str();
    let p = match command {
        ActorCommandView::StartTurn => plan(false, true, Release::Never, false, false, false, false),
        ActorCommandView::RedoTurn => plan(false, true, Release::Never, false, false, false, false),
        ActorCommandView::SetModels => plan(false, false, Release::AfterWork, false, true, true, false),
        ActorCommandView::SetThinkingVariants => plan(false, false, Release::AfterWork, false, true, false, false),
        ActorCommandView::ApplyConfig { requires_interrupt } => plan(
            *requires_interrupt,
            false,
            Release::AfterWork,
            false,
            true,
            true,
            false,
        ),
        ActorCommandView::ResetConversation => plan(false, false, Release::AfterWork, false, false, false, false),
        ActorCommandView::ResetPersonaState => plan(false, false, Release::AfterWork, false, true, false, false),
        ActorCommandView::ClearSessionContent => plan(false, false, Release::AfterWork, false, false, false, false),
        ActorCommandView::SwitchSession { release_reservation } => plan(
            false,
            false,
            if *release_reservation {
                Release::AfterWork
            } else {
                Release::Never
            },
            false,
            false,
            false,
            false,
        ),
        ActorCommandView::Shutdown => plan(true, false, Release::Never, false, false, false, true),
        ActorCommandView::Undo { session_id } => plan(
            false,
            false,
            Release::AfterWork,
            str_eq(session_id.as_str(), current),
            false,
            false,
            false,
        ),
        ActorCommandView::Pop { session_id } => plan(
            false,
            false,
            Release::AfterWork,
            str_eq(session_id.as_str(), current),
            false,
            false,
            false,
        ),
        ActorCommandView::Compact { session_id } => plan(
            false,
            true,
            Release::AfterTask,
            str_eq(session_id.as_str(), current),
            false,
            false,
            false,
        ),
    };
    (next, p)
}

/// The turns a pop takes: of the turns that may be evicted, in their stored
/// order, those the request names.
pub open spec fn popped(available: Seq<String>, requested: Seq<Seq<char>>) -> Seq<Seq<char>>
    decreases available.len(),
{
    if available.len() == 0 {
        seq![]
    } else {
        let rest = popped(available.drop_last(), requested);
        if requested.contains(available.last()@) {
            rest.push(available.last()@)
        } else {
            rest
        }
    }
}

/// Picks the turns a pop takes. A pop naming no turn takes none; one whose
/// named turns are not all (and only once each) among those that may still
/// be evicted is refused: `one or more conversation turns are no longer
/// available`.
pub fn pop_selection(available: &Vec<String>, requested: &Vec<String>) -> (r: Result<Vec<String>, String>)
    ensures
        requested@.len() == 0 ==> (r matches Ok(v) && v@.len() == 0),
        requested@.len() > 0 ==> match r {
            Ok(v) => string_views(v@) == popped(available@, string_views(requested@)) && v@.len() == requested@.len(),
            Err(m) => popped(available@, string_views(requested@)).len() != requested@.len() && m@
                == "one or more conversation turns are no longer available"@,
        },
{
    if requested.len() == 0 {
        return Ok(Vec::new());
    }
    let ghost rq = string_views(requested@);
    let mut out: Vec<String> = Vec::new();
    let mut i: usize = 0;
    while i < available.len()
        invariant
            i <= available.len(),
            rq == string_views(requested@),
            string_views(out@) == popped(available@.take(i as int), rq),
        decreases available.len() - i,
    {
        let ghost t = available@.take(i + 1);
        assert(t.drop_last() =~= available@.take(i as int));
        assert(t.last() == available@[i as int]);
        let mut named = false;
        let mut j: usize = 0;
        while j < requested.len()
            invariant
                j <= requested.len(),
                i < available.len(),
                rq == string_views(requested@),
                named == exists|k: int| 0 <= k < j && rq[k] == available@[i as int]@,
            decreases requested.len() - j,
        {
            assert(rq[j as int] == requested@[j as int]@);
            if str_eq(requested[j].as_str(), available[i].as_str()) {
                named = true;
            }
            j += 1;
        }
        proof {
            if rq.contains(available@[i as int]@) {
                let k = choose|k: int| 0 <= k < rq.len() && rq[k] == available@[i as int]@;
                assert(named);
            }
        }
        if named {
            let ghost before = string_views(out@);
            out.push(available[i].clone());
            assert(string_views(out@) =~= before.push(available@[i as int]@));
        }
        i += 1;
    }
    assert(available@.take(available.len() as int) =~= available@);
    if out.len() != requested.len() {
        return Err("one or more conversation turns are no longer available".to_owned());
    }
    Ok(out)
}

/// How many times, at most, the loop waits for cancelled runs to end before
/// it goes on.
pub const DRAIN_WAITS: u32 = 100;

/// Whether draining waits once more: a run is still in flight and fewer than
/// [`DRAIN_WAITS`] waits were made.
pub fn keep_draining(waits: u32, runs_in_flight: bool) -> (r: bool)
    ensures
        r == (runs_in_flight && waits < DRAIN_WAITS),
{
    runs_in_flight && waits < DRAIN_WAITS
}

/// Whether a command's work succeeded: its own result and, when the plan
/// asks for it, reading the context meters again after it.
pub fn command_succeeded(plan: &ActorPlan, work_ok: bool, refresh_ok: bool) -> (r: bool)
    ensures
        r == (work_ok && (!plan.refresh_context || refresh_ok)),
{
    work_ok && (!plan.refresh_context || refresh_ok)
}

/// What the loop does once a command's work is done.
pub struct AfterWork {
    /// Drop the cached resources.
    pub clear_cache: bool,
    /// The engine state to show, when it changes.
    pub set_engine: Option<EngineState>,
    /// Release the admin reservation now.
    pub release: bool,
}

/// After the work: the cache and the engine state change only when the
/// command succeeded and its plan says so; the reservation is released when
/// the plan says so, whatever the result.
pub fn after_work(plan: &ActorPlan, succeeded: bool, has_agent: bool) -> (r: AfterWork)
    ensures
        r.clear_cache == (succeeded && plan.clear_cache),
        r.set_engine == (if succeeded && plan.set_engine {
            Some(
                if has_agent {
                    EngineState::Ready
                } else {
                    EngineState::Cold
                },
            )
        } else {
            None
        }),
        r.release == (plan.release == Release::AfterWork),
{
    let set_engine = if succeeded && plan.set_engine {
        Some(engine_after_change(has_agent))
    } else {
        None
    };
    let release = match plan.release {
        Release::AfterWork => true,
        _ => false,
    };
    AfterWork { clear_cache: succeeded && plan.clear_cache, set_engine, release }
}

} // verus!
