//! The decisions of the WebUI's start-up page: which runs a user sees, and
//! whether the queue and the redo button of the current session belong to
//! another process.
use crate::text::{str_eq, string_views};
use vstd::prelude::*;

verus! {

/// A turn that runs in the current session, as the session store reports
/// it.
pub struct RunningTarget {
    pub turn_id: String,
    /// The session whose queue takes prompts for the running turn.
    pub queue_session_id: Option<String>,
    /// The process that runs the turn.
    pub owner_pid: Option<u32>,
}

/// What the start-up page says about the current session's running turn.
pub struct RunningView {
    pub running_turn_id: Option<String>,
    /// Whether the running turn belongs to another process (no run of this
    /// daemon is active in the session) — its queue is then the one shown.
    pub external: bool,
    /// Whether prompts can be queued to that other process.
    pub external_queue_available: bool,
    /// Whether the redo candidate is offered (no run of this daemon active).
    pub offer_redo: bool,
}

/// The start-up view of the current session's running turn.
pub fn running_view(active_run: bool, target: Option<&RunningTarget>) -> (r: RunningView)
    ensures
        match target {
            Some(t) => r.running_turn_id is Some && r.running_turn_id.unwrap()@ == t.turn_id@,
            None => r.running_turn_id is None,
        },
        r.external == (!active_run && target is Some),
        r.external_queue_available == (!active_run && target is Some && target.unwrap().queue_session_id is Some
            && target.unwrap().owner_pid is Some),
        r.offer_redo == !active_run,
{
    let running_turn_id = match target {
        Some(t) => Some(t.turn_id.clone()),
        None => None,
    };
    let (external, available) = match target {
        Some(t) => if !active_run {
            (true, t.queue_session_id.is_some() && t.owner_pid.is_some())
        } else {
            (false, false)
        },
        None => (false, false),
    };
    RunningView { running_turn_id, external, external_queue_available: available, offer_redo: !active_run }
}

/// The runs (run id, session id) a user sees: those in sessions they own,
/// in order.
pub open spec fn owned_runs(runs: Seq<(Seq<char>, Seq<char>)>, owned: Seq<Seq<char>>) -> Seq<Seq<char>>
    decreases runs.len(),
{
    if runs.len() == 0 {
        seq![]
    } else {
        let before = owned_runs(runs.drop_last(), owned);
        if owned.contains(runs.last().1) {
            before.push(runs.last().0)
        } else {
            before
        }
    }
}

fn contains_str(v: &Vec<String>, s: &str) -> (r: bool)
    ensures
        r == string_views(v@).contains(s@),
{
    let ghost sv = string_views(v@);
    let mut i: usize = 0;
    while i < v.len()
        invariant
            i <= v.len(),
            sv == string_views(v@),
            sv.len() == v.len(),
            forall|k: int| 0 <= k < i ==> sv[k] != s@,
        decreases v.len() - i,
    {
        assert(sv[i as int] == v@[i as int]@);
        if str_eq(v[i].as_str(), s) {
            return true;
        }
        i += 1;
    }
    false
}

/// The ids of the runs a user sees: those whose session they own.
pub fn visible_runs(runs: &Vec<(String, String)>, owned_sessions: &Vec<String>) -> (r: Vec<String>)
    ensures
        string_views(r@) == owned_runs(crate::persona::pair_views(runs@), string_views(owned_sessions@)),
{
    let ghost rv = crate::persona::pair_views(runs@);
    let mut out: Vec<String> = Vec::new();
    let mut i: usize = 0;
    while i < runs.len()
        invariant
            i <= runs.len(),
            rv == crate::persona::pair_views(runs@),
            rv.len() == runs.len(),
            string_views(out@) == owned_runs(rv.take(i as int), string_views(owned_sessions@)),
        decreases runs.len() - i,
    {
        let ghost t = rv.take(i + 1);
        assert(t.drop_last() =~= rv.take(i as int));
        assert(t.last() == (runs@[i as int].0@, runs@[i as int].1@));
        if contains_str(owned_sessions, runs[i].1.as_str()) {
            let ghost before = string_views(out@);
            out.push(runs[i].0.clone());
            assert(string_views(out@) =~= before.push(runs@[i as int].0@));
        }
        i += 1;
    }
    assert(rv.take(runs.len() as int) =~= rv);
    out
}

} // verus!
