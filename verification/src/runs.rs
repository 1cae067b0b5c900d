//! The registry of runs in flight and the admin reservation: which sessions
//! are busy, when a new turn may start, when an admin operation may run, and
//! where a message sent during a running turn is queued.
use crate::api::{api_error_is, ApiError, CONFLICT, INTERNAL, NOT_FOUND, SERVICE_UNAVAILABLE};
use crate::persona_assets::{is_valid_asset_id, valid_asset_id};
use crate::text::{chars_of, extend_str, str_eq, string_of};
use vstd::prelude::*;

verus! {

/// Who a turn's prompt is attributed to.
#[derive(Clone, Copy, PartialEq, Eq, Structural)]
pub enum Audience {
    /// The machine's own rounds and the REPL.
    Owner,
    /// The WebUI and other outside clients.
    External,
}

/// What started a turn.
#[derive(Clone, Copy, PartialEq, Eq, Structural)]
pub enum Origin {
    Human,
    GoalRound,
    JobWake,
}

/// A run in flight.
pub struct RunInfo {
    pub session_id: String,
    pub audience: Audience,
    /// The turn the run works on, once it is known.
    pub turn_id: Option<String>,
    pub origin: Origin,
    /// Whether cancellation was requested.
    pub cancel_requested: bool,
    /// Whether the run answers a platform conversation.
    pub platform_followup: bool,
    /// Whether the run's turn has its queue yet, so that follow-ups can be
    /// queued into it or withdrawn from it.
    pub queue_ready: bool,
}

/// The mathematical view of a run.
pub struct RunView {
    pub session: Seq<char>,
    pub audience: Audience,
    pub turn: Option<Seq<char>>,
    pub origin: Origin,
    pub cancel_requested: bool,
    pub platform_followup: bool,
    pub queue_ready: bool,
}

pub open spec fn run_view(r: RunInfo) -> RunView {
    RunView {
        session: r.session_id@,
        audience: r.audience,
        turn: match r.turn_id {
            Some(t) => Some(t@),
            None => None,
        },
        origin: r.origin,
        cancel_requested: r.cancel_requested,
        platform_followup: r.platform_followup,
        queue_ready: r.queue_ready,
    }
}

/// A turn asked from the WebUI of this machine: an outside client's prompt
/// that does not answer a platform conversation.
pub open spec fn is_local_webui(r: RunView) -> bool {
    r.audience == Audience::External && !r.platform_followup
}

pub type Runs = Seq<(Seq<char>, RunView)>;

pub open spec fn runs_view(v: Seq<(String, RunInfo)>) -> Runs {
    v.map_values(|e: (String, RunInfo)| (e.0@, run_view(e.1)))
}

/// No run id occurs twice.
pub open spec fn distinct_ids(rs: Runs) -> bool {
    forall|i: int, j: int| 0 <= i < j < rs.len() ==> rs[i].0 != rs[j].0
}

/// Whether some run of the session is in flight.
pub open spec fn has_runs(rs: Runs, session: Seq<char>) -> bool {
    exists|i: int| 0 <= i < rs.len() && (#[trigger] rs[i]).1.session == session
}

/// Whether an admin reservation holds the session: a global one holds every
/// session, a per-session one only its own.
pub open spec fn blocks(busy: bool, admin_session: Option<Seq<char>>, session: Seq<char>) -> bool {
    busy && match admin_session {
        None => true,
        Some(s) => s == session,
    }
}

/// Whether the run is an autonomous goal round.
pub open spec fn is_goal_round(r: RunView) -> bool {
    r.origin is GoalRound
}

/// The audience a message queued into this run is attributed to: goal rounds
/// take the owner's, every other run the outside client's.
pub open spec fn followup_audience_of(r: RunView) -> Audience {
    if is_goal_round(r) {
        Audience::Owner
    } else {
        Audience::External
    }
}

/// The registry: runs in flight by id, and the admin reservation.
pub struct RunRegistry {
    runs: Vec<(String, RunInfo)>,
    admin_busy: bool,
    admin_session: Option<String>,
}

/// Why a reservation or a start is refused: an admin operation or a run is
/// in the way.
pub enum Busy {
    /// The admin reservation is held, or runs are in flight where it needs
    /// none.
    AdminBusy,
}

/// What an admin operation hears back from the agent worker.
pub enum WorkerReply {
    /// The command could not be sent: the worker is gone.
    Unreachable,
    /// The worker stopped before it answered.
    Stopped,
    Done,
    /// The worker refused the operation.
    Invalid(String),
    /// The operation failed inside the worker; the message is already safe
    /// to show.
    Internal(String),
}

pub open spec fn opt_view(o: Option<String>) -> Option<Seq<char>> {
    match o {
        Some(s) => Some(s@),
        None => None,
    }
}

/// The position of a run id, or -1.
pub open spec fn run_index(rs: Runs, id: Seq<char>) -> int
    decreases rs.len(),
{
    if rs.len() == 0 {
        -1
    } else if rs.last().0 == id {
        rs.len() - 1
    } else {
        run_index(rs.drop_last(), id)
    }
}

pub proof fn lemma_run_index(rs: Runs, id: Seq<char>)
    ensures
        -1 <= run_index(rs, id) < rs.len(),
        run_index(rs, id) >= 0 ==> rs[run_index(rs, id)].0 == id,
        run_index(rs, id) < 0 ==> forall|k: int| 0 <= k < rs.len() ==> rs[k].0 != id,
    decreases rs.len(),
{
    if rs.len() > 0 && rs.last().0 != id {
        let t = rs.drop_last();
        lemma_run_index(t, id);
        assert forall|k: int| 0 <= k < t.len() implies t[k] == rs[k] by {}
    }
}

/// The run with the given id.
pub open spec fn run_of(rs: Runs, id: Seq<char>) -> Option<RunView> {
    let i = run_index(rs, id);
    if i < 0 {
        None
    } else {
        Some(rs[i].1)
    }
}

/// The registry after inserting a run under `id` (replacing a run of that
/// id).
pub open spec fn runs_inserted(rs: Runs, id: Seq<char>, r: RunView) -> Runs {
    let i = run_index(rs, id);
    if i < 0 {
        rs.push((id, r))
    } else {
        rs.update(i, (id, r))
    }
}

/// The registry after removing the run `id`.
pub open spec fn runs_removed(rs: Runs, id: Seq<char>) -> Runs {
    let i = run_index(rs, id);
    if i < 0 {
        rs
    } else {
        rs.remove(i)
    }
}

/// The runs after requesting cancellation of every run of the session for
/// which `pick` holds.
pub open spec fn cancel_where(rs: Runs, session: Seq<char>, goal_only: bool) -> Runs {
    rs.map_values(
        |e: (Seq<char>, RunView)|
            if e.1.session == session && (!goal_only || is_goal_round(e.1)) {
                (e.0, RunView { cancel_requested: true, ..e.1 })
            } else {
                e
            },
    )
}

/// The run a message for the session is queued into: `None` when the
/// session has no run, or its runs are neither all the outside client's nor
/// all goal rounds (a new turn is then started and meets the busy gate);
/// otherwise the one run of the session with the audience of the first of
/// its runs and a known turn, or an error when there is not exactly one.
pub enum QueueTarget {
    NotRunning,
    Target { run_id: String, turn_id: String, audience: Audience },
    NotReady,
}

pub open spec fn all_runs_match(rs: Runs, session: Seq<char>, a: Audience) -> bool {
    forall|i: int| 0 <= i < rs.len() && (#[trigger] rs[i]).1.session == session ==> rs[i].1.audience == a
}

pub open spec fn all_goal_rounds(rs: Runs, session: Seq<char>) -> bool {
    forall|i: int| 0 <= i < rs.len() && (#[trigger] rs[i]).1.session == session ==> is_goal_round(rs[i].1)
}

/// Whether run `i` is a queue candidate: of the session, with the audience,
/// with a known turn.
pub open spec fn candidate(rs: Runs, i: int, session: Seq<char>, a: Audience) -> bool {
    0 <= i < rs.len() && rs[i].1.session == session && rs[i].1.audience == a && rs[i].1.turn is Some
}

/// The index of the first run of the session.
pub open spec fn first_of_session(rs: Runs, session: Seq<char>) -> int
    decreases rs.len(),
{
    if rs.len() == 0 {
        -1
    } else if rs[0].1.session == session {
        0
    } else {
        let k = first_of_session(rs.drop_first(), session);
        if k < 0 {
            -1
        } else {
            k + 1
        }
    }
}

proof fn lemma_first_of_session(rs: Runs, session: Seq<char>)
    ensures
        -1 <= first_of_session(rs, session) < rs.len(),
        first_of_session(rs, session) >= 0 ==> rs[first_of_session(rs, session)].1.session == session,
        first_of_session(rs, session) < 0 ==> !has_runs(rs, session),
    decreases rs.len(),
{
    if rs.len() > 0 && rs[0].1.session != session {
        let t = rs.drop_first();
        lemma_first_of_session(t, session);
        if first_of_session(t, session) < 0 {
            assert forall|k: int| 0 <= k < rs.len() implies (#[trigger] rs[k]).1.session != session by {
                if k > 0 {
                    assert(rs[k] == t[k - 1]);
                }
            }
        }
    }
}

impl RunRegistry {
    pub closed spec fn view(&self) -> Runs {
        runs_view(self.runs@)
    }

    pub closed spec fn wf(&self) -> bool {
        distinct_ids(self.view())
    }

    /// Whether an admin reservation is held.
    pub closed spec fn busy(&self) -> bool {
        self.admin_busy
    }

    /// The session a per-session reservation holds, if it is one.
    pub closed spec fn reserved(&self) -> Option<Seq<char>> {
        opt_view(self.admin_session)
    }

    /// No run, no reservation.
    pub fn new() -> (r: Self)
        ensures
            r.wf(),
            r.view() == Seq::<(Seq<char>, RunView)>::empty(),
            !r.busy(),
            r.reserved() is None,
    {
        let r = RunRegistry { runs: Vec::new(), admin_busy: false, admin_session: None };
        assert(r.view() =~= Seq::<(Seq<char>, RunView)>::empty());
        r
    }

    fn position(&self, id: &str) -> (r: Option<usize>)
        ensures
            match r {
                Some(i) => run_index(self.view(), id@) == i && i < self.runs.len(),
                None => run_index(self.view(), id@) < 0,
            },
    {
        let ghost s = self.view();
        proof {
            lemma_run_index(s, id@);
        }
        let mut j: usize = self.runs.len();
        assert(s.take(j as int) =~= s);
        while j > 0
            invariant
                j <= self.runs.len(),
                s == self.view(),
                s.len() == self.runs.len(),
                run_index(s, id@) == run_index(s.take(j as int), id@),
            decreases j,
        {
            assert(s.take(j as int).drop_last() =~= s.take(j - 1));
            assert(s[j - 1].0 == self.runs@[j - 1].0@);
            if str_eq(self.runs[j - 1].0.as_str(), id) {
                return Some(j - 1);
            }
            j -= 1;
        }
        None
    }

    /// The run with the given id.
    pub fn get(&self, run_id: &str) -> (r: Option<&RunInfo>)
        ensures
            match r {
                Some(info) => run_of(self.view(), run_id@) == Some(run_view(*info)),
                None => run_of(self.view(), run_id@) is None,
            },
    {
        match self.position(run_id) {
            Some(i) => {
                assert(self.view()[i as int] == (self.runs@[i as int].0@, run_view(self.runs@[i as int].1)));
                Some(&self.runs[i].1)
            },
            None => None,
        }
    }

    /// Whether a run of the session is in flight.
    pub fn session_has_runs(&self, session_id: &str) -> (r: bool)
        ensures
            r == has_runs(self.view(), session_id@),
    {
        let mut i: usize = 0;
        while i < self.runs.len()
            invariant
                i <= self.runs.len(),
                forall|k: int| 0 <= k < i ==> (#[trigger] self.view()[k]).1.session != session_id@,
            decreases self.runs.len() - i,
        {
            assert(self.view()[i as int].1.session == self.runs@[i as int].1.session_id@);
            if str_eq(self.runs[i].1.session_id.as_str(), session_id) {
                assert(self.view()[i as int].1.session == session_id@);
                return true;
            }
            i += 1;
        }
        false
    }

    /// Whether the admin reservation holds the session.
    pub fn admin_blocks_session(&self, session_id: &str) -> (r: bool)
        ensures
            r == blocks(self.busy(), self.reserved(), session_id@),
    {
        self.admin_busy && match &self.admin_session {
            None => true,
            Some(s) => str_eq(s.as_str(), session_id),
        }
    }

    /// The global admin reservation (configuration and model changes): no
    /// run may be in flight anywhere.
    pub fn reserve_admin(&mut self) -> (r: Result<(), Busy>)
        ensures
            final(self).view() == old(self).view(),
            final(self).wf() == old(self).wf(),
            match r {
                Ok(_) => old(self).view().len() == 0 && !old(self).busy() && final(self).busy()
                    && final(self).reserved() is None,
                Err(_) => (old(self).view().len() > 0 || old(self).busy()) && final(self).busy()
                    == old(self).busy() && final(self).reserved() == old(self).reserved(),
            },
    {
        if self.runs.len() > 0 || self.admin_busy {
            return Err(Busy::AdminBusy);
        }
        self.admin_busy = true;
        self.admin_session = None;
        Ok(())
    }

    /// The per-session admin reservation (reset, undo, compaction,
    /// deletion): only the target session must be idle.
    pub fn reserve_admin_for_session(&mut self, session_id: &str) -> (r: Result<(), Busy>)
        ensures
            final(self).view() == old(self).view(),
            final(self).wf() == old(self).wf(),
            match r {
                Ok(_) => !old(self).busy() && !has_runs(old(self).view(), session_id@)
                    && final(self).busy() && final(self).reserved() == Some(session_id@),
                Err(_) => (old(self).busy() || has_runs(old(self).view(), session_id@))
                    && final(self).busy() == old(self).busy() && final(self).reserved()
                    == old(self).reserved(),
            },
    {
        if self.admin_busy || self.session_has_runs(session_id) {
            return Err(Busy::AdminBusy);
        }
        self.admin_busy = true;
        self.admin_session = Some(session_id.to_owned());
        Ok(())
    }

    /// The light admin reservation (session and model updates): only other
    /// admin operations are in the way; runs may go on.
    pub fn reserve_admin_light(&mut self) -> (r: Result<(), Busy>)
        ensures
            final(self).view() == old(self).view(),
            final(self).wf() == old(self).wf(),
            match r {
                Ok(_) => !old(self).busy() && final(self).busy() && final(self).reserved() is None,
                Err(_) => old(self).busy() && final(self).busy() && final(self).reserved()
                    == old(self).reserved(),
            },
    {
        if self.admin_busy {
            return Err(Busy::AdminBusy);
        }
        self.admin_busy = true;
        self.admin_session = None;
        Ok(())
    }

    /// Checks a request to withdraw a queued prompt; see [`queue_removal`].
    pub fn check_queue_removal(&self, run_id: &str, turn_id: &str, prompt_id: &str) -> (r: Result<String, ApiError>)
        ensures
            match (r, queue_removal(self.view(), run_id@, turn_id@, prompt_id@)) {
                (Ok(s), Ok(t)) => s@ == t,
                (Err(e), Err((status, message))) => api_error_is(e, status, message),
                _ => false,
            },
    {
        if !valid_asset_id(prompt_id) {
            return Err(ApiError::new(NOT_FOUND, "queued prompt not found"));
        }
        match self.get(run_id) {
            None => Err(ApiError::new(NOT_FOUND, "queued prompt target not found")),
            Some(run) => {
                let same_turn = match &run.turn_id {
                    Some(t) => str_eq(t.as_str(), turn_id),
                    None => false,
                };
                if run.audience != web_followup_audience(run) || !same_turn {
                    return Err(ApiError::new(NOT_FOUND, "queued prompt target not found"));
                }
                if !run.queue_ready {
                    return Err(ApiError::new(CONFLICT, "the active turn is not ready"));
                }
                Ok(run.session_id.clone())
            },
        }
    }

    /// Ends an admin reservation.
    pub fn release_admin(&mut self)
        ensures
            final(self).view() == old(self).view(),
            final(self).wf() == old(self).wf(),
            !final(self).busy(),
            final(self).reserved() is None,
    {
        self.admin_busy = false;
        self.admin_session = None;
    }

    /// Settles an admin operation on what the agent worker answered. When
    /// the worker never got the command, or stopped before it answered, the
    /// reservation is released here; otherwise the worker released it. A
    /// refusal answers `invalid_status` (400 for most operations, 409 for a
    /// conversation reset); `doing` names the operation in the message of a
    /// worker that stopped.
    pub fn settle_admin_reply(&mut self, reply: WorkerReply, invalid_status: u16, doing: &str) -> (r: Result<(), ApiError>)
        ensures
            final(self).view() == old(self).view(),
            final(self).wf() == old(self).wf(),
            reply is Unreachable || reply is Stopped ==> !final(self).busy() && final(self).reserved() is None,
            !(reply is Unreachable || reply is Stopped) ==> final(self).busy() == old(self).busy()
                && final(self).reserved() == old(self).reserved(),
            match reply {
                WorkerReply::Unreachable => r matches Err(e) && api_error_is(
                    e,
                    SERVICE_UNAVAILABLE,
                    "agent worker is unavailable"@,
                ),
                WorkerReply::Stopped => r matches Err(e) && api_error_is(
                    e,
                    SERVICE_UNAVAILABLE,
                    "agent worker stopped before "@ + doing@,
                ),
                WorkerReply::Done => r is Ok,
                WorkerReply::Invalid(m) => r matches Err(e) && api_error_is(e, invalid_status, m@),
                WorkerReply::Internal(m) => r matches Err(e) && api_error_is(e, INTERNAL, m@),
            },
    {
        match reply {
            WorkerReply::Unreachable => {
                self.release_admin();
                Err(ApiError::new(SERVICE_UNAVAILABLE, "agent worker is unavailable"))
            },
            WorkerReply::Stopped => {
                self.release_admin();
                let mut v = chars_of("agent worker stopped before ");
                extend_str(&mut v, doing);
                Err(ApiError { status: SERVICE_UNAVAILABLE, message: string_of(&v) })
            },
            WorkerReply::Done => Ok(()),
            WorkerReply::Invalid(m) => Err(ApiError { status: invalid_status, message: m }),
            WorkerReply::Internal(m) => Err(ApiError { status: INTERNAL, message: m }),
        }
    }

    /// Registers a run under its id (replacing one of the same id).
    pub fn insert_run(&mut self, run_id: &str, info: RunInfo)
        requires
            old(self).wf(),
        ensures
            final(self).wf(),
            final(self).view() == runs_inserted(old(self).view(), run_id@, run_view(info)),
            final(self).busy() == old(self).busy(),
            final(self).reserved() == old(self).reserved(),
    {
        let ghost s = self.view();
        let ghost rv = run_view(info);
        proof {
            lemma_run_index(s, run_id@);
            lemma_inserted_distinct(s, run_id@, rv);
        }
        match self.position(run_id) {
            None => {
                self.runs.push((run_id.to_owned(), info));
                assert(self.view() =~= s.push((run_id@, rv)));
            },
            Some(i) => {
                self.runs.set(i, (run_id.to_owned(), info));
                assert(self.view() =~= s.update(i as int, (run_id@, rv)));
            },
        }
    }

    /// Starts a turn's run in a session: refused while an admin reservation
    /// holds the session or a run of it is in flight ("GQY is busy in this
    /// conversation").
    pub fn start_run(&mut self, run_id: &str, info: RunInfo) -> (r: Result<(), ApiError>)
        requires
            old(self).wf(),
        ensures
            final(self).wf(),
            final(self).busy() == old(self).busy(),
            final(self).reserved() == old(self).reserved(),
            match r {
                Ok(_) => !blocks(old(self).busy(), old(self).reserved(), info.session_id@)
                    && !has_runs(old(self).view(), info.session_id@) && final(self).view()
                    == runs_inserted(old(self).view(), run_id@, run_view(info)),
                Err(e) => (blocks(old(self).busy(), old(self).reserved(), info.session_id@)
                    || has_runs(old(self).view(), info.session_id@)) && final(self).view() == old(
                    self,
                ).view() && api_error_is(e, CONFLICT, "GQY is busy in this conversation"@),
            },
    {
        if self.admin_blocks_session(info.session_id.as_str()) || self.session_has_runs(info.session_id.as_str()) {
            return Err(ApiError::new(CONFLICT, "GQY is busy in this conversation"));
        }
        self.insert_run(run_id, info);
        Ok(())
    }

    /// Removes a finished run; whether it was registered.
    pub fn finish_run(&mut self, run_id: &str) -> (r: bool)
        requires
            old(self).wf(),
        ensures
            final(self).wf(),
            final(self).view() == runs_removed(old(self).view(), run_id@),
            r == (run_index(old(self).view(), run_id@) >= 0),
            final(self).busy() == old(self).busy(),
            final(self).reserved() == old(self).reserved(),
    {
        let ghost s = self.view();
        proof {
            lemma_run_index(s, run_id@);
        }
        match self.position(run_id) {
            None => false,
            Some(i) => {
                self.runs.remove(i);
                assert(self.view() =~= s.remove(i as int));
                assert forall|a: int, b: int| 0 <= a < b < self.view().len() implies self.view()[a].0 != self.view()[b].0 by {
                    let a2 = if a < i { a } else { a + 1 };
                    let b2 = if b < i { b } else { b + 1 };
                    assert(self.view()[a] == s[a2]);
                    assert(self.view()[b] == s[b2]);
                }
                true
            },
        }
    }

    /// Whether every run of the session has the audience.
    pub fn session_runs_match_audience(&self, session_id: &str, audience: Audience) -> (r: bool)
        ensures
            r == all_runs_match(self.view(), session_id@, audience),
    {
        let mut i: usize = 0;
        while i < self.runs.len()
            invariant
                i <= self.runs.len(),
                forall|k: int| 0 <= k < i && (#[trigger] self.view()[k]).1.session == session_id@ ==> self.view()[k].1.audience == audience,
            decreases self.runs.len() - i,
        {
            let r = &self.runs[i].1;
            assert(self.view()[i as int].1 == run_view(*r));
            if str_eq(r.session_id.as_str(), session_id) && r.audience != audience {
                return false;
            }
            i += 1;
        }
        true
    }

    /// Whether every run of the session is a goal round.
    pub fn session_runs_are_goal_rounds(&self, session_id: &str) -> (r: bool)
        ensures
            r == all_goal_rounds(self.view(), session_id@),
    {
        let mut i: usize = 0;
        while i < self.runs.len()
            invariant
                i <= self.runs.len(),
                forall|k: int| 0 <= k < i && (#[trigger] self.view()[k]).1.session == session_id@ ==> is_goal_round(self.view()[k].1),
            decreases self.runs.len() - i,
        {
            let r = &self.runs[i].1;
            assert(self.view()[i as int].1 == run_view(*r));
            if str_eq(r.session_id.as_str(), session_id) && !matches!(r.origin, Origin::GoalRound) {
                return false;
            }
            i += 1;
        }
        true
    }

    /// Whether an autonomous goal round of the session is in flight.
    pub fn session_has_goal_round_run(&self, session_id: &str) -> (r: bool)
        ensures
            r == exists|i: int| 0 <= i < self.view().len() && (#[trigger] self.view()[i]).1.session == session_id@ && is_goal_round(self.view()[i].1),
    {
        let mut i: usize = 0;
        while i < self.runs.len()
            invariant
                i <= self.runs.len(),
                forall|k: int| 0 <= k < i ==> !((#[trigger] self.view()[k]).1.session == session_id@ && is_goal_round(self.view()[k].1)),
            decreases self.runs.len() - i,
        {
            let r = &self.runs[i].1;
            assert(self.view()[i as int].1 == run_view(*r));
            if str_eq(r.session_id.as_str(), session_id) && matches!(r.origin, Origin::GoalRound) {
                return true;
            }
            i += 1;
        }
        false
    }

    /// The one run of the session with the audience and a known turn: its id
    /// and turn; `None` when there is no such run or more than one.
    pub fn unique_run_target(&self, session_id: &str, audience: Audience) -> (r: Option<(String, String)>)
        ensures
            match r {
                Some((run, turn)) => exists|i: int|
                    candidate(self.view(), i, session_id@, audience) && self.view()[i].0 == run@
                        && self.view()[i].1.turn == Some(turn@) && forall|j: int|
                        candidate(self.view(), j, session_id@, audience) ==> j == i,
                None => !exists|i: int|
                    #[trigger] candidate(self.view(), i, session_id@, audience) && (forall|k: int|
                        #[trigger] candidate(self.view(), k, session_id@, audience) ==> k == i),
            },
    {
        let mut found: Option<usize> = None;
        let mut i: usize = 0;
        while i < self.runs.len()
            invariant
                i <= self.runs.len(),
                match found {
                    Some(f) => f < i && candidate(self.view(), f as int, session_id@, audience) && forall|k: int|
                        0 <= k < i && candidate(self.view(), k, session_id@, audience) ==> k == f,
                    None => forall|k: int| 0 <= k < i ==> !candidate(self.view(), k, session_id@, audience),
                },
            decreases self.runs.len() - i,
        {
            let r = &self.runs[i].1;
            assert(self.view()[i as int].1 == run_view(*r));
            if str_eq(r.session_id.as_str(), session_id) && r.audience == audience && r.turn_id.is_some() {
                assert(candidate(self.view(), i as int, session_id@, audience));
                if found.is_some() {
                    let f = found.unwrap();
                    assert(candidate(self.view(), f as int, session_id@, audience));
                    assert(!exists|x: int|
                        #[trigger] candidate(self.view(), x, session_id@, audience) && (forall|k: int|
                            #[trigger] candidate(self.view(), k, session_id@, audience) ==> k == x)) by {
                        if exists|x: int|
                            #[trigger] candidate(self.view(), x, session_id@, audience) && (forall|k: int|
                                #[trigger] candidate(self.view(), k, session_id@, audience) ==> k == x) {
                            let x = choose|x: int|
                                #[trigger] candidate(self.view(), x, session_id@, audience) && (forall|k: int|
                                    #[trigger] candidate(self.view(), k, session_id@, audience) ==> k == x);
                            assert(f as int == x);
                            assert(i as int == x);
                        }
                    }
                    return None;
                }
                found = Some(i);
            }
            i += 1;
        }
        match found {
            None => None,
            Some(f) => {
                let e = &self.runs[f];
                assert(self.view()[f as int] == (e.0@, run_view(e.1)));
                match &e.1.turn_id {
                    Some(t) => Some((e.0.clone(), t.clone())),
                    None => None,
                }
            },
        }
    }

    /// Where a message sent to the session while it runs goes (see
    /// [`QueueTarget`]).
    pub fn queue_into_running_session(&self, session_id: &str) -> (r: QueueTarget)
        ensures
            !has_runs(self.view(), session_id@) ==> r is NotRunning,
            has_runs(self.view(), session_id@) && !all_runs_match(self.view(), session_id@, Audience::External)
                && !all_goal_rounds(self.view(), session_id@) ==> r is NotRunning,
            r matches QueueTarget::Target { run_id, turn_id, audience } ==> {
                &&& has_runs(self.view(), session_id@)
                &&& audience == followup_audience_of(self.view()[first_of_session(self.view(), session_id@)].1)
                &&& exists|i: int|
                    candidate(self.view(), i, session_id@, audience) && self.view()[i].0 == run_id@
                        && self.view()[i].1.turn == Some(turn_id@) && forall|j: int|
                        candidate(self.view(), j, session_id@, audience) ==> j == i
            },
            r is NotReady ==> has_runs(self.view(), session_id@) && (all_runs_match(self.view(), session_id@, Audience::External)
                || all_goal_rounds(self.view(), session_id@)) && ({
                let a = followup_audience_of(self.view()[first_of_session(self.view(), session_id@)].1);
                !exists|i: int|
                    #[trigger] candidate(self.view(), i, session_id@, a) && (forall|k: int|
                        #[trigger] candidate(self.view(), k, session_id@, a) ==> k == i)
            }),
            has_runs(self.view(), session_id@) && (all_runs_match(self.view(), session_id@, Audience::External)
                || all_goal_rounds(self.view(), session_id@)) ==> !(r is NotRunning),
    {
        if !self.session_has_runs(session_id) {
            return QueueTarget::NotRunning;
        }
        if !self.session_runs_match_audience(session_id, Audience::External) && !self.session_runs_are_goal_rounds(session_id) {
            return QueueTarget::NotRunning;
        }
        proof {
            lemma_first_of_session(self.view(), session_id@);
        }
        let audience = self.first_followup_audience(session_id);
        match self.unique_run_target(session_id, audience) {
            Some((run_id, turn_id)) => QueueTarget::Target { run_id, turn_id, audience },
            None => QueueTarget::NotReady,
        }
    }

    /// The follow-up audience of the first run of the session (the outside
    /// client's when there is none).
    fn first_followup_audience(&self, session_id: &str) -> (a: Audience)
        ensures
            first_of_session(self.view(), session_id@) >= 0 ==> a == followup_audience_of(
                self.view()[first_of_session(self.view(), session_id@)].1,
            ),
    {
        let ghost s = self.view();
        let mut i: usize = 0;
        assert(s.skip(0) =~= s);
        while i < self.runs.len()
            invariant
                i <= self.runs.len(),
                s == self.view(),
                forall|k: int| 0 <= k < i ==> (#[trigger] s[k]).1.session != session_id@,
                first_of_session(s, session_id@) == if first_of_session(s.skip(i as int), session_id@) < 0 {
                    -1
                } else {
                    first_of_session(s.skip(i as int), session_id@) + i
                },
            decreases self.runs.len() - i,
        {
            let r = &self.runs[i].1;
            assert(s[i as int].1 == run_view(*r));
            assert(s.skip(i as int)[0] == s[i as int]);
            if str_eq(r.session_id.as_str(), session_id) {
                return if matches!(r.origin, Origin::GoalRound) {
                    Audience::Owner
                } else {
                    Audience::External
                };
            }
            assert(s.skip(i as int).drop_first() =~= s.skip(i + 1));
            i += 1;
        }
        Audience::External
    }

    /// Requests cancellation of a run: its session, and whether it was a goal
    /// round (whose goal is then disarmed); `None` when no such run is in
    /// flight.
    pub fn cancel_run_and_disarm_goal(&mut self, run_id: &str) -> (r: Option<(String, bool)>)
        requires
            old(self).wf(),
        ensures
            final(self).wf(),
            final(self).busy() == old(self).busy(),
            final(self).reserved() == old(self).reserved(),
            match r {
                Some((session, goal)) => match run_of(old(self).view(), run_id@) {
                    Some(rv) => session@ == rv.session && goal == is_goal_round(rv) && final(self).view()
                        == runs_inserted(old(self).view(), run_id@, RunView { cancel_requested: true, ..rv }),
                    None => false,
                },
                None => run_of(old(self).view(), run_id@) is None && final(self).view() == old(self).view(),
            },
    {
        let ghost s = self.view();
        proof {
            lemma_run_index(s, run_id@);
        }
        match self.position(run_id) {
            None => None,
            Some(i) => {
                let ghost rv = s[i as int].1;
                assert(s[i as int] == (self.runs@[i as int].0@, run_view(self.runs@[i as int].1)));
                let session = self.runs[i].1.session_id.clone();
                let goal = matches!(self.runs[i].1.origin, Origin::GoalRound);
                let ghost old_runs = self.runs@;
                let mut entry = self.runs.remove(i);
                entry.1.cancel_requested = true;
                self.runs.insert(i, entry);
                assert(self.runs@ =~= old_runs.update(i as int, entry));
                assert(self.view() =~= s.update(i as int, (run_id@, RunView { cancel_requested: true, ..rv })));
                proof {
                    lemma_inserted_distinct(s, run_id@, RunView { cancel_requested: true, ..rv });
                }
                Some((session, goal))
            },
        }
    }

    fn cancel_matching(&mut self, session_id: &str, goal_only: bool)
        requires
            old(self).wf(),
        ensures
            final(self).wf(),
            final(self).view() == cancel_where(old(self).view(), session_id@, goal_only),
            final(self).busy() == old(self).busy(),
            final(self).reserved() == old(self).reserved(),
    {
        let ghost s = self.view();
        let ghost orig = self.runs@;
        let ghost target = cancel_where(s, session_id@, goal_only);
        let mut rest: Vec<(String, RunInfo)> = Vec::new();
        std::mem::swap(&mut rest, &mut self.runs);
        let n = rest.len();
        let mut k: usize = 0;
        assert(runs_view(self.runs@) =~= target.take(0));
        while rest.len() > 0
            invariant
                k + rest.len() == n,
                n == orig.len(),
                s == runs_view(orig),
                target == cancel_where(s, session_id@, goal_only),
                rest@ == orig.skip(k as int),
                runs_view(self.runs@) == target.take(k as int),
                self.busy() == old(self).busy(),
                self.reserved() == old(self).reserved(),
            decreases rest.len(),
        {
            let mut e = rest.remove(0);
            assert(e == orig[k as int]);
            assert(s[k as int] == (e.0@, run_view(e.1)));
            let hit = str_eq(e.1.session_id.as_str(), session_id) && (!goal_only || matches!(e.1.origin, Origin::GoalRound));
            if hit {
                e.1.cancel_requested = true;
            }
            let ghost before = self.runs@;
            self.runs.push(e);
            assert(target[k as int] == (e.0@, run_view(e.1)));
            assert(self.runs@ == before.push(e));
            assert(runs_view(self.runs@) =~= runs_view(before).push((e.0@, run_view(e.1))));
            assert(target.take(k + 1) =~= target.take(k as int).push(target[k as int]));
            assert(runs_view(self.runs@) =~= target.take(k + 1));
            assert(orig.skip(k + 1) =~= orig.skip(k as int).drop_first());
            k += 1;
        }
        assert(target.take(n as int) =~= target);
        assert forall|a: int, b: int| 0 <= a < b < target.len() implies target[a].0 != target[b].0 by {
            assert(target[a].0 == s[a].0);
            assert(target[b].0 == s[b].0);
        }
    }

    /// Requests cancellation of every goal round of the session (pause and
    /// clear of a goal); rounds started by people are left alone.
    pub fn cancel_goal_rounds_for_session(&mut self, session_id: &str)
        requires
            old(self).wf(),
        ensures
            final(self).wf(),
            final(self).view() == cancel_where(old(self).view(), session_id@, true),
            final(self).busy() == old(self).busy(),
            final(self).reserved() == old(self).reserved(),
    {
        self.cancel_matching(session_id, true);
    }

    /// Requests cancellation of every run of the session (before it is
    /// deleted).
    pub fn cancel_session_runs(&mut self, session_id: &str)
        requires
            old(self).wf(),
        ensures
            final(self).wf(),
            final(self).view() == cancel_where(old(self).view(), session_id@, false),
            final(self).busy() == old(self).busy(),
            final(self).reserved() == old(self).reserved(),
    {
        self.cancel_matching(session_id, false);
    }
}

impl RunRegistry {
    /// Whether the session is running WebUI turns of this machine: it has a
    /// run in flight and every run of it is one.
    pub fn session_is_running_local_webui(&self, session_id: &str) -> (r: bool)
        ensures
            r == (has_runs(self.view(), session_id@) && forall|i: int|
                0 <= i < self.view().len() && (#[trigger] self.view()[i]).1.session == session_id@
                    ==> is_local_webui(self.view()[i].1)),
    {
        let mut any = false;
        let mut i: usize = 0;
        while i < self.runs.len()
            invariant
                i <= self.runs.len(),
                any == exists|k: int| 0 <= k < i && (#[trigger] self.view()[k]).1.session == session_id@,
                forall|k: int| 0 <= k < i && (#[trigger] self.view()[k]).1.session == session_id@ ==> is_local_webui(self.view()[k].1),
            decreases self.runs.len() - i,
        {
            let r = &self.runs[i].1;
            assert(self.view()[i as int].1 == run_view(*r));
            if str_eq(r.session_id.as_str(), session_id) {
                if !(r.audience == Audience::External && !r.platform_followup) {
                    return false;
                }
                any = true;
            }
            i += 1;
        }
        any
    }
}

/// How a request to withdraw a queued prompt is answered before the queue
/// itself is touched: a prompt id that is no valid id is not found; the run
/// must exist, take follow-ups from the audience it was started for and work
/// on `turn` (else its target is not found); its queue must be ready (else
/// 409). Accepted, it gives the run's session.
pub open spec fn queue_removal(rs: Runs, run: Seq<char>, turn: Seq<char>, prompt: Seq<char>) -> Result<Seq<char>, (u16, Seq<char>)> {
    if !is_valid_asset_id(prompt) {
        Err((NOT_FOUND, "queued prompt not found"@))
    } else {
        match run_of(rs, run) {
            None => Err((NOT_FOUND, "queued prompt target not found"@)),
            Some(r) => if r.audience != followup_audience_of(r) || r.turn != Some(turn) {
                Err((NOT_FOUND, "queued prompt target not found"@))
            } else if !r.queue_ready {
                Err((CONFLICT, "the active turn is not ready"@))
            } else {
                Ok(r.session)
            },
        }
    }
}

/// The audience a message queued into a run is attributed to.
pub fn web_followup_audience(run: &RunInfo) -> (a: Audience)
    ensures
        a == followup_audience_of(run_view(*run)),
{
    if matches!(run.origin, Origin::GoalRound) {
        Audience::Owner
    } else {
        Audience::External
    }
}

/// While a per-session reservation holds a session, no run can start in it;
/// a global reservation holds every session.
pub proof fn law_reservation_excludes_runs(admin_session: Option<Seq<char>>, session: Seq<char>, other: Seq<char>)
    ensures
        admin_session == Some(session) ==> blocks(true, admin_session, session),
        admin_session is None ==> blocks(true, admin_session, other),
        admin_session == Some(session) && other != session ==> !blocks(true, admin_session, other),
{
}

/// A run started and then finished leaves the registry as it was.
pub proof fn law_start_finish_restores(rs: Runs, id: Seq<char>, r: RunView)
    requires
        distinct_ids(rs),
        run_index(rs, id) < 0,
    ensures
        runs_removed(runs_inserted(rs, id, r), id) == rs,
        has_runs(runs_inserted(rs, id, r), r.session),
{
    lemma_run_index(rs, id);
    let t = rs.push((id, r));
    assert(runs_inserted(rs, id, r) == t);
    lemma_run_index(t, id);
    assert(t.remove(t.len() - 1) =~= rs);
    assert(t[t.len() - 1].1.session == r.session);
}

/// Inserting a run keeps run ids distinct.
pub proof fn lemma_inserted_distinct(rs: Runs, id: Seq<char>, r: RunView)
    requires
        distinct_ids(rs),
    ensures
        distinct_ids(runs_inserted(rs, id, r)),
{
    lemma_run_index(rs, id);
}

} // verus!
