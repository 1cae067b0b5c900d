//! The goal-round driver's decisions: what a `/goal` command does to the
//! rounds in flight, what a run event asks of the driver, and the gates an
//! autonomous round must pass before it is claimed.
use crate::text::{chars_of, collapse_ws_seq, extend_str, str_eq, string_of};
use crate::event_data::{event_field, json_string_field};
use crate::persona::opt_chars;
use vstd::prelude::*;

verus! {

/// The first word of a command (`split_whitespace().next()`), or empty.
pub open spec fn first_word(s: Seq<char>) -> Seq<char> {
    let w = collapse_ws_seq(s);
    crate::text::before_first(w, seq![' '])
}

/// Whether a `/goal` command stops the goal rounds in flight: `pause` and
/// `clear` always (the user wants it to stop even if the command failed),
/// `edit` when it succeeded (the round restarts on the new goal).
pub open spec fn command_cancels(input: Seq<char>, succeeded: bool) -> bool {
    let verb = first_word(input);
    verb == "pause"@ || verb == "clear"@ || (verb == "edit"@ && succeeded)
}

/// What a `/goal` command answers and whether it stops the running goal
/// rounds of the session: the command's text, or its error's; the driver is
/// nudged in every case.
pub fn apply_goal_command(input: &str, outcome: Result<String, String>) -> (r: (String, bool))
    ensures
        r.0@ == match outcome {
            Ok(t) => t@,
            Err(e) => e@,
        },
        r.1 == command_cancels(input@, outcome is Ok),
{
    let succeeded = outcome.is_ok();
    let words = crate::text::collapse_whitespace(&chars_of(input));
    let space = vec![' '];
    assert(space@ =~= seq![' ']);
    let verb = crate::text::before_first_chars(&words, &space);
    let cancels = crate::text::eq_str(&verb, "pause") || crate::text::eq_str(&verb, "clear") || (
    crate::text::eq_str(&verb, "edit") && succeeded);
    let text = match outcome {
        Ok(t) => t,
        Err(e) => e,
    };
    (text, cancels)
}

/// The state of a goal.
pub enum GoalPhase {
    Active,
    Other,
}

/// What the driver knows when a session falls idle.
pub struct GoalSnapshot {
    pub phase: GoalPhase,
    pub armed: bool,
    /// 0 means no limit.
    pub max_rounds: u64,
    pub rounds_started: u64,
}

/// What the driver does when a session falls idle.
pub enum GoalGate {
    /// Not now.
    Skip,
    /// The round limit is reached: the goal is blocked and disarmed.
    BlockAtLimit,
    /// Claim the next round.
    Claim,
}

/// The gates, in order: not waiting for the user; the session idle (no admin
/// reservation on it, no run in flight); no queued human input; the session
/// readable and not platform-bound; an active, armed goal; rounds left.
pub open spec fn gate_of(
    awaiting_human: bool,
    admin_blocks: bool,
    session_has_runs: bool,
    queue_empty: bool,
    session_readable: bool,
    platform_bound: bool,
    goal: Option<GoalSnapshot>,
) -> GoalGate {
    if awaiting_human || admin_blocks || session_has_runs || !queue_empty || !session_readable
        || platform_bound {
        GoalGate::Skip
    } else {
        match goal {
            None => GoalGate::Skip,
            Some(g) => if !(g.phase is Active) || !g.armed {
                GoalGate::Skip
            } else if g.max_rounds > 0 && g.rounds_started >= g.max_rounds {
                GoalGate::BlockAtLimit
            } else {
                GoalGate::Claim
            },
        }
    }
}

/// `queue_empty` is whether the queued prompts could be read and are none.
pub fn goal_round_gate(
    awaiting_human: bool,
    admin_blocks: bool,
    session_has_runs: bool,
    queue_empty: bool,
    session_readable: bool,
    platform_bound: bool,
    goal: Option<GoalSnapshot>,
) -> (r: GoalGate)
    ensures
        r == gate_of(
            awaiting_human,
            admin_blocks,
            session_has_runs,
            queue_empty,
            session_readable,
            platform_bound,
            goal,
        ),
{
    if awaiting_human || admin_blocks || session_has_runs || !queue_empty || !session_readable
        || platform_bound {
        return GoalGate::Skip;
    }
    match goal {
        None => GoalGate::Skip,
        Some(g) => if !matches!(g.phase, GoalPhase::Active) || !g.armed {
            GoalGate::Skip
        } else if g.max_rounds > 0 && g.rounds_started >= g.max_rounds {
            GoalGate::BlockAtLimit
        } else {
            GoalGate::Claim
        },
    }
}

/// A round is never claimed while a run of the session is in flight, while
/// the user is awaited, or for a goal that is not armed.
pub proof fn law_no_round_over_a_busy_session(
    awaiting_human: bool,
    admin_blocks: bool,
    session_has_runs: bool,
    queue_empty: bool,
    session_readable: bool,
    platform_bound: bool,
    goal: Option<GoalSnapshot>,
)
    requires
        gate_of(
            awaiting_human,
            admin_blocks,
            session_has_runs,
            queue_empty,
            session_readable,
            platform_bound,
            goal,
        ) is Claim,
    ensures
        !awaiting_human,
        !admin_blocks,
        !session_has_runs,
        queue_empty,
        goal matches Some(g) && g.armed && g.phase is Active && (g.max_rounds == 0 || g.rounds_started
            < g.max_rounds),
{
}

/// A run event the driver listens to.
pub enum RunEvent {
    ToolStarted,
    Completed,
    Cancelled,
    Failed,
    Other,
}

/// What the driver does on an event.
pub enum GoalAction {
    Nothing,
    /// Mark the run as productive (it called a tool).
    MarkProductive,
    /// A goal round made no tool call: stop its goal until the user speaks.
    AwaitHuman,
    /// Look at the session again; `clear_awaiting` when a person's run ended.
    Continue { clear_awaiting: bool },
    /// Disarm the goal after a failed run.
    Disarm,
}

/// The driver's answer to an event. `session_known` is whether the event
/// names its session; `finished` what untracking the run gave (the goal's
/// session and whether the round was productive, or nothing for runs that
/// were not goal rounds); `armed` whether the session's goal is armed.
pub open spec fn action_of(event: RunEvent, session_known: bool, finished: Option<bool>, armed: bool) -> GoalAction {
    match event {
        RunEvent::ToolStarted => GoalAction::MarkProductive,
        RunEvent::Completed => if !session_known {
            GoalAction::Nothing
        } else {
            match finished {
                Some(productive) => if !productive {
                    GoalAction::AwaitHuman
                } else {
                    GoalAction::Continue { clear_awaiting: false }
                },
                None => GoalAction::Continue { clear_awaiting: true },
            }
        },
        RunEvent::Cancelled => if session_known && armed {
            GoalAction::Continue { clear_awaiting: false }
        } else {
            GoalAction::Nothing
        },
        RunEvent::Failed => if session_known && armed {
            GoalAction::Disarm
        } else {
            GoalAction::Nothing
        },
        RunEvent::Other => GoalAction::Nothing,
    }
}

pub fn goal_event_action(event: RunEvent, session_known: bool, finished: Option<bool>, armed: bool) -> (r: GoalAction)
    ensures
        r == action_of(event, session_known, finished, armed),
{
    match event {
        RunEvent::ToolStarted => GoalAction::MarkProductive,
        RunEvent::Completed => if !session_known {
            GoalAction::Nothing
        } else {
            match finished {
                Some(productive) => if !productive {
                    GoalAction::AwaitHuman
                } else {
                    GoalAction::Continue { clear_awaiting: false }
                },
                None => GoalAction::Continue { clear_awaiting: true },
            }
        },
        RunEvent::Cancelled => if session_known && armed {
            GoalAction::Continue { clear_awaiting: false }
        } else {
            GoalAction::Nothing
        },
        RunEvent::Failed => if session_known && armed {
            GoalAction::Disarm
        } else {
            GoalAction::Nothing
        },
        RunEvent::Other => GoalAction::Nothing,
    }
}

/// The event a record's kind stands for.
pub open spec fn run_event_of(kind: Seq<char>) -> RunEvent {
    if kind == "tool.started"@ {
        RunEvent::ToolStarted
    } else if kind == "run.completed"@ {
        RunEvent::Completed
    } else if kind == "run.cancelled"@ {
        RunEvent::Cancelled
    } else if kind == "run.failed"@ {
        RunEvent::Failed
    } else {
        RunEvent::Other
    }
}

pub fn run_event(kind: &str) -> (r: RunEvent)
    ensures
        r == run_event_of(kind@),
{
    if str_eq(kind, "tool.started") {
        RunEvent::ToolStarted
    } else if str_eq(kind, "run.completed") {
        RunEvent::Completed
    } else if str_eq(kind, "run.cancelled") {
        RunEvent::Cancelled
    } else if str_eq(kind, "run.failed") {
        RunEvent::Failed
    } else {
        RunEvent::Other
    }
}

/// What the driver does on a record as stored: its kind, and the session
/// its JSON data names; with the round's bookkeeping (`finished`) and
/// whether the session's goal is armed.
pub fn goal_record_action(kind: &str, data: &str, finished: Option<bool>, armed: bool) -> (r: (GoalAction, Option<String>))
    ensures
        opt_chars(r.1) == json_string_field(data@, "session_id"@),
        r.0 == action_of(run_event_of(kind@), json_string_field(data@, "session_id"@) is Some, finished, armed),
{
    let session = event_field(data, "session_id");
    let action = goal_event_action(run_event(kind), session.is_some(), finished, armed);
    (action, session)
}

/// A goal round that made no tool call never starts another one by itself.
pub proof fn law_idle_round_waits_for_the_user(session_known: bool, armed: bool)
    ensures
        action_of(RunEvent::Completed, true, Some(false), armed) == GoalAction::AwaitHuman,
        !(action_of(RunEvent::Failed, session_known, None, armed) is Continue),
{
}

/// The decimal digit of `d < 10`.
pub open spec fn digit_char(d: nat) -> char {
    ((d + 48) as u8) as char
}

/// A number written in decimal.
pub open spec fn decimal(n: nat) -> Seq<char>
    decreases n,
{
    if n < 10 {
        seq![digit_char(n)]
    } else {
        decimal(n / 10) + seq![digit_char(n % 10)]
    }
}

/// `n` written in decimal (`to_string`).
pub fn decimal_string(n: u64) -> (r: Vec<char>)
    ensures
        r@ == decimal(n as nat),
    decreases n,
{
    if n < 10 {
        let c = ((n as u8) + 48) as char;
        let v = vec![c];
        assert(v@ =~= seq![digit_char(n as nat)]);
        v
    } else {
        let mut v = decimal_string(n / 10);
        let d = ((n % 10) as u8 + 48) as char;
        v.push(d);
        assert(v@ =~= decimal((n / 10) as nat) + seq![digit_char((n % 10) as nat)]);
        v
    }
}

/// How an autonomous round shows in the timeline: `[目标续轮] 第 N 轮 · goal`.
pub open spec fn round_display(round: u64, objective: Seq<char>) -> Seq<char> {
    "[目标续轮] 第 "@ + decimal(round as nat) + " 轮 · "@ + objective
}

pub fn goal_round_display(round: u64, objective: &str) -> (r: String)
    ensures
        r@ == round_display(round, objective@),
{
    let mut v = chars_of("[目标续轮] 第 ");
    crate::text::extend_chars(&mut v, &decimal_string(round));
    extend_str(&mut v, " 轮 · ");
    extend_str(&mut v, objective);
    string_of(&v)
}


/// When a run of a known session whose goal is still armed is cancelled (as
/// `/goal edit` does), the driver looks at the session again so the next
/// round starts on the goal; when such a run fails, the goal is disarmed.
/// Without a known session or an armed goal, neither does anything.
pub proof fn law_cancel_restarts_and_failure_disarms_armed_goals(
    session_known: bool,
    finished: Option<bool>,
    armed: bool,
)
    ensures
        session_known && armed ==> action_of(RunEvent::Cancelled, session_known, finished, armed)
            == (GoalAction::Continue { clear_awaiting: false }),
        session_known && armed ==> action_of(RunEvent::Failed, session_known, finished, armed)
            == GoalAction::Disarm,
        !(session_known && armed) ==> action_of(RunEvent::Cancelled, session_known, finished, armed)
            == GoalAction::Nothing,
        !(session_known && armed) ==> action_of(RunEvent::Failed, session_known, finished, armed)
            == GoalAction::Nothing,
{
}


/// A tool call marks the run productive. When a run of a known session
/// completes: a goal round that called no tool stops its goal until the user
/// speaks; a productive goal round lets the driver start the next one; a run
/// that was no goal round (a person's) clears the wait and lets the driver
/// look again. Other events, and a completion without a known session, do
/// nothing.
pub proof fn law_completed_rounds_continue_only_when_productive(
    session_known: bool,
    finished: Option<bool>,
    armed: bool,
)
    ensures
        action_of(RunEvent::ToolStarted, session_known, finished, armed) == GoalAction::MarkProductive,
        session_known && finished == Some(false) ==> action_of(RunEvent::Completed, session_known, finished, armed)
            == GoalAction::AwaitHuman,
        session_known && finished == Some(true) ==> action_of(RunEvent::Completed, session_known, finished, armed)
            == (GoalAction::Continue { clear_awaiting: false }),
        session_known && finished is None ==> action_of(RunEvent::Completed, session_known, finished, armed)
            == (GoalAction::Continue { clear_awaiting: true }),
        !session_known ==> action_of(RunEvent::Completed, session_known, finished, armed) == GoalAction::Nothing,
        action_of(RunEvent::Other, session_known, finished, armed) == GoalAction::Nothing,
{
}

} // verus!
