//! What happens when a background job finishes: where its report goes (a
//! local session gets a turn or joins its running one, a platform session a
//! plain message), what the report says, and how the follow-up is written
//! back to the terminal that started the job.
use crate::goal::{decimal, decimal_string};
use crate::runs::Audience;
use crate::text::{chars_of, extend_chars, extend_str, str_eq, string_of, take_chars, take_seq};
use crate::event_data::{event_data_field, json_str_field, json_string_field};
use vstd::prelude::*;

verus! {

/// A finished background job, as its report needs it.
pub struct JobCompletion {
    pub job_id: String,
    pub title: String,
    pub command: String,
    /// The state shown to people (`completed`, `failed`, …).
    pub state_label: String,
    pub runtime_seconds: u64,
    pub log_path: String,
    /// Whether the job was a background sub-agent rather than a command.
    pub is_subagent: bool,
    /// Whether the model asked to be woken when it ends.
    pub wake_requested: bool,
}

/// What a job is called in its report.
pub open spec fn job_noun(subagent: bool) -> Seq<char> {
    if subagent {
        "后台子代理"@
    } else {
        "后台命令"@
    }
}

/// The result block of a report: the job's result under its label, when
/// there is one.
pub open spec fn result_block(result: Option<(Seq<char>, Seq<char>)>) -> Seq<char> {
    match result {
        Some((label, body)) => "- "@ + label + ":\n"@ + body + "\n"@,
        None => Seq::empty(),
    }
}

/// The report a local session is woken with: the job, its command cut to
/// 120 characters, its state and running time, its log, and its result.
pub open spec fn local_report(c: JobCompletion, result: Option<(Seq<char>, Seq<char>)>) -> Seq<char> {
    "<background-job-report>"@ + job_noun(c.is_subagent) + "「"@ + c.title@ + "」已执行完毕：\n- job_id: "@
        + c.job_id@ + "\n- 任务: "@ + take_seq(c.command@, 120) + "\n- 状态: "@ + c.state_label@
        + "（运行 "@ + decimal(c.runtime_seconds as nat) + " 秒）\n- 日志: "@ + c.log_path@ + "\n"@
        + result_block(result) + "这是系统自动触发的跟进，不是用户消息。</background-job-report>"@
}

/// The report a platform conversation gets: as the local one, with the
/// command cut to 200 characters and no log path.
pub open spec fn platform_report(c: JobCompletion, result: Option<(Seq<char>, Seq<char>)>) -> Seq<char> {
    "<background-job-report>"@ + job_noun(c.is_subagent) + "「"@ + c.title@ + "」已执行完毕：\n- job_id: "@
        + c.job_id@ + "\n- 任务: "@ + take_seq(c.command@, 200) + "\n- 状态: "@ + c.state_label@
        + "（运行 "@ + decimal(c.runtime_seconds as nat) + " 秒）\n"@ + result_block(result)
        + "这是系统自动触发的跟进，不是用户消息。</background-job-report>"@
}

/// The label of a job's wake turn: `命令完成 <id> · <title>` (or `子代理…`).
pub open spec fn wake_label(c: JobCompletion) -> Seq<char> {
    (if c.is_subagent {
        "子代理"@
    } else {
        "命令"@
    }) + "完成 "@ + c.job_id@ + " · "@ + c.title@
}

/// How the wake shows in the timeline: `[后台任务完成] ` and the label.
pub open spec fn wake_display(c: JobCompletion) -> Seq<char> {
    "[后台任务完成] "@ + wake_label(c)
}

fn push_result(v: &mut Vec<char>, result: &Option<(String, String)>)
    ensures
        final(v)@ == old(v)@ + result_block(
            match result {
                Some((l, b)) => Some((l@, b@)),
                None => None,
            },
        ),
{
    match result {
        Some((label, body)) => {
            extend_str(v, "- ");
            extend_str(v, label.as_str());
            extend_str(v, ":\n");
            extend_str(v, body.as_str());
            extend_str(v, "\n");
        },
        None => {
            assert(old(v)@ + Seq::<char>::empty() =~= old(v)@);
        },
    }
}

fn report_head(c: &JobCompletion, v: &mut Vec<char>)
    ensures
        final(v)@ == old(v)@ + "<background-job-report>"@ + job_noun(c.is_subagent) + "「"@ + c.title@
            + "」已执行完毕：\n- job_id: "@ + c.job_id@ + "\n- 任务: "@,
{
    extend_str(v, "<background-job-report>");
    extend_str(v, if c.is_subagent {
        "后台子代理"
    } else {
        "后台命令"
    });
    extend_str(v, "「");
    extend_str(v, c.title.as_str());
    extend_str(v, "」已执行完毕：\n- job_id: ");
    extend_str(v, c.job_id.as_str());
    extend_str(v, "\n- 任务: ");
}

/// The report a local session is woken with.
pub fn local_job_report(c: &JobCompletion, result: &Option<(String, String)>) -> (r: String)
    ensures
        r@ == local_report(
            *c,
            match result {
                Some((l, b)) => Some((l@, b@)),
                None => None,
            },
        ),
{
    let mut v: Vec<char> = Vec::new();
    report_head(c, &mut v);
    extend_chars(&mut v, &take_chars(&chars_of(c.command.as_str()), 120));
    extend_str(&mut v, "\n- 状态: ");
    extend_str(&mut v, c.state_label.as_str());
    extend_str(&mut v, "（运行 ");
    extend_chars(&mut v, &decimal_string(c.runtime_seconds));
    extend_str(&mut v, " 秒）\n- 日志: ");
    extend_str(&mut v, c.log_path.as_str());
    extend_str(&mut v, "\n");
    push_result(&mut v, result);
    extend_str(&mut v, "这是系统自动触发的跟进，不是用户消息。</background-job-report>");
    string_of(&v)
}

/// The report a platform conversation gets.
pub fn platform_job_report(c: &JobCompletion, result: &Option<(String, String)>) -> (r: String)
    ensures
        r@ == platform_report(
            *c,
            match result {
                Some((l, b)) => Some((l@, b@)),
                None => None,
            },
        ),
{
    let mut v: Vec<char> = Vec::new();
    report_head(c, &mut v);
    extend_chars(&mut v, &take_chars(&chars_of(c.command.as_str()), 200));
    extend_str(&mut v, "\n- 状态: ");
    extend_str(&mut v, c.state_label.as_str());
    extend_str(&mut v, "（运行 ");
    extend_chars(&mut v, &decimal_string(c.runtime_seconds));
    extend_str(&mut v, " 秒）\n");
    push_result(&mut v, result);
    extend_str(&mut v, "这是系统自动触发的跟进，不是用户消息。</background-job-report>");
    string_of(&v)
}

/// The label of a job's wake turn.
pub fn job_wake_label(c: &JobCompletion) -> (r: String)
    ensures
        r@ == wake_label(*c),
{
    let mut v = chars_of(if c.is_subagent {
        "子代理"
    } else {
        "命令"
    });
    extend_str(&mut v, "完成 ");
    extend_str(&mut v, c.job_id.as_str());
    extend_str(&mut v, " · ");
    extend_str(&mut v, c.title.as_str());
    string_of(&v)
}

/// How a job's wake shows in the timeline.
pub fn job_wake_display(c: &JobCompletion) -> (r: String)
    ensures
        r@ == wake_display(*c),
{
    let mut v = chars_of("[后台任务完成] ");
    let label = job_wake_label(c);
    extend_str(&mut v, label.as_str());
    string_of(&v)
}

/// Where a finished job's report goes.
pub enum JobRoute {
    /// The model stopped the job itself: nothing to report; the job is
    /// acknowledged at once.
    AcknowledgeNow,
    /// The job's session is bound to a platform conversation.
    Platform,
    /// The job's session is a local one.
    Local,
    /// No session to report to (none recorded, or its kind unknown): the
    /// job is acknowledged.
    Nowhere,
}

/// Where a finished job's report goes: nowhere unless a wake was requested;
/// else by the kind of its session (`platform`: whether the session is a
/// platform one, `None` when that could not be read).
pub fn job_route(wake_requested: bool, has_session: bool, platform: Option<bool>) -> (r: JobRoute)
    ensures
        !wake_requested ==> r is AcknowledgeNow,
        wake_requested && has_session && platform == Some(true) ==> r is Platform,
        wake_requested && has_session && platform == Some(false) ==> r is Local,
        wake_requested && (!has_session || platform is None) ==> r is Nowhere,
{
    if !wake_requested {
        return JobRoute::AcknowledgeNow;
    }
    if !has_session {
        return JobRoute::Nowhere;
    }
    match platform {
        Some(true) => JobRoute::Platform,
        Some(false) => JobRoute::Local,
        None => JobRoute::Nowhere,
    }
}

/// What a local session does with a job's report.
pub enum LocalWake {
    /// A run is answering in the session: the report joins it as a queued
    /// follow-up of its turn.
    JoinRun { run_id: String, turn_id: String, audience: Audience },
    /// A run is just starting in the session: the report waits for the next
    /// completion check rather than race its queue.
    TurnStarting,
    /// An admin operation holds the session: nothing now.
    AdminBusy,
    /// The session is idle: a wake turn starts, attributed to the owner.
    StartTurn,
}

/// What a local session does with a job's report, given the run answering
/// in it (its id, the turn its queue feeds once known, and its audience)
/// and whether an admin reservation holds it.
pub fn local_wake_plan(active: Option<(&str, Option<&str>, Audience)>, admin_blocks: bool) -> (r: LocalWake)
    ensures
        match active {
            Some((run, turn, audience)) => match turn {
                Some(t) => r matches LocalWake::JoinRun { run_id, turn_id, audience: a } && run_id@ == run@
                    && turn_id@ == t@ && a == audience,
                None => r is TurnStarting,
            },
            None => if admin_blocks {
                r is AdminBusy
            } else {
                r is StartTurn
            },
        },
{
    match active {
        Some((run, turn, audience)) => match turn {
            Some(t) => LocalWake::JoinRun { run_id: run.to_owned(), turn_id: t.to_owned(), audience },
            None => LocalWake::TurnStarting,
        },
        None => if admin_blocks {
            LocalWake::AdminBusy
        } else {
            LocalWake::StartTurn
        },
    }
}

/// What writing the wake turn back to the job's terminal does with one
/// event.
pub enum TtyStep {
    /// Not for this run (or unreadable): read on.
    Skip,
    /// Not for this run and the run is gone: stop quietly.
    Stop,
    /// The terminal left its prompt: stop, and notify instead.
    Abort,
    /// Write it and read on.
    Write,
    /// Write it and finish; `interrupted` unless the run completed.
    WriteAndFinish { interrupted: bool },
}

/// One step of the terminal write-back. `parsed` is whether the event's
/// data parse; `at_prompt` whether the terminal is still at its prompt when
/// that was checked again before writing (`None` when it was not).
pub open spec fn tty_step_of(
    kind: Seq<char>,
    parsed: bool,
    event_run: Option<Seq<char>>,
    run_id: Seq<char>,
    still_running: bool,
    at_prompt: Option<bool>,
) -> TtyStep {
    if !parsed {
        TtyStep::Skip
    } else if event_run != Some(run_id) {
        if still_running {
            TtyStep::Skip
        } else {
            TtyStep::Stop
        }
    } else if at_prompt == Some(false) {
        TtyStep::Abort
    } else if kind == "run.completed"@ || kind == "run.failed"@ || kind == "run.cancelled"@ {
        TtyStep::WriteAndFinish { interrupted: kind != "run.completed"@ }
    } else {
        TtyStep::Write
    }
}

/// One step of the terminal write-back.
pub fn tty_stream_step(
    kind: &str,
    parsed: bool,
    event_run: Option<&str>,
    run_id: &str,
    still_running: bool,
    at_prompt: Option<bool>,
) -> (r: TtyStep)
    ensures
        r == tty_step_of(
            kind@,
            parsed,
            match event_run {
                Some(e) => Some(e@),
                None => None,
            },
            run_id@,
            still_running,
            at_prompt,
        ),
{
    if !parsed {
        return TtyStep::Skip;
    }
    let mine = match event_run {
        Some(e) => str_eq(e, run_id),
        None => false,
    };
    if !mine {
        return if still_running {
            TtyStep::Skip
        } else {
            TtyStep::Stop
        };
    }
    match at_prompt {
        Some(false) => return TtyStep::Abort,
        _ => {},
    }
    let completed = str_eq(kind, "run.completed");
    if completed || str_eq(kind, "run.failed") || str_eq(kind, "run.cancelled") {
        TtyStep::WriteAndFinish { interrupted: !completed }
    } else {
        TtyStep::Write
    }
}

/// One step of the terminal write-back on a record as stored: its kind and
/// JSON data, which names the run it belongs to.
pub fn tty_record_step(kind: &str, data: &str, run_id: &str, still_running: bool, at_prompt: Option<bool>) -> (r: TtyStep)
    ensures
        r == tty_step_of(
            kind@,
            json_str_field(data@, "run_id"@) is Some,
            json_string_field(data@, "run_id"@),
            run_id@,
            still_running,
            at_prompt,
        ),
{
    let (parsed, event_run) = event_data_field(data, "run_id");
    let er = match &event_run {
        Some(e) => Some(e.as_str()),
        None => None,
    };
    tty_stream_step(kind, parsed, er, run_id, still_running, at_prompt)
}

/// A run's terminal event ends the write-back, and only a completed run's
/// ends it without the interruption note.
pub proof fn law_only_completed_runs_finish_cleanly(kind: Seq<char>, run_id: Seq<char>)
    ensures
        tty_step_of(kind, true, Some(run_id), run_id, true, Some(true)) matches TtyStep::WriteAndFinish {
            interrupted,
        } ==> (interrupted <==> kind != "run.completed"@),
        tty_step_of("run.completed"@, true, Some(run_id), run_id, true, None) == (TtyStep::WriteAndFinish {
            interrupted: false,
        }),
{
}

} // verus!
