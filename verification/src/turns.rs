//! How a turn ends. A turn task ends in exactly one of four ways (completed,
//! cancelled, failed, completed with a context error); each way has its own
//! cleanup: whether the queued follow-ups are withdrawn, whether the session
//! is auto-named and touched, which events are published and whether the
//! daemon's context snapshot is updated.
use crate::api::{api_error_is, ApiError, BAD_REQUEST, CONFLICT, NOT_FOUND};
use crate::sessions::{auto_name_of, maybe_auto_name_session};
use crate::dto::pair_views;
use crate::text::{chars_of, extend_str, str_eq, string_of, string_views, trim_chars, trim_seq};
use vstd::prelude::*;

verus! {

/// A message may be empty only when it carries attachments; otherwise it
/// goes through the content check, whose result is `checked`.
pub fn validate_message_content(content: &str, has_attachments: bool, checked: Result<String, ApiError>) -> (r: Result<String, ApiError>)
    ensures
        trim_seq(content@).len() == 0 && has_attachments ==> (r matches Ok(s) && s@.len() == 0),
        !(trim_seq(content@).len() == 0 && has_attachments) ==> r == checked,
{
    if trim_chars(&chars_of(content)).len() == 0 && has_attachments {
        return Ok(String::new());
    }
    checked
}

/// An image sent with a prompt, as the IPC carries it.
pub enum ImageAttachment {
    Binary { mime: String, data: Vec<u8> },
    Path { path: String },
}

/// An image as the agent takes it.
pub enum PastedImage {
    Binary(String, Vec<u8>),
    Path(String),
}

pub open spec fn pasted_of(a: ImageAttachment) -> PastedImage {
    match a {
        ImageAttachment::Binary { mime, data } => PastedImage::Binary(mime, data),
        ImageAttachment::Path { path } => PastedImage::Path(path),
    }
}

/// The images of a prompt as the agent takes them, slot for slot.
pub fn into_pasted_images(images: Vec<Option<ImageAttachment>>) -> (r: Vec<Option<PastedImage>>)
    ensures
        r@.len() == images@.len(),
        forall|i: int|
            0 <= i < r@.len() ==> #[trigger] r@[i] == match images@[i] {
                Some(a) => Some(pasted_of(a)),
                None => None,
            },
{
    let ghost input = images@;
    let mut rest = images;
    let mut out: Vec<Option<PastedImage>> = Vec::new();
    let n = rest.len();
    while rest.len() > 0
        invariant
            out@.len() + rest@.len() == n,
            n == input.len(),
            rest@ == input.skip(out@.len() as int),
            forall|i: int|
                0 <= i < out@.len() ==> #[trigger] out@[i] == match input[i] {
                    Some(a) => Some(pasted_of(a)),
                    None => None,
                },
        decreases rest.len(),
    {
        let k = out.len();
        let img = rest.remove(0);
        assert(img == input[k as int]);
        let converted = match img {
            Some(ImageAttachment::Binary { mime, data }) => Some(PastedImage::Binary(mime, data)),
            Some(ImageAttachment::Path { path }) => Some(PastedImage::Path(path)),
            None => None,
        };
        out.push(converted);
        assert(input.skip(out@.len() as int) =~= input.skip(k as int).drop_first());
    }
    out
}

/// How far a turn task got before it ended.
pub enum TurnStage {
    /// Building the agent failed.
    SetupFailed,
    /// The user cancelled while the model was answering.
    ChatCancelled,
    /// A question to the user was cancelled, which cancels the turn.
    QuestionCancelled,
    /// The answer failed.
    ChatFailed,
    /// The answer completed; measuring the context failed.
    ContextTokensFailed,
    /// The answer completed; the user cancelled during context maintenance.
    OverflowCancelled,
    /// The answer completed; context maintenance failed.
    OverflowFailed,
    /// The answer completed; reading the context afterwards failed.
    ContextFailed,
    /// Everything completed.
    Done,
}

/// The one terminal event of a run.
pub enum Terminal {
    Failed,
    Cancelled,
    Completed,
    /// `context.error`, then `run.completed`.
    CompletedWithContextError,
}

/// What the end of a turn does.
pub struct TurnFinish {
    pub terminal: Terminal,
    /// Withdraw the follow-ups queued behind the answer.
    pub drop_queue: bool,
    /// Whether the answer completed (auto-naming and touching the session).
    pub completed: bool,
}

pub open spec fn finish_of(stage: TurnStage) -> TurnFinish {
    match stage {
        TurnStage::SetupFailed => TurnFinish { terminal: Terminal::Failed, drop_queue: false, completed: false },
        TurnStage::ChatCancelled => TurnFinish { terminal: Terminal::Cancelled, drop_queue: true, completed: false },
        TurnStage::QuestionCancelled => TurnFinish { terminal: Terminal::Cancelled, drop_queue: true, completed: false },
        TurnStage::ChatFailed => TurnFinish { terminal: Terminal::Failed, drop_queue: false, completed: false },
        TurnStage::ContextTokensFailed => TurnFinish {
            terminal: Terminal::CompletedWithContextError,
            drop_queue: false,
            completed: true,
        },
        TurnStage::OverflowCancelled => TurnFinish { terminal: Terminal::Completed, drop_queue: true, completed: true },
        TurnStage::OverflowFailed => TurnFinish {
            terminal: Terminal::CompletedWithContextError,
            drop_queue: false,
            completed: true,
        },
        TurnStage::ContextFailed => TurnFinish {
            terminal: Terminal::CompletedWithContextError,
            drop_queue: false,
            completed: true,
        },
        TurnStage::Done => TurnFinish { terminal: Terminal::Completed, drop_queue: false, completed: true },
    }
}

/// How a turn task ends from the stage it reached.
pub fn turn_finish_plan(stage: TurnStage) -> (r: TurnFinish)
    ensures
        r == finish_of(stage),
{
    match stage {
        TurnStage::SetupFailed => TurnFinish { terminal: Terminal::Failed, drop_queue: false, completed: false },
        TurnStage::ChatCancelled => TurnFinish { terminal: Terminal::Cancelled, drop_queue: true, completed: false },
        TurnStage::QuestionCancelled => TurnFinish { terminal: Terminal::Cancelled, drop_queue: true, completed: false },
        TurnStage::ChatFailed => TurnFinish { terminal: Terminal::Failed, drop_queue: false, completed: false },
        TurnStage::ContextTokensFailed => TurnFinish {
            terminal: Terminal::CompletedWithContextError,
            drop_queue: false,
            completed: true,
        },
        TurnStage::OverflowCancelled => TurnFinish { terminal: Terminal::Completed, drop_queue: true, completed: true },
        TurnStage::OverflowFailed => TurnFinish {
            terminal: Terminal::CompletedWithContextError,
            drop_queue: false,
            completed: true,
        },
        TurnStage::ContextFailed => TurnFinish {
            terminal: Terminal::CompletedWithContextError,
            drop_queue: false,
            completed: true,
        },
        TurnStage::Done => TurnFinish { terminal: Terminal::Completed, drop_queue: false, completed: true },
    }
}

/// The queued follow-ups are withdrawn exactly when the user cancelled; a
/// completed answer is reported as completed (never as cancelled or failed),
/// and an answer that did not complete never is.
pub proof fn law_turn_endings(stage: TurnStage)
    ensures
        finish_of(stage).drop_queue <==> (stage is ChatCancelled || stage is QuestionCancelled
            || stage is OverflowCancelled),
        finish_of(stage).completed <==> (finish_of(stage).terminal is Completed
            || finish_of(stage).terminal is CompletedWithContextError),
        finish_of(stage).terminal is Cancelled ==> !finish_of(stage).completed,
{
}

/// The per-turn cleanup: a completed turn auto-names a still unnamed session
/// from its first prompt (`current_name` is the session's name, `None` when
/// it could not be read) and touches the session; the queued prompts are
/// always discarded.
pub struct TurnCleanup {
    pub auto_name: Option<String>,
    pub touch_session: bool,
    pub discard_queue: bool,
}

pub fn finish_turn_task(completed: bool, current_name: Option<&str>, title_seed: &str) -> (r: TurnCleanup)
    ensures
        r.touch_session == completed,
        r.discard_queue,
        match r.auto_name {
            Some(t) => completed && current_name is Some && auto_name_of(current_name.unwrap()@, title_seed@)
                == Some(t@),
            None => !completed || current_name is None || auto_name_of(current_name.unwrap()@, title_seed@)
                is None,
        },
{
    let auto_name = if completed {
        match current_name {
            Some(name) => maybe_auto_name_session(name, title_seed),
            None => None,
        }
    } else {
        None
    };
    TurnCleanup { auto_name, touch_session: completed, discard_queue: true }
}

/// `queue.removed` for one withdrawn prompt.
pub struct QueueRemoved {
    pub session_id: String,
    pub run_id: String,
    pub prompt_id: String,
}

/// The events announcing the prompts withdrawn for a cancelled turn, one per
/// prompt, in order; none when the deletion failed.
pub fn drop_cancelled_queue<E>(session_id: &str, run_id: &str, deleted: Result<Vec<String>, E>) -> (r: Vec<QueueRemoved>)
    ensures
        match deleted {
            Ok(ids) => r@.len() == ids@.len() && forall|i: int|
                0 <= i < r@.len() ==> (#[trigger] r@[i]).prompt_id@ == ids@[i]@ && r@[i].session_id@
                    == session_id@ && r@[i].run_id@ == run_id@,
            Err(_) => r@.len() == 0,
        },
{
    let ids = match deleted {
        Ok(ids) => ids,
        Err(_) => return Vec::new(),
    };
    let mut out: Vec<QueueRemoved> = Vec::new();
    let mut i: usize = 0;
    while i < ids.len()
        invariant
            i <= ids.len(),
            out@.len() == i,
            forall|k: int|
                0 <= k < i ==> (#[trigger] out@[k]).prompt_id@ == ids@[k]@ && out@[k].session_id@
                    == session_id@ && out@[k].run_id@ == run_id@,
        decreases ids.len() - i,
    {
        out.push(
            QueueRemoved {
                session_id: session_id.to_owned(),
                run_id: run_id.to_owned(),
                prompt_id: ids[i].clone(),
            },
        );
        i += 1;
    }
    out
}

/// The context meters of a conversation.
#[derive(Clone, Copy)]
pub struct ContextSnapshot {
    pub tokens: u64,
    pub window: Option<u64>,
    pub window_assumed: bool,
    pub cumulative_tokens: u64,
    pub cumulative_prompt_tokens: u64,
    pub cumulative_cache_read_tokens: u64,
}

/// The agent's context meters: its context size and usage totals, when both
/// could be read.
pub fn current_context<E>(
    tokens: Result<u64, E>,
    window: Option<u64>,
    window_assumed: bool,
    totals: Result<(u64, u64, u64), E>,
) -> (r: Option<ContextSnapshot>)
    ensures
        match r {
            Some(c) => tokens matches Ok(t) && (totals matches Ok((total, prompt, cache)) && c.tokens == t
                && c.window == window && c.window_assumed == window_assumed && c.cumulative_tokens
                == total && c.cumulative_prompt_tokens == prompt && c.cumulative_cache_read_tokens
                == cache),
            None => tokens is Err || totals is Err,
        },
{
    let (total, prompt, cache) = match totals {
        Ok(t) => t,
        Err(_) => return None,
    };
    let t = match tokens {
        Ok(t) => t,
        Err(_) => return None,
    };
    Some(
        ContextSnapshot {
            tokens: t,
            window,
            window_assumed,
            cumulative_tokens: total,
            cumulative_prompt_tokens: prompt,
            cumulative_cache_read_tokens: cache,
        },
    )
}

/// `run.cancelled`, with the context meters when the turn's session is the
/// current one (the interrupted turn is kept in the context).
pub struct CancelledEvent {
    pub run_id: String,
    pub session_id: String,
    pub context: Option<ContextSnapshot>,
}

/// Ends a cancelled run: the snapshot the daemon records (only for the
/// current session, and only when it could be read) and the event.
pub fn finish_cancelled_run(run_id: &str, session_id: &str, context: Option<ContextSnapshot>, updates_context: bool) -> (r: (Option<ContextSnapshot>, CancelledEvent))
    ensures
        r.0 == (if updates_context {
            context
        } else {
            None
        }),
        r.1.context == r.0,
        r.1.run_id@ == run_id@,
        r.1.session_id@ == session_id@,
{
    let recorded = if updates_context {
        context
    } else {
        None
    };
    (recorded, CancelledEvent { run_id: run_id.to_owned(), session_id: session_id.to_owned(), context: recorded })
}

/// `run.failed`.
pub struct FailedEvent {
    pub run_id: String,
    pub session_id: String,
    pub message: String,
    pub failure_kind: Option<String>,
}

/// Ends a failed run: the snapshot recorded (as for a cancelled run) and the
/// event with the (already made safe) message and the failure's class.
pub fn finish_failed_run(
    run_id: &str,
    session_id: &str,
    message: &str,
    failure_kind: Option<String>,
    context: Option<ContextSnapshot>,
    updates_context: bool,
) -> (r: (Option<ContextSnapshot>, FailedEvent))
    ensures
        r.0 == (if updates_context {
            context
        } else {
            None
        }),
        r.1.run_id@ == run_id@,
        r.1.session_id@ == session_id@,
        r.1.message@ == message@,
        r.1.failure_kind == failure_kind,
{
    let recorded = if updates_context {
        context
    } else {
        None
    };
    (
        recorded,
        FailedEvent {
            run_id: run_id.to_owned(),
            session_id: session_id.to_owned(),
            message: message.to_owned(),
            failure_kind,
        },
    )
}

/// `run.completed`: the final answer with its usage and the context meters.
pub struct CompletedEvent<U> {
    pub run_id: String,
    pub session_id: String,
    pub content: String,
    pub usage: U,
    pub usage_estimated: bool,
    pub provider_id: Option<String>,
    pub model: Option<String>,
    pub context: ContextSnapshot,
}

/// What a completed answer reports.
pub struct ChatResult<U> {
    pub content: String,
    pub usage: U,
    pub usage_estimated: bool,
    pub provider_id: Option<String>,
    pub model: Option<String>,
}

pub fn publish_completed<U: Copy>(run_id: &str, session_id: &str, result: &ChatResult<U>, context: ContextSnapshot) -> (r: CompletedEvent<U>)
    ensures
        r.run_id@ == run_id@,
        r.session_id@ == session_id@,
        r.content@ == result.content@,
        r.usage == result.usage,
        r.usage_estimated == result.usage_estimated,
        r.provider_id == result.provider_id,
        r.model == result.model,
        r.context == context,
{
    CompletedEvent {
        run_id: run_id.to_owned(),
        session_id: session_id.to_owned(),
        content: result.content.clone(),
        usage: result.usage,
        usage_estimated: result.usage_estimated,
        provider_id: result.provider_id.clone(),
        model: result.model.clone(),
        context,
    }
}

/// `context.error`.
pub struct ContextErrorEvent {
    pub run_id: String,
    pub session_id: String,
    pub message: String,
}

/// Ends an answer whose context maintenance failed: `context.error`, the
/// snapshot recorded for the current session (the agent's when readable,
/// else the daemon's last), and `run.completed` with that snapshot.
pub fn finish_completed_with_context_error<U: Copy>(
    run_id: &str,
    session_id: &str,
    message: &str,
    result: &ChatResult<U>,
    agent_context: Option<ContextSnapshot>,
    last_context: ContextSnapshot,
    updates_context: bool,
) -> (r: (ContextErrorEvent, Option<ContextSnapshot>, CompletedEvent<U>))
    ensures
        r.0.run_id@ == run_id@,
        r.0.session_id@ == session_id@,
        r.0.message@ == message@,
        r.2.context == match agent_context {
            Some(c) => c,
            None => last_context,
        },
        r.1 == (if updates_context {
            Some(r.2.context)
        } else {
            None
        }),
        r.2.run_id@ == run_id@,
        r.2.session_id@ == session_id@,
        r.2.content@ == result.content@,
        r.2.usage == result.usage,
        r.2.usage_estimated == result.usage_estimated,
        r.2.provider_id == result.provider_id,
        r.2.model == result.model,
{
    let error = ContextErrorEvent {
        run_id: run_id.to_owned(),
        session_id: session_id.to_owned(),
        message: message.to_owned(),
    };
    let context = match agent_context {
        Some(c) => c,
        None => last_context,
    };
    let recorded = if updates_context {
        Some(context)
    } else {
        None
    };
    (error, recorded, publish_completed(run_id, session_id, result, context))
}


/// The input a redo may replay, as the session store offers it.
pub struct RedoCandidate {
    pub turn_id: String,
    pub input_id: String,
    /// The conversation's revision when the candidate was read.
    pub revision: i64,
}

/// The refusal of a redo request: `409 the last input cannot be redone`
/// when there is no candidate, `409 the conversation changed before redo
/// could start` when the request names another turn, input or revision.
pub open spec fn redo_refusal(
    candidate: Option<RedoCandidate>,
    turn_id: Seq<char>,
    input_id: Seq<char>,
    expected_revision: i64,
) -> Option<Seq<char>> {
    match candidate {
        None => Some("the last input cannot be redone"@),
        Some(c) => if c.turn_id@ != turn_id || c.input_id@ != input_id || c.revision != expected_revision {
            Some("the conversation changed before redo could start"@)
        } else {
            None
        },
    }
}

/// Checks a redo request against the store's candidate.
pub fn check_redo_candidate(
    candidate: Option<&RedoCandidate>,
    turn_id: &str,
    input_id: &str,
    expected_revision: i64,
) -> (r: Result<(), ApiError>)
    ensures
        match redo_refusal(
            match candidate {
                Some(c) => Some(*c),
                None => None,
            },
            turn_id@,
            input_id@,
            expected_revision,
        ) {
            Some(m) => r is Err && r->Err_0.status == CONFLICT && r->Err_0.message@ == m,
            None => r is Ok,
        },
{
    let c = match candidate {
        None => return Err(ApiError::new(CONFLICT, "the last input cannot be redone")),
        Some(c) => c,
    };
    if !str_eq(c.turn_id.as_str(), turn_id) || !str_eq(c.input_id.as_str(), input_id) || c.revision
        != expected_revision {
        return Err(ApiError::new(CONFLICT, "the conversation changed before redo could start"));
    }
    Ok(())
}

/// The text a redone input is checked with: the request's replacement for
/// the input being redone, else the stored text; the other prompts of a
/// follow-up batch keep their stored text.
pub fn redo_text(request_content: Option<&str>, stored: &str, is_redone_input: bool) -> (r: String)
    ensures
        r@ == (match request_content {
            Some(c) if is_redone_input => c@,
            _ => stored@,
        }),
{
    match request_content {
        Some(c) => if is_redone_input {
            c.to_owned()
        } else {
            stored.to_owned()
        },
        None => stored.to_owned(),
    }
}

/// Refuses a follow-up batch to redo when one of its prompts carried
/// attachments that were not kept (`409`).
pub fn check_durable_followups(attachment_counts: &Vec<usize>) -> (r: Result<(), ApiError>)
    ensures
        match r {
            Ok(_) => forall|k: int| 0 <= k < attachment_counts@.len() ==> #[trigger] attachment_counts@[k] == 0,
            Err(e) => (exists|k: int| 0 <= k < attachment_counts@.len() && #[trigger] attachment_counts@[k] > 0)
                && e.status == CONFLICT && e.message@
                == "this follow-up uses non-durable attachments and cannot be redone"@,
        },
{
    let mut k: usize = 0;
    while k < attachment_counts.len()
        invariant
            k <= attachment_counts.len(),
            forall|j: int| 0 <= j < k ==> #[trigger] attachment_counts@[j] == 0,
        decreases attachment_counts.len() - k,
    {
        if attachment_counts[k] > 0 {
            return Err(ApiError::new(CONFLICT, "this follow-up uses non-durable attachments and cannot be redone"));
        }
        k += 1;
    }
    Ok(())
}


/// Why the question broker refused an answer or a close.
pub enum AnswerFailure {
    /// No pending question has that id.
    NotFound,
    /// The answers do not fit the question.
    Invalid(String),
    /// The question stopped waiting (its turn ended or it was closed).
    Gone,
}

/// The error a refused answer or close is answered with: 404 for an unknown
/// question, 400 with the broker's reason for answers that do not fit, 409
/// for a question no longer waiting.
pub fn question_error(failure: AnswerFailure) -> (e: ApiError)
    ensures
        match failure {
            AnswerFailure::NotFound => api_error_is(e, NOT_FOUND, "pending question not found"@),
            AnswerFailure::Invalid(m) => api_error_is(e, BAD_REQUEST, m@),
            AnswerFailure::Gone => api_error_is(e, CONFLICT, "the question is no longer awaiting an answer"@),
        },
{
    match failure {
        AnswerFailure::NotFound => ApiError::new(NOT_FOUND, "pending question not found"),
        AnswerFailure::Invalid(m) => ApiError { status: BAD_REQUEST, message: m },
        AnswerFailure::Gone => ApiError::new(CONFLICT, "the question is no longer awaiting an answer"),
    }
}


/// The models of a turn override, written `provider/model` and joined by
/// `, `.
pub open spec fn model_labels(v: Seq<(Seq<char>, Seq<char>)>) -> Seq<char>
    decreases v.len(),
{
    if v.len() == 0 {
        seq![]
    } else if v.len() == 1 {
        v[0].0 + "/"@ + v[0].1
    } else {
        model_labels(v.drop_last()) + ", "@ + v.last().0 + "/"@ + v.last().1
    }
}

/// Checks a turn's own model override. No override, or an empty one, keeps
/// the session's pool. Otherwise every requested model must be usable
/// (`usable` is how many the configuration could use, `None` when it could
/// use none); a turn that names a model is never quietly run on another:
/// `turn model override is not configured: …`.
pub fn check_model_override(requested: &Vec<(String, String)>, usable: Option<usize>) -> (r: Result<(), String>)
    ensures
        requested@.len() == 0 ==> r is Ok,
        requested@.len() > 0 ==> match r {
            Ok(_) => usable == Some(requested@.len() as usize),
            Err(m) => usable != Some(requested@.len() as usize) && m@ == "turn model override is not configured: "@
                + model_labels(pair_views(requested@)),
        },
{
    if requested.len() == 0 {
        return Ok(());
    }
    match usable {
        Some(n) => if n == requested.len() {
            return Ok(());
        },
        None => {},
    }
    let ghost pv = pair_views(requested@);
    let mut v = chars_of("turn model override is not configured: ");
    let ghost prefix = v@;
    let mut i: usize = 0;
    while i < requested.len()
        invariant
            i <= requested.len(),
            requested@.len() > 0,
            pv == pair_views(requested@),
            v@ == prefix + model_labels(pv.take(i as int)),
        decreases requested.len() - i,
    {
        let ghost before = v@;
        let ghost t = pv.take(i + 1);
        assert(t.drop_last() =~= pv.take(i as int));
        assert(t.last() == (requested@[i as int].0@, requested@[i as int].1@));
        if i > 0 {
            extend_str(&mut v, ", ");
        }
        extend_str(&mut v, requested[i].0.as_str());
        extend_str(&mut v, "/");
        extend_str(&mut v, requested[i].1.as_str());
        proof {
            if i == 0 {
                assert(t.len() == 1);
                assert(t[0] == t.last());
                assert(model_labels(pv.take(0)) =~= Seq::<char>::empty());
                assert(v@ =~= prefix + model_labels(t));
            } else {
                assert(v@ =~= prefix + model_labels(t));
            }
        }
        i += 1;
    }
    assert(pv.take(requested.len() as int) =~= pv);
    Err(string_of(&v))
}


/// A turn ends with exactly one terminal event that says how it ended: a
/// failure at setup or in the model call publishes `run.failed`; only the
/// cancelled stages (the chat or a question cancelled) publish
/// `run.cancelled`, and they withdraw the queued follow-ups; every stage in
/// which the answer completed counts as completed and publishes
/// `run.completed` (with `context.error` first when context upkeep failed).
pub proof fn law_turn_ends_as_it_went(stage: TurnStage)
    ensures
        (finish_of(stage).terminal is Failed) <==> (stage is SetupFailed || stage is ChatFailed),
        (finish_of(stage).terminal is Cancelled) <==> (stage is ChatCancelled || stage is QuestionCancelled),
        (stage is ChatCancelled || stage is QuestionCancelled) ==> finish_of(stage).drop_queue,
        finish_of(stage).completed <==> !(stage is SetupFailed || stage is ChatFailed || stage is ChatCancelled
            || stage is QuestionCancelled),
        finish_of(stage).completed <==> (finish_of(stage).terminal is Completed || finish_of(
            stage,
        ).terminal is CompletedWithContextError),
        (stage is Done) ==> finish_of(stage).terminal is Completed,
{
}

} // verus!
