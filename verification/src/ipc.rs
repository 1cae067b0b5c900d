//! The daemon's side of the local IPC: which requests are served at all, how
//! a terminal turn is admitted, and how the event stream of a turn is
//! forwarded to its client until the turn's terminal event.
use crate::event_data::{event_data_field, event_u64_field, json_str_field, json_string_field, json_u64_field};
use crate::goal::{decimal, decimal_string};
use crate::runs::{blocks, runs_inserted, run_view, RunInfo, RunRegistry};
use crate::text::{chars_of, extend_chars, extend_str, str_eq, string_of};
use vstd::prelude::*;

verus! {

/// Whether a request is served: requests of another protocol version are
/// refused, except `Ping` and `Shutdown`, which every version may send.
pub open spec fn version_accepted(version: u32, expected: u32, ping_or_shutdown: bool) -> bool {
    version == expected || ping_or_shutdown
}

/// The refusal of an unsupported protocol version.
pub open spec fn version_refusal(version: u32, expected: u32) -> Seq<char> {
    "unsupported IPC protocol version "@ + decimal(version as nat) + "; expected "@ + decimal(
        expected as nat,
    )
}

pub fn check_protocol_version(version: u32, expected: u32, ping_or_shutdown: bool) -> (r: Result<(), String>)
    ensures
        match r {
            Ok(_) => version_accepted(version, expected, ping_or_shutdown),
            Err(m) => !version_accepted(version, expected, ping_or_shutdown) && m@ == version_refusal(
                version,
                expected,
            ),
        },
{
    if version == expected || ping_or_shutdown {
        return Ok(());
    }
    let mut v = chars_of("unsupported IPC protocol version ");
    extend_chars(&mut v, &decimal_string(version as u64));
    extend_str(&mut v, "; expected ");
    extend_chars(&mut v, &decimal_string(expected as u64));
    Err(string_of(&v))
}

/// Admits a terminal turn: turns of the terminal run in parallel, even in
/// one session; only an admin reservation holding the session refuses one
/// (`false`, nothing registered).
pub fn admit_ipc_turn(registry: &mut RunRegistry, run_id: &str, info: RunInfo) -> (r: bool)
    requires
        old(registry).wf(),
    ensures
        final(registry).wf(),
        final(registry).busy() == old(registry).busy(),
        final(registry).reserved() == old(registry).reserved(),
        r == !blocks(old(registry).busy(), old(registry).reserved(), info.session_id@),
        r ==> final(registry).view() == runs_inserted(old(registry).view(), run_id@, run_view(info)),
        !r ==> final(registry).view() == old(registry).view(),
{
    if registry.admin_blocks_session(info.session_id.as_str()) {
        return false;
    }
    registry.insert_run(run_id, info);
    true
}

/// What happens to one event of the stream a terminal turn's client follows.
pub enum Forward {
    /// Not for this client; read on.
    Skip,
    /// The history was exhausted but the turn still runs: read on from the
    /// newest event.
    Resume,
    /// The history was exhausted and the turn is over: tell the client to
    /// refresh, and stop.
    Exhausted,
    /// Send it and read on.
    Send,
    /// Send it and stop: it is the run's terminal event.
    SendAndFinish,
}

/// Whether an event kind ends a run.
pub open spec fn is_terminal_kind(kind: Seq<char>) -> bool {
    kind == "run.completed"@ || kind == "run.failed"@ || kind == "run.cancelled"@
}

/// One step of the forwarding loop: the action and the id read on from. A
/// `resync_required` record moves the position to the newest event it names
/// (or keeps it) and ends the stream only when the run is no longer
/// registered; any other record moves the position to itself and is sent
/// when its data parse and name this run.
pub open spec fn forward_of(
    kind: Seq<char>,
    record_id: u64,
    resync_latest: Option<u64>,
    parsed: bool,
    event_run: Option<Seq<char>>,
    run_id: Seq<char>,
    still_running: bool,
    last_id: u64,
) -> (Forward, u64) {
    if kind == "resync_required"@ {
        let next = match resync_latest {
            Some(l) => l,
            None => last_id,
        };
        if still_running {
            (Forward::Resume, next)
        } else {
            (Forward::Exhausted, next)
        }
    } else if !parsed || event_run != Some(run_id) {
        (Forward::Skip, record_id)
    } else if is_terminal_kind(kind) {
        (Forward::SendAndFinish, record_id)
    } else {
        (Forward::Send, record_id)
    }
}

pub fn forward_event(
    kind: &str,
    record_id: u64,
    resync_latest: Option<u64>,
    parsed: bool,
    event_run: Option<&str>,
    run_id: &str,
    still_running: bool,
    last_id: u64,
) -> (r: (Forward, u64))
    ensures
        r == forward_of(
            kind@,
            record_id,
            resync_latest,
            parsed,
            match event_run {
                Some(e) => Some(e@),
                None => None,
            },
            run_id@,
            still_running,
            last_id,
        ),
{
    if str_eq(kind, "resync_required") {
        let next = match resync_latest {
            Some(l) => l,
            None => last_id,
        };
        return if still_running {
            (Forward::Resume, next)
        } else {
            (Forward::Exhausted, next)
        };
    }
    let mine = match event_run {
        Some(e) => parsed && str_eq(e, run_id),
        None => false,
    };
    if !mine {
        return (Forward::Skip, record_id);
    }
    if str_eq(kind, "run.completed") || str_eq(kind, "run.failed") || str_eq(kind, "run.cancelled") {
        (Forward::SendAndFinish, record_id)
    } else {
        (Forward::Send, record_id)
    }
}

/// One step of the forwarding loop on a record as stored: its kind, id and
/// JSON data, which names the run it belongs to and, for a resync marker,
/// the newest event id.
pub fn forward_record(kind: &str, record_id: u64, data: &str, run_id: &str, still_running: bool, last_id: u64) -> (r: (
    Forward,
    u64,
))
    ensures
        r == forward_of(
            kind@,
            record_id,
            json_u64_field(data@, "latest_event_id"@),
            json_str_field(data@, "run_id"@) is Some,
            json_string_field(data@, "run_id"@),
            run_id@,
            still_running,
            last_id,
        ),
{
    let latest = event_u64_field(data, "latest_event_id");
    let (parsed, event_run) = event_data_field(data, "run_id");
    let er = match &event_run {
        Some(e) => Some(e.as_str()),
        None => None,
    };
    forward_event(kind, record_id, latest, parsed, er, run_id, still_running, last_id)
}

/// A client is only ever sent its own run's events, and the stream ends on
/// that run's terminal event and on nothing else of the run.
pub proof fn law_forward_only_own_events(
    kind: Seq<char>,
    record_id: u64,
    resync_latest: Option<u64>,
    parsed: bool,
    event_run: Option<Seq<char>>,
    run_id: Seq<char>,
    still_running: bool,
    last_id: u64,
)
    ensures
        ({
            let (action, _) = forward_of(kind, record_id, resync_latest, parsed, event_run, run_id, still_running, last_id);
            (action is Send || action is SendAndFinish) ==> parsed && event_run == Some(run_id)
        }),
        ({
            let (action, _) = forward_of(kind, record_id, resync_latest, parsed, event_run, run_id, still_running, last_id);
            action is SendAndFinish <==> (kind != "resync_required"@ && parsed && event_run == Some(run_id)
                && is_terminal_kind(kind))
        }),
{
}


/// What following a run over IPC does with one event.
pub enum FollowStep {
    /// Not for this run (or unreadable): read on.
    Skip,
    /// Not for this run and the run is gone: stop.
    Stop,
    /// The event history was exhausted: tell the client
    /// `GQY core event history was exhausted`, and stop.
    Exhausted,
    /// Send it and read on.
    Send,
    /// Send it and stop: the run's terminal event.
    SendAndStop,
}

/// One step of following a run.
pub open spec fn follow_of(kind: Seq<char>, parsed: bool, event_run: Option<Seq<char>>, run_id: Seq<char>, still_running: bool) -> FollowStep {
    if kind == "resync_required"@ {
        FollowStep::Exhausted
    } else if !parsed {
        FollowStep::Skip
    } else if event_run != Some(run_id) {
        if still_running {
            FollowStep::Skip
        } else {
            FollowStep::Stop
        }
    } else if is_terminal_kind(kind) {
        FollowStep::SendAndStop
    } else {
        FollowStep::Send
    }
}

/// One step of following a run over IPC.
pub fn follow_step(kind: &str, parsed: bool, event_run: Option<&str>, run_id: &str, still_running: bool) -> (r: FollowStep)
    ensures
        r == follow_of(
            kind@,
            parsed,
            match event_run {
                Some(e) => Some(e@),
                None => None,
            },
            run_id@,
            still_running,
        ),
{
    if str_eq(kind, "resync_required") {
        return FollowStep::Exhausted;
    }
    if !parsed {
        return FollowStep::Skip;
    }
    let mine = match event_run {
        Some(e) => str_eq(e, run_id),
        None => false,
    };
    if !mine {
        return if still_running {
            FollowStep::Skip
        } else {
            FollowStep::Stop
        };
    }
    if str_eq(kind, "run.completed") || str_eq(kind, "run.failed") || str_eq(kind, "run.cancelled") {
        FollowStep::SendAndStop
    } else {
        FollowStep::Send
    }
}


/// One step of following a run on a record as stored: its kind and JSON
/// data, which names the run it belongs to.
pub fn follow_record(kind: &str, data: &str, run_id: &str, still_running: bool) -> (r: FollowStep)
    ensures
        r == follow_of(
            kind@,
            json_str_field(data@, "run_id"@) is Some,
            json_string_field(data@, "run_id"@),
            run_id@,
            still_running,
        ),
{
    let (parsed, event_run) = event_data_field(data, "run_id");
    let er = match &event_run {
        Some(e) => Some(e.as_str()),
        None => None,
    };
    follow_step(kind, parsed, er, run_id, still_running)
}


/// Where the WebUI listens after binding `requested` failed: only the
/// default port, when something else holds it, falls back to a port the
/// system picks (0); any other failure stops the daemon (`None`).
pub fn web_port_fallback(requested: u16, default_port: u16, addr_in_use: bool) -> (r: Option<u16>)
    ensures
        r == (if requested == default_port && addr_in_use {
            Some(0u16)
        } else {
            None
        }),
{
    if requested == default_port && addr_in_use {
        Some(0)
    } else {
        None
    }
}


/// Following a run: every readable event of the followed run is sent, and
/// following ends right after it exactly when it is the run's terminal event
/// (`run.completed`, `run.failed` or `run.cancelled`).
pub proof fn law_follow_ends_on_own_terminal_event(kind: Seq<char>, run_id: Seq<char>, still_running: bool)
    requires
        kind != "resync_required"@,
    ensures
        follow_of(kind, true, Some(run_id), run_id, still_running) == (if kind == "run.completed"@ || kind
            == "run.failed"@ || kind == "run.cancelled"@ {
            FollowStep::SendAndStop
        } else {
            FollowStep::Send
        }),
{
}

/// In particular the followed run's own `run.completed`, `run.failed` and
/// `run.cancelled` each end the following once sent.
pub proof fn law_own_terminal_events_stop_following(run_id: Seq<char>, still_running: bool)
    ensures
        follow_of("run.completed"@, true, Some(run_id), run_id, still_running) == FollowStep::SendAndStop,
        follow_of("run.failed"@, true, Some(run_id), run_id, still_running) == FollowStep::SendAndStop,
        follow_of("run.cancelled"@, true, Some(run_id), run_id, still_running) == FollowStep::SendAndStop,
{
    reveal_strlit("resync_required");
    reveal_strlit("run.completed");
    reveal_strlit("run.failed");
    reveal_strlit("run.cancelled");
    assert("run.completed"@[1] != "resync_required"@[1]);
    assert("run.failed"@[1] != "resync_required"@[1]);
    assert("run.cancelled"@[1] != "resync_required"@[1]);
    law_follow_ends_on_own_terminal_event("run.completed"@, run_id, still_running);
    law_follow_ends_on_own_terminal_event("run.failed"@, run_id, still_running);
    law_follow_ends_on_own_terminal_event("run.cancelled"@, run_id, still_running);
}


/// Following a run never sends another run's events: an unreadable event is
/// passed over; another run's event is passed over while the followed run is
/// still running and ends the following once it is gone; the history running
/// out (`resync_required`) ends it as exhausted.
pub proof fn law_follow_sends_only_own_events(
    kind: Seq<char>,
    parsed: bool,
    event_run: Option<Seq<char>>,
    run_id: Seq<char>,
    still_running: bool,
)
    ensures
        kind == "resync_required"@ ==> follow_of(kind, parsed, event_run, run_id, still_running)
            == FollowStep::Exhausted,
        kind != "resync_required"@ && !parsed ==> follow_of(kind, parsed, event_run, run_id, still_running)
            == FollowStep::Skip,
        kind != "resync_required"@ && parsed && event_run != Some(run_id) ==> follow_of(
            kind,
            parsed,
            event_run,
            run_id,
            still_running,
        ) == (if still_running {
            FollowStep::Skip
        } else {
            FollowStep::Stop
        }),
        (follow_of(kind, parsed, event_run, run_id, still_running) is Send || follow_of(
            kind,
            parsed,
            event_run,
            run_id,
            still_running,
        ) is SendAndStop) ==> parsed && event_run == Some(run_id),
{
}

} // verus!
