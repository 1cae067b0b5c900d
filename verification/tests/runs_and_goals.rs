use gqy_web::goal::{
    apply_goal_command, goal_event_action, goal_round_display, goal_round_gate, GoalAction, GoalGate, GoalPhase,
    GoalSnapshot, RunEvent,
};
use gqy_web::ipc::{admit_ipc_turn, check_protocol_version, forward_event, Forward};
use gqy_web::runs::{web_followup_audience, Audience, Busy, Origin, QueueTarget, RunInfo, RunRegistry, WorkerReply};

fn run(session: &str, audience: Audience, turn: Option<&str>, origin: Origin) -> RunInfo {
    RunInfo {
        session_id: session.to_string(),
        audience,
        turn_id: turn.map(|t| t.to_string()),
        origin,
        cancel_requested: false,
        platform_followup: false,
        queue_ready: true,
    }
}

#[test]
fn a_session_reservation_refuses_runs_in_that_session_only() {
    let mut registry = RunRegistry::new();
    assert!(registry.reserve_admin_for_session("s1").is_ok());
    assert!(registry.admin_blocks_session("s1"));
    assert!(!registry.admin_blocks_session("s2"));
    let refused = registry.start_run("r1", run("s1", Audience::External, None, Origin::Human));
    let error = refused.err().unwrap();
    assert_eq!(error.status, 409);
    assert_eq!(error.message, "GQY is busy in this conversation");
    assert!(registry.start_run("r2", run("s2", Audience::External, None, Origin::Human)).is_ok());
    assert!(registry.session_has_runs("s2"));
    registry.release_admin();
    assert!(!registry.admin_blocks_session("s1"));
}

#[test]
fn a_global_reservation_needs_no_run_in_flight() {
    let mut registry = RunRegistry::new();
    assert!(registry.start_run("r1", run("s1", Audience::External, None, Origin::Human)).is_ok());
    assert!(matches!(registry.reserve_admin(), Err(Busy::AdminBusy)));
    assert!(registry.finish_run("r1"));
    assert!(registry.reserve_admin().is_ok());
    assert!(registry.admin_blocks_session("any"));
    assert!(matches!(registry.reserve_admin_light(), Err(Busy::AdminBusy)));
}

#[test]
fn starting_and_finishing_a_run_leaves_the_registry_as_it_was() {
    let mut registry = RunRegistry::new();
    assert!(registry.start_run("r1", run("s1", Audience::External, Some("t1"), Origin::Human)).is_ok());
    assert!(registry.get("r1").is_some());
    let second = registry.start_run("r2", run("s1", Audience::External, None, Origin::Human));
    assert!(second.is_err());
    assert!(registry.finish_run("r1"));
    assert!(!registry.finish_run("r1"));
    assert!(registry.get("r1").is_none());
    assert!(!registry.session_has_runs("s1"));
}

#[test]
fn terminal_turns_run_side_by_side_but_not_past_a_reservation() {
    let mut registry = RunRegistry::new();
    assert!(admit_ipc_turn(&mut registry, "a", run("s1", Audience::Owner, None, Origin::Human)));
    assert!(admit_ipc_turn(&mut registry, "b", run("s1", Audience::Owner, None, Origin::Human)));
    assert!(registry.get("a").is_some() && registry.get("b").is_some());
    let mut reserved = RunRegistry::new();
    assert!(reserved.reserve_admin_for_session("s1").is_ok());
    assert!(!admit_ipc_turn(&mut reserved, "c", run("s1", Audience::Owner, None, Origin::Human)));
    assert!(reserved.get("c").is_none());
}

#[test]
fn queueing_into_a_session_targets_its_single_known_run() {
    let mut registry = RunRegistry::new();
    assert!(matches!(registry.queue_into_running_session("s1"), QueueTarget::NotRunning));
    registry.insert_run("r1", run("s1", Audience::External, None, Origin::Human));
    assert!(matches!(registry.queue_into_running_session("s1"), QueueTarget::NotReady));
    let mut known = RunRegistry::new();
    known.insert_run("r1", run("s1", Audience::External, Some("t1"), Origin::Human));
    match known.queue_into_running_session("s1") {
        QueueTarget::Target { run_id, turn_id, audience } => {
            assert_eq!(run_id, "r1");
            assert_eq!(turn_id, "t1");
            assert!(matches!(audience, Audience::External));
        }
        _ => panic!("expected the running turn"),
    }
}

#[test]
fn cancelling_a_goal_round_disarms_its_goal() {
    let mut registry = RunRegistry::new();
    registry.insert_run("r1", run("s1", Audience::Owner, Some("t"), Origin::GoalRound));
    let (session, goal) = registry.cancel_run_and_disarm_goal("r1").unwrap();
    assert_eq!(session, "s1");
    assert!(goal);
    assert!(registry.get("r1").unwrap().cancel_requested);
    assert!(registry.cancel_run_and_disarm_goal("missing").is_none());
    assert!(registry.session_has_goal_round_run("s1"));
    assert!(registry.session_runs_are_goal_rounds("s1"));
}

#[test]
fn follow_ups_to_goal_rounds_speak_for_the_owner() {
    assert!(matches!(web_followup_audience(&run("s", Audience::External, None, Origin::GoalRound)), Audience::Owner));
    assert!(matches!(web_followup_audience(&run("s", Audience::Owner, None, Origin::Human)), Audience::External));
}

fn goal(armed: bool, max: u64, started: u64) -> Option<GoalSnapshot> {
    Some(GoalSnapshot { phase: GoalPhase::Active, armed, max_rounds: max, rounds_started: started })
}

#[test]
fn no_goal_round_starts_over_a_busy_session() {
    assert!(matches!(goal_round_gate(false, false, true, true, true, false, goal(true, 0, 0)), GoalGate::Skip));
    assert!(matches!(goal_round_gate(false, true, false, true, true, false, goal(true, 0, 0)), GoalGate::Skip));
    assert!(matches!(goal_round_gate(false, false, false, false, true, false, goal(true, 0, 0)), GoalGate::Skip));
    assert!(matches!(goal_round_gate(true, false, false, true, true, false, goal(true, 0, 0)), GoalGate::Skip));
    assert!(matches!(goal_round_gate(false, false, false, true, true, true, goal(true, 0, 0)), GoalGate::Skip));
    assert!(matches!(goal_round_gate(false, false, false, true, true, false, goal(false, 0, 0)), GoalGate::Skip));
    assert!(matches!(goal_round_gate(false, false, false, true, true, false, goal(true, 3, 3)), GoalGate::BlockAtLimit));
    assert!(matches!(goal_round_gate(false, false, false, true, true, false, goal(true, 3, 2)), GoalGate::Claim));
    assert!(matches!(goal_round_gate(false, false, false, true, true, false, goal(true, 0, 99)), GoalGate::Claim));
}

#[test]
fn an_idle_goal_round_waits_for_the_user() {
    assert!(matches!(goal_event_action(RunEvent::Completed, true, Some(false), true), GoalAction::AwaitHuman));
    assert!(matches!(
        goal_event_action(RunEvent::Completed, true, Some(true), true),
        GoalAction::Continue { clear_awaiting: false }
    ));
    assert!(matches!(
        goal_event_action(RunEvent::Completed, true, None, false),
        GoalAction::Continue { clear_awaiting: true }
    ));
    assert!(matches!(goal_event_action(RunEvent::Completed, false, None, true), GoalAction::Nothing));
    assert!(matches!(goal_event_action(RunEvent::Failed, true, None, true), GoalAction::Disarm));
    assert!(matches!(goal_event_action(RunEvent::Failed, true, None, false), GoalAction::Nothing));
    assert!(matches!(goal_event_action(RunEvent::ToolStarted, false, None, false), GoalAction::MarkProductive));
}

#[test]
fn goal_commands_that_stop_rounds() {
    let (text, cancels) = apply_goal_command("  pause   now", Ok("paused".to_string()));
    assert_eq!(text, "paused");
    assert!(cancels);
    assert!(apply_goal_command("clear", Err("nothing".to_string())).1);
    assert!(apply_goal_command("edit x", Ok(String::new())).1);
    assert!(!apply_goal_command("edit x", Err("bad".to_string())).1);
    assert!(!apply_goal_command("status", Ok(String::new())).1);
}

#[test]
fn goal_rounds_are_labelled_with_their_number() {
    assert_eq!(goal_round_display(12, "写完报告"), "[目标续轮] 第 12 轮 · 写完报告");
    assert_eq!(goal_round_display(0, "x"), "[目标续轮] 第 0 轮 · x");
}

#[test]
fn other_protocol_versions_may_only_ping_or_shut_down() {
    assert!(check_protocol_version(3, 3, false).is_ok());
    assert!(check_protocol_version(2, 3, true).is_ok());
    assert_eq!(
        check_protocol_version(2, 3, false).unwrap_err(),
        "unsupported IPC protocol version 2; expected 3"
    );
}

#[test]
fn a_follower_sees_only_its_own_run() {
    assert!(matches!(forward_event("run.delta", 7, None, true, Some("other"), "mine", true, 5), (Forward::Skip, 7)));
    assert!(matches!(forward_event("run.delta", 7, None, true, Some("mine"), "mine", true, 5), (Forward::Send, 7)));
    assert!(matches!(
        forward_event("run.completed", 8, None, true, Some("mine"), "mine", true, 7),
        (Forward::SendAndFinish, 8)
    ));
    assert!(matches!(forward_event("run.delta", 9, None, false, Some("mine"), "mine", true, 8), (Forward::Skip, 9)));
    assert!(matches!(
        forward_event("resync_required", 10, Some(40), true, None, "mine", true, 9),
        (Forward::Resume, 40)
    ));
    assert!(matches!(
        forward_event("resync_required", 10, None, true, None, "mine", false, 9),
        (Forward::Exhausted, 9)
    ));
}

use gqy_web::ipc::{follow_step, FollowStep};

#[test]
fn following_a_run_ends_with_its_terminal_event() {
    assert!(matches!(follow_step("resync_required", true, None, "r", true), FollowStep::Exhausted));
    assert!(matches!(follow_step("run.delta", false, Some("r"), "r", true), FollowStep::Skip));
    assert!(matches!(follow_step("run.delta", true, Some("x"), "r", true), FollowStep::Skip));
    assert!(matches!(follow_step("run.delta", true, Some("x"), "r", false), FollowStep::Stop));
    assert!(matches!(follow_step("run.delta", true, Some("r"), "r", true), FollowStep::Send));
    assert!(matches!(follow_step("run.cancelled", true, Some("r"), "r", true), FollowStep::SendAndStop));
}

#[test]
fn a_worker_that_never_answers_frees_the_reservation() {
    let mut registry = RunRegistry::new();
    assert!(registry.reserve_admin().is_ok());
    let err = registry.settle_admin_reply(WorkerReply::Stopped, 400, "updating the model").err().unwrap();
    assert_eq!(err.status, 503);
    assert_eq!(err.message, "agent worker stopped before updating the model");
    assert!(registry.reserve_admin().is_ok());
    let err = registry.settle_admin_reply(WorkerReply::Unreachable, 400, "updating the model").err().unwrap();
    assert_eq!(err.message, "agent worker is unavailable");
    assert!(!registry.admin_blocks_session("s1"));
}

#[test]
fn a_worker_answer_leaves_the_release_to_the_worker() {
    let mut registry = RunRegistry::new();
    assert!(registry.reserve_admin_for_session("s1").is_ok());
    let err = registry
        .settle_admin_reply(WorkerReply::Invalid("nothing to reset".to_string()), 409, "resetting the conversation")
        .err()
        .unwrap();
    assert_eq!(err.status, 409);
    assert_eq!(err.message, "nothing to reset");
    assert!(registry.admin_blocks_session("s1"));
    let err = registry.settle_admin_reply(WorkerReply::Internal("disk full".to_string()), 400, "x").err().unwrap();
    assert_eq!(err.status, 500);
    assert!(registry.settle_admin_reply(WorkerReply::Done, 400, "x").is_ok());
}

#[test]
fn a_queued_prompt_is_withdrawn_only_from_its_own_turn() {
    let mut registry = RunRegistry::new();
    assert!(registry.start_run("r1", run("s1", Audience::External, Some("t1"), Origin::Human)).is_ok());
    let mut not_ready = run("s2", Audience::External, Some("t2"), Origin::Human);
    not_ready.queue_ready = false;
    assert!(registry.start_run("r2", not_ready).is_ok());
    assert!(registry.start_run("r3", run("s3", Audience::Owner, Some("t3"), Origin::Human)).is_ok());
    assert_eq!(registry.check_queue_removal("r1", "t1", "p-1").ok(), Some("s1".to_string()));
    let err = registry.check_queue_removal("r1", "t1", "bad id").err().unwrap();
    assert_eq!((err.status, err.message.as_str()), (404, "queued prompt not found"));
    let err = registry.check_queue_removal("r1", "t9", "p-1").err().unwrap();
    assert_eq!((err.status, err.message.as_str()), (404, "queued prompt target not found"));
    let err = registry.check_queue_removal("missing", "t1", "p-1").err().unwrap();
    assert_eq!(err.message, "queued prompt target not found");
    let err = registry.check_queue_removal("r3", "t3", "p-1").err().unwrap();
    assert_eq!(err.message, "queued prompt target not found");
    let err = registry.check_queue_removal("r2", "t2", "p-1").err().unwrap();
    assert_eq!((err.status, err.message.as_str()), (409, "the active turn is not ready"));
}

#[test]
fn pausing_a_goal_cancels_only_its_rounds() {
    let mut registry = RunRegistry::new();
    registry.insert_run("g", run("s1", Audience::Owner, Some("t1"), Origin::GoalRound));
    registry.insert_run("h", run("s1", Audience::External, Some("t2"), Origin::Human));
    registry.insert_run("o", run("s2", Audience::Owner, Some("t3"), Origin::GoalRound));
    registry.cancel_goal_rounds_for_session("s1");
    assert!(registry.get("g").unwrap().cancel_requested);
    assert!(!registry.get("h").unwrap().cancel_requested);
    assert!(!registry.get("o").unwrap().cancel_requested);
    registry.cancel_session_runs("s1");
    assert!(registry.get("h").unwrap().cancel_requested);
    assert!(!registry.get("o").unwrap().cancel_requested);
}

#[test]
fn a_session_runs_local_webui_turns_only_when_all_its_runs_are() {
    let mut registry = RunRegistry::new();
    assert!(!registry.session_is_running_local_webui("s1"));
    assert!(registry.start_run("a", run("s1", Audience::External, None, Origin::Human)).is_ok());
    assert!(registry.session_is_running_local_webui("s1"));
    let mut platform = run("s1", Audience::External, None, Origin::Human);
    platform.platform_followup = true;
    registry.insert_run("b", platform);
    assert!(!registry.session_is_running_local_webui("s1"));
}
