use gqy_web::event_data::{event_data_field, event_field, event_u64_field};
use gqy_web::goal::{goal_record_action, GoalAction};
use gqy_web::ipc::{follow_record, forward_record, web_port_fallback, FollowStep, Forward};
use gqy_web::job_wake::{tty_record_step, TtyStep};

#[test]
fn event_data_is_read_as_json() {
    let data = r#"{"run_id":"r1","session_id":"s1","latest_event_id":42}"#;
    assert_eq!(event_field(data, "run_id").as_deref(), Some("r1"));
    assert_eq!(event_field(data, "latest_event_id"), None);
    assert_eq!(event_u64_field(data, "latest_event_id"), Some(42));
    assert_eq!(event_u64_field(data, "run_id"), None);
    assert_eq!(event_data_field("not json", "run_id"), (false, None));
    assert_eq!(event_data_field(r#"{"other":1}"#, "run_id"), (true, None));
}

#[test]
fn a_turn_client_gets_only_its_own_records() {
    let mine = r#"{"run_id":"r1","delta":"hi"}"#;
    assert!(matches!(forward_record("message.delta", 7, mine, "r1", true, 3), (Forward::Send, 7)));
    assert!(matches!(forward_record("run.completed", 8, mine, "r1", true, 7), (Forward::SendAndFinish, 8)));
    let other = r#"{"run_id":"r2"}"#;
    assert!(matches!(forward_record("message.delta", 9, other, "r1", true, 8), (Forward::Skip, 9)));
    assert!(matches!(forward_record("message.delta", 10, "garbage", "r1", true, 9), (Forward::Skip, 10)));
    let resync = r#"{"latest_event_id":500}"#;
    assert!(matches!(forward_record("resync_required", 11, resync, "r1", true, 10), (Forward::Resume, 500)));
    assert!(matches!(forward_record("resync_required", 11, "{}", "r1", false, 10), (Forward::Exhausted, 10)));
}

#[test]
fn following_a_run_stops_when_it_is_gone() {
    assert!(matches!(follow_record("run.failed", r#"{"run_id":"r1"}"#, "r1", true), FollowStep::SendAndStop));
    assert!(matches!(follow_record("x", r#"{"run_id":"r2"}"#, "r1", false), FollowStep::Stop));
    assert!(matches!(follow_record("x", "garbage", "r1", false), FollowStep::Skip));
    assert!(matches!(
        tty_record_step("run.cancelled", r#"{"run_id":"r1"}"#, "r1", true, None),
        TtyStep::WriteAndFinish { interrupted: true }
    ));
    assert!(matches!(tty_record_step("x", r#"{"run_id":"r9"}"#, "r1", false, None), TtyStep::Stop));
}

#[test]
fn the_goal_driver_reads_the_session_of_a_record() {
    let (action, session) = goal_record_action("run.failed", r#"{"session_id":"s1","run_id":"r"}"#, None, true);
    assert!(matches!(action, GoalAction::Disarm));
    assert_eq!(session.as_deref(), Some("s1"));
    let (action, session) = goal_record_action("run.failed", r#"{"run_id":"r"}"#, None, true);
    assert!(matches!(action, GoalAction::Nothing));
    assert_eq!(session, None);
    let (action, _) = goal_record_action("tool.started", "{}", None, false);
    assert!(matches!(action, GoalAction::MarkProductive));
}

#[test]
fn only_a_busy_default_port_falls_back() {
    assert_eq!(web_port_fallback(7878, 7878, true), Some(0));
    assert_eq!(web_port_fallback(7878, 7878, false), None);
    assert_eq!(web_port_fallback(9000, 7878, true), None);
}
