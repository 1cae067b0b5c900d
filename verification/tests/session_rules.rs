use gqy_web::session_cmds::{attach_owner_turn_tools, find_unknown_model, group_session_ids_by_owner, OwnerTools};
use gqy_web::sessions::{
    apply_session_model_override_to, fallback_session_id, is_available_local_session, member_session_persona,
    publish_session_created, replacement_for_last_session, session_for_persona, session_overview_json, AgentMode,
    SessionOverview, SessionRecord,
};

fn record(id: &str, persona: &str, kind: &str) -> SessionRecord {
    SessionRecord {
        session_id: id.to_string(),
        name: format!("name of {id}"),
        kind: kind.to_string(),
        persona: persona.to_string(),
        owner: String::new(),
        sandbox: None,
        created_at: "c".to_string(),
        updated_at: "u".to_string(),
        sort_key: 0,
    }
}

fn row(id: &str) -> SessionOverview {
    SessionOverview { record: record(id, "gqy", "user"), turn_count: 3, last_user_content: Some("hi".to_string()) }
}

#[test]
fn member_sessions_go_to_their_private_persona() {
    assert_eq!(member_session_persona(Some("member:amy:cat"), "gqy"), "member:amy:cat");
    assert_eq!(member_session_persona(None, "gqy"), "gqy");
}

#[test]
fn sidebar_rows_mark_the_current_session() {
    let current = session_overview_json(&row("s1"), "s1");
    assert!(current.is_current);
    assert_eq!(current.turn_count, 3);
    assert_eq!(current.session.mode, "normal");
    assert!(!session_overview_json(&row("s2"), "s1").is_current);
    let dev = SessionOverview { record: record("d", "dev", "user"), turn_count: 0, last_user_content: None };
    assert_eq!(session_overview_json(&dev, "s1").session.mode, "dev");
}

#[test]
fn new_sessions_are_announced_with_their_mode() {
    let event = publish_session_created(&record("s9", "dev", "user"));
    assert_eq!((event.session_id.as_str(), event.name.as_str(), event.mode), ("s9", "name of s9", "dev"));
}

#[test]
fn a_deleted_session_falls_back_to_the_first_other_one() {
    let rows = vec![row("a"), row("b"), row("c")];
    assert_eq!(fallback_session_id(&rows, "a"), Some("b".to_string()));
    assert_eq!(fallback_session_id(&rows, "b"), Some("a".to_string()));
    assert_eq!(fallback_session_id(&[row("a")], "a"), None);
}

#[test]
fn deleting_the_last_session_makes_a_replacement() {
    let rows = vec![row("a"), row("default")];
    assert!(replacement_for_last_session(&rows, "a", "default", true));
    assert!(!replacement_for_last_session(&rows, "a", "default", false));
    let more = vec![row("a"), row("b")];
    assert!(!replacement_for_last_session(&more, "a", "default", true));
}

#[test]
fn a_persona_resumes_the_best_available_session() {
    assert_eq!(session_for_persona(Some(("cur", true)), Some(("mem", true)), Some("first")), Some("cur".to_string()));
    assert_eq!(session_for_persona(Some(("cur", false)), Some(("mem", true)), Some("first")), Some("mem".to_string()));
    assert_eq!(session_for_persona(None, Some(("mem", false)), Some("first")), Some("first".to_string()));
    assert_eq!(session_for_persona(None, None, None), None);
}

#[test]
fn only_user_sessions_of_the_persona_are_available() {
    let user = record("s", "gqy", "user");
    assert!(is_available_local_session(Some(&user), "gqy", false));
    assert!(!is_available_local_session(Some(&user), "gqy", true));
    assert!(!is_available_local_session(Some(&user), "other", false));
    assert!(!is_available_local_session(Some(&record("s", "gqy", "ask")), "gqy", false));
    assert!(!is_available_local_session(None, "gqy", false));
}

#[test]
fn a_pinned_model_pool_wins_over_the_configured_one() {
    assert_eq!(apply_session_model_override_to(Some(1), Ok::<Option<i32>, ()>(Some(2))), Some(2));
    assert_eq!(apply_session_model_override_to(Some(1), Ok::<Option<i32>, ()>(None)), Some(1));
    assert_eq!(apply_session_model_override_to(Some(1), Err::<Option<i32>, &str>("unreadable")), Some(1));
}

#[test]
fn reorders_are_split_by_owner_in_first_seen_order() {
    let ids = vec!["s1".to_string(), "s2".to_string(), "s3".to_string(), "s4".to_string()];
    let owners = vec!["".to_string(), "amy".to_string(), "".to_string(), "amy".to_string()];
    let groups = group_session_ids_by_owner(&ids, &owners);
    assert_eq!(
        groups,
        vec![
            ("".to_string(), vec!["s1".to_string(), "s3".to_string()]),
            ("amy".to_string(), vec!["s2".to_string(), "s4".to_string()]),
        ]
    );
}

#[test]
fn the_first_model_not_on_offer_is_named() {
    let choices = vec![("openai".to_string(), "gpt-4o".to_string()), ("deepseek".to_string(), "chat".to_string())];
    let fine = vec![("deepseek".to_string(), "chat".to_string())];
    assert_eq!(find_unknown_model(&fine, &choices), None);
    let bad = vec![
        ("deepseek".to_string(), "chat".to_string()),
        ("openai".to_string(), "o9".to_string()),
        ("x".to_string(), "y".to_string()),
    ];
    assert_eq!(find_unknown_model(&bad, &choices), Some(("openai".to_string(), "o9".to_string())));
}

#[test]
fn owner_turns_get_their_tools() {
    assert!(matches!(attach_owner_turn_tools(false, true, AgentMode::Normal, true), OwnerTools::Nothing));
    assert!(matches!(attach_owner_turn_tools(true, true, AgentMode::Normal, true), OwnerTools::Platform));
    assert!(matches!(attach_owner_turn_tools(true, false, AgentMode::Normal, true), OwnerTools::Local { webui: true }));
    assert!(matches!(attach_owner_turn_tools(true, false, AgentMode::Dev, true), OwnerTools::Local { webui: false }));
    assert!(matches!(attach_owner_turn_tools(true, false, AgentMode::Normal, false), OwnerTools::Local { webui: false }));
}
