use gqy_web::headers::HeaderList;
use gqy_web::session_cmds::{
    check_bridge_depth, check_rename, create_session_kind, created_session_persona, ensure_local_current_session,
    may_delete_session, require_local_web_session, session_api_error, CurrentRepair, RenameRefusal,
};
use gqy_web::sessions::{
    current_session_for, maybe_auto_name_session, member_current_session, require_no_running_turn,
    sanitize_session_title, session_title_from_prompt, sessions_with_dev, turn_mode_for_session, AgentMode,
    SessionOverview, SessionRecord,
};
use gqy_web::themes::{describe, theme_dir, theme_file_name, valid_name};
use gqy_web::turns::{turn_finish_plan, Terminal, TurnStage};

fn record(id: &str, persona: &str, owner: &str, sort_key: i64, updated: &str) -> SessionRecord {
    SessionRecord {
        session_id: id.to_string(),
        name: String::new(),
        kind: "user".to_string(),
        persona: persona.to_string(),
        owner: owner.to_string(),
        sandbox: None,
        created_at: String::new(),
        updated_at: updated.to_string(),
        sort_key,
    }
}

fn row(id: &str, sort_key: i64, updated: &str) -> SessionOverview {
    SessionOverview { record: record(id, "p", "", sort_key, updated), turn_count: 1, last_user_content: None }
}

#[test]
fn the_sidebar_is_ordered_by_position_then_recency() {
    let rows = vec![row("a", 1, "2026-01-01"), row("b", 0, "2026-01-01"), row("c", 1, "2026-03-01"), row("d", 0, "2026-02-01")];
    let ordered: Vec<String> = sessions_with_dev(rows).into_iter().map(|r| r.record.session_id).collect();
    assert_eq!(ordered, vec!["d", "b", "c", "a"]);
}

#[test]
fn a_member_continues_their_latest_session() {
    let rows = vec![row("a", 0, "2026-01-01"), row("b", 5, "2026-04-01"), row("c", 0, "2026-02-01")];
    assert_eq!(member_current_session(&rows).as_deref(), Some("b"));
    assert_eq!(current_session_for(false, "global", &rows), "b");
    assert_eq!(current_session_for(true, "global", &rows), "global");
    assert_eq!(current_session_for(false, "global", &[]), "");
}

#[test]
fn dev_sessions_run_in_dev_mode() {
    assert!(matches!(turn_mode_for_session(Some("dev"), AgentMode::Normal), AgentMode::Dev));
    assert!(matches!(turn_mode_for_session(Some("p"), AgentMode::Dev), AgentMode::Normal));
    assert!(matches!(turn_mode_for_session(None, AgentMode::Dev), AgentMode::Normal));
}

#[test]
fn session_titles_are_one_short_line() {
    assert_eq!(sanitize_session_title("  「旅行   计划」。\n第二行"), "旅行 计划");
    assert_eq!(session_title_from_prompt("  hello   world  \nmore"), "hello world");
    assert_eq!(session_title_from_prompt(&"字".repeat(25)), format!("{}…", "字".repeat(20)));
    assert_eq!(maybe_auto_name_session("", "帮我写诗").as_deref(), Some("帮我写诗"));
    assert_eq!(maybe_auto_name_session("已命名", "帮我写诗"), None);
    assert_eq!(maybe_auto_name_session(" ", "   "), None);
}

#[test]
fn running_sessions_refuse_changes() {
    assert!(require_no_running_turn(false).is_ok());
    assert_eq!(require_no_running_turn(true).unwrap_err().status, 409);
}

#[test]
fn web_users_reach_only_their_own_user_sessions() {
    let own = record("s1", "p-cat", "a1", 0, "");
    assert!(require_local_web_session(Some(record("s1", "p-cat", "a1", 0, "")), false, "a1", "gqy").is_ok());
    let error = require_local_web_session(Some(own), false, "a2", "gqy").err().unwrap();
    assert_eq!((error.status, error.message.as_str()), (404, "session not found"));
    assert!(require_local_web_session(Some(record("s2", "p", "a1", 0, "")), true, "a1", "gqy").is_err());
    assert!(require_local_web_session(Some(record("s3", "other", "", 0, "")), false, "", "gqy").is_err());
    assert!(require_local_web_session(Some(record("s3", "dev", "", 0, "")), false, "", "gqy").is_ok());
    assert!(require_local_web_session(None, false, "", "gqy").is_err());
}

#[test]
fn session_commands_keep_their_rules() {
    assert!(matches!(ensure_local_current_session(true, Some("x")), CurrentRepair::Keep));
    assert!(matches!(ensure_local_current_session(false, Some("x")), CurrentRepair::SwitchTo(id) if id == "x"));
    assert!(matches!(ensure_local_current_session(false, None), CurrentRepair::CreateAndSwitch));
    assert_eq!(create_session_kind(None, true), Some("user"));
    assert_eq!(create_session_kind(Some("ask"), false), Some("ask"));
    assert_eq!(create_session_kind(Some("ask"), true), None);
    assert_eq!(create_session_kind(Some("other"), false), None);
    assert_eq!(created_session_persona(Some("dev"), "p-cat"), "dev");
    assert_eq!(created_session_persona(Some("normal"), "p-cat"), "p-cat");
    assert_eq!(check_rename("s1", "default", "  新名字 ").ok().as_deref(), Some("新名字"));
    assert!(matches!(check_rename("default", "default", "x"), Err(RenameRefusal::DefaultSession)));
    assert!(matches!(check_rename("s1", "default", "   "), Err(RenameRefusal::EmptyName)));
    assert!(!may_delete_session("default", "default"));
    assert!(may_delete_session("s1", "default"));
    assert_eq!(check_bridge_depth(3, 3).unwrap_err(), "tool bridge recursion limit reached (depth 3)");
    assert!(check_bridge_depth(2, 3).is_ok());
    let error = session_api_error("boom".to_string());
    assert_eq!((error.status, error.message.as_str()), (400, "boom"));
}

#[test]
fn each_turn_ending_has_one_terminal_event() {
    let cancelled = turn_finish_plan(TurnStage::ChatCancelled);
    assert!(matches!(cancelled.terminal, Terminal::Cancelled) && cancelled.drop_queue && !cancelled.completed);
    let failed = turn_finish_plan(TurnStage::SetupFailed);
    assert!(matches!(failed.terminal, Terminal::Failed) && !failed.drop_queue);
    let overflow = turn_finish_plan(TurnStage::OverflowCancelled);
    assert!(matches!(overflow.terminal, Terminal::Completed) && overflow.drop_queue && overflow.completed);
    let context = turn_finish_plan(TurnStage::ContextFailed);
    assert!(matches!(context.terminal, Terminal::CompletedWithContextError) && context.completed);
    let done = turn_finish_plan(TurnStage::Done);
    assert!(matches!(done.terminal, Terminal::Completed) && !done.drop_queue);
}

#[test]
fn a_header_reads_back_what_was_written() {
    let mut headers = HeaderList::new();
    headers.insert("etag", "\"a\"");
    headers.insert("vary", "accept-encoding");
    headers.insert("etag", "\"b\"");
    assert_eq!(headers.get("etag").as_deref(), Some("\"b\""));
    assert_eq!(headers.get("missing"), None);
    assert_eq!(headers.to_pairs().len(), 2);
}

#[test]
fn themes_describe_themselves_in_their_header() {
    let css = "/* \n * title: 海盐\n * 说明：清爽的蓝\n */\n:root { --md-sys-color-primary: #1a73e8; }";
    let info = describe(css, "sea-salt");
    assert_eq!(info.title, "海盐");
    assert_eq!(info.description, "清爽的蓝");
    assert_eq!(info.accent.as_deref(), Some("#1a73e8"));
    let bare = describe(":root{}", "plain");
    assert_eq!(bare.title, "plain");
    assert_eq!(bare.description, "");
    assert_eq!(bare.accent, None);
    assert!(valid_name("sea-salt-2"));
    assert!(!valid_name("-lead"));
    assert!(!valid_name("Upper"));
    assert!(!valid_name(""));
    assert_eq!(theme_file_name("sea.css").as_deref(), Some("sea"));
    assert_eq!(theme_file_name("Sea.css"), None);
    assert_eq!(theme_file_name("sea.txt"), None);
    assert_eq!(theme_dir("/home/g/.config/gqy").into_iter().collect::<String>(), "/home/g/.config/gqy/webui-themes");
}
