use gqy_web::bootstrap::{running_view, visible_runs, RunningTarget};
use gqy_web::config_checks::{validate_config_candidate, web_display_config};
use gqy_web::context_panel::{context_breakdown_for, ProviderKind};
use gqy_web::dashboards::{default_limit, default_table, parse_table, BrowseTable};
use gqy_web::dev_assets::dev_asset_path;
use gqy_web::extensions::{
    bad_request, is_system_interpreter, known_git_dir, mcp_origin, mcp_path, package_owner, strip_prefix, Origin,
};
use gqy_web::rebuild::{follow_persona_changes, migrated_previous_scope, rollback_for, PersonaSessions, RebuildStep};

fn chars(s: &str) -> Vec<char> {
    s.chars().collect()
}

#[test]
fn paths_under_the_root_are_relative_to_it() {
    assert_eq!(strip_prefix(&chars("/home/g/.gqy/scripts/a.py"), &chars("/home/g/.gqy")), Some(chars("scripts/a.py")));
    assert_eq!(strip_prefix(&chars("/home/g/.gqyx/a"), &chars("/home/g/.gqy")), None);
}

#[test]
fn files_belong_to_the_package_that_installed_them() {
    let packages = vec![
        ("weather".to_string(), vec!["scripts/weather.py".to_string()]),
        ("notes".to_string(), vec!["skills/notes/SKILL.md".to_string()]),
    ];
    assert_eq!(package_owner("/r", &packages, "/r/scripts/weather.py").as_deref(), Some("weather"));
    assert_eq!(package_owner("/r", &packages, "/r/skills/notes").as_deref(), Some("notes"));
    assert_eq!(package_owner("/r", &packages, "/r/skills/not").as_deref(), None);
    assert_eq!(package_owner("/r", &packages, "/elsewhere/scripts/weather.py"), None);
}

#[test]
fn an_mcp_server_lands_on_its_first_existing_absolute_path() {
    let args = vec!["-u".to_string(), "/srv/server.py".to_string()];
    assert_eq!(mcp_path(&args, "/usr/bin/python3", &vec![false, true, true]).as_deref(), Some("/srv/server.py"));
    assert_eq!(mcp_path(&args, "/usr/bin/python3", &vec![false, false, true]).as_deref(), Some("/usr/bin/python3"));
    assert_eq!(mcp_path(&vec!["pkg".to_string()], "npx", &vec![true, true]), None);
}

#[test]
fn interpreters_are_not_extensions() {
    assert!(is_system_interpreter("/usr/bin/python3"));
    assert!(is_system_interpreter("/opt/homebrew/opt/node/bin/node"));
    assert!(!is_system_interpreter("/usr/binx/tool"));
    assert!(!is_system_interpreter("/home/g/.venv/bin/python"));
    let detected = Origin {
        kind: "git".to_string(),
        dir: Some("/src/ext".to_string()),
        remote: Some("origin".to_string()),
        commit: None,
        deps: vec!["requests".to_string()],
    };
    let kept = mcp_origin(Some("/src/ext/server.py"), &detected);
    assert_eq!(kept.kind, "git");
    assert_eq!(kept.deps, vec!["requests".to_string()]);
    let managed = mcp_origin(Some("/usr/bin/python3"), &detected);
    assert_eq!(managed.kind, "managed");
    assert_eq!(managed.dir, None);
    assert_eq!(mcp_origin(None, &detected).kind, "managed");
}

#[test]
fn only_known_git_checkouts_may_be_updated() {
    let origins = vec![
        Origin { kind: "managed".to_string(), dir: Some("/a".to_string()), remote: None, commit: None, deps: vec![] },
        Origin { kind: "git".to_string(), dir: Some("/b".to_string()), remote: None, commit: None, deps: vec![] },
    ];
    assert_eq!(known_git_dir(&origins, "/b"), Ok("/b".to_string()));
    assert_eq!(known_git_dir(&origins, "/a"), Err("/a is not a known extension repository".to_string()));
    let error = bad_request("boom");
    assert_eq!((error.status, error.message.as_str()), (400, "boom"));
}

#[test]
fn configuration_candidates_are_refused_with_a_reason() {
    let ids = vec!["a".to_string(), "b".to_string()];
    assert!(validate_config_candidate(Ok(()), &ids, None, None, &vec![]).is_ok());
    let error = validate_config_candidate(Err("bad port".to_string()), &ids, None, None, &vec![]).unwrap_err();
    assert_eq!((error.status, error.message.as_str()), (400, "invalid configuration: bad port"));
    let dup = vec!["a".to_string(), " a ".to_string()];
    assert_eq!(
        validate_config_candidate(Ok(()), &dup, None, None, &vec![]).unwrap_err().message,
        "duplicate provider id:  a "
    );
    assert_eq!(
        validate_config_candidate(Ok(()), &ids, Some(Err("unknown model".to_string())), None, &vec![])
            .unwrap_err()
            .message,
        "unknown model"
    );
    let choices = vec![("a".to_string(), "m1".to_string())];
    let fine = vec![("a".to_string(), "m1".to_string())];
    assert!(validate_config_candidate(Ok(()), &ids, Some(Ok(())), Some(&fine), &choices).is_ok());
    let twice = vec![("a".to_string(), "m1".to_string()), ("a".to_string(), "m1".to_string())];
    assert_eq!(
        validate_config_candidate(Ok(()), &ids, None, Some(&twice), &choices).unwrap_err().message,
        "invalid multimodal provider/model: a / m1"
    );
    let unknown = vec![("b".to_string(), "m9".to_string())];
    assert_eq!(
        validate_config_candidate(Ok(()), &ids, None, Some(&unknown), &choices).unwrap_err().message,
        "invalid multimodal provider/model: b / m9"
    );
}

#[test]
fn the_mixed_endpoint_shows_only_with_a_choice_and_the_mode() {
    let shown = web_display_config("auto", "compact", true, 12, "interactive", 2);
    assert!(shown.show_mixed_model_endpoint);
    assert_eq!(shown.command_output_lines, 12);
    assert_eq!(shown.reasoning, "auto");
    assert!(!web_display_config("auto", "compact", true, 12, "interactive", 1).show_mixed_model_endpoint);
    assert!(!web_display_config("auto", "compact", true, 12, "off", 3).show_mixed_model_endpoint);
    assert!(web_display_config("auto", "compact", false, 0, "all", 3).show_mixed_model_endpoint);
}

#[test]
fn memory_browsing_defaults_and_tables() {
    assert_eq!(default_table(), "facts");
    assert_eq!(default_limit(), 50);
    assert_eq!(parse_table("facts").ok(), Some(BrowseTable::Facts));
    assert_eq!(parse_table("episodes").ok(), Some(BrowseTable::Episodes));
    let error = parse_table("Facts").unwrap_err();
    assert_eq!((error.status, error.message.as_str()), (400, "table must be facts or episodes"));
}

#[test]
fn relaying_backends_report_their_own_overhead() {
    let relayed = context_breakdown_for(Some(ProviderKind::ClaudeCode), Some((200_000, true)), Some(1200), 1500);
    assert_eq!(relayed.backend, "claude_code");
    assert_eq!(relayed.cli_overhead_tokens, Some(-300));
    assert_eq!(relayed.window, Some(200_000));
    assert!(relayed.window_assumed);
    let native = context_breakdown_for(Some(ProviderKind::Native), None, Some(1200), 1000);
    assert_eq!(native.backend, "native");
    assert_eq!(native.cli_overhead_tokens, None);
    assert_eq!(context_breakdown_for(None, None, None, 5).backend, "native");
    assert_eq!(context_breakdown_for(Some(ProviderKind::Codex), None, None, 5).cli_overhead_tokens, None);
}

#[test]
fn the_previous_scope_follows_its_rename() {
    let changes = vec![("p-dog".to_string(), None), ("p-cat".to_string(), Some("p-kitty".to_string()))];
    assert_eq!(migrated_previous_scope(&changes, "p-cat"), "p-kitty");
    assert_eq!(migrated_previous_scope(&changes, "p-dog"), "p-dog");
    assert_eq!(migrated_previous_scope(&changes, "p-owl"), "p-owl");
}

#[test]
fn remembered_sessions_follow_renamed_scopes() {
    let mut sessions = PersonaSessions::new();
    sessions.insert("p-cat", "s1");
    sessions.insert("p-dog", "s2");
    sessions.insert("p-cat", "s3");
    assert_eq!(sessions.get("p-cat").as_deref(), Some("s3"));
    let changes = vec![("p-cat".to_string(), Some("p-kitty".to_string())), ("p-dog".to_string(), None)];
    follow_persona_changes(&mut sessions, &changes, None);
    assert_eq!(sessions.get("p-kitty").as_deref(), Some("s3"));
    assert_eq!(sessions.get("p-cat"), None);
    assert_eq!(sessions.get("p-dog").as_deref(), Some("s2"));
    follow_persona_changes(&mut sessions, &vec![], Some(("p-kitty", "s3", "p-owl", "s9")));
    assert_eq!(sessions.get("p-owl").as_deref(), Some("s9"));
    assert_eq!(sessions.remove("p-owl").as_deref(), Some("s9"));
    assert_eq!(sessions.get("p-owl"), None);
}

#[test]
fn a_failed_apply_puts_back_what_was_changed_before() {
    let early = rollback_for(RebuildStep::PromptFiles);
    assert!(!early.prompt_files && !early.scope_dirs && !early.config_file && !early.previous_session);
    let agent = rollback_for(RebuildStep::BuildAgent);
    assert!(agent.prompt_files && agent.scope_dirs && !agent.config_file);
    let save = rollback_for(RebuildStep::SaveConfig);
    assert!(save.config_file && !save.previous_session);
    let last = rollback_for(RebuildStep::SetCurrent);
    assert!(last.prompt_files && last.scope_dirs && last.config_file && last.previous_session);
}

#[test]
fn start_up_shows_the_runs_of_owned_sessions() {
    let runs = vec![("r1".to_string(), "s1".to_string()), ("r2".to_string(), "s2".to_string())];
    assert_eq!(visible_runs(&runs, &vec!["s2".to_string()]), vec!["r2".to_string()]);
    let target = RunningTarget { turn_id: "t1".to_string(), queue_session_id: Some("q".to_string()), owner_pid: Some(7) };
    let external = running_view(false, Some(&target));
    assert!(external.external && external.external_queue_available && external.offer_redo);
    assert_eq!(external.running_turn_id.as_deref(), Some("t1"));
    let own = running_view(true, Some(&target));
    assert!(!own.external && !own.external_queue_available && !own.offer_redo);
    let idle = running_view(false, None);
    assert!(!idle.external && idle.running_turn_id.is_none() && idle.offer_redo);
}

#[test]
fn development_requests_name_only_servable_files() {
    assert_eq!(dev_asset_path("/app.js"), Some(("app.js".to_string(), "application/javascript; charset=utf-8")));
    assert_eq!(dev_asset_path("/core/api.js").map(|(p, _)| p), Some("core/api.js".to_string()));
    for rejected in [
        "/",
        "/index.html",
        "/css/00-tokens.css",
        "/vendor/lib.js",
        "/notes.md",
        "/../outside/secret.js",
        "/core/../../outside/secret.js",
        "app.js",
    ] {
        assert!(dev_asset_path(rejected).is_none(), "{rejected}");
    }
}


use gqy_web::job_wake::{
    job_route, job_wake_display, job_wake_label, local_job_report, local_wake_plan, platform_job_report,
    tty_stream_step, JobCompletion, JobRoute, LocalWake, TtyStep,
};
use gqy_web::runs::Audience;

fn completion(subagent: bool) -> JobCompletion {
    JobCompletion {
        job_id: "j7".to_string(),
        title: "build".to_string(),
        command: "cargo build --release".to_string(),
        state_label: "completed".to_string(),
        runtime_seconds: 42,
        log_path: "/tmp/j7.log".to_string(),
        is_subagent: subagent,
        wake_requested: true,
    }
}

#[test]
fn job_reports_state_the_facts() {
    let local = local_job_report(&completion(false), &Some(("日志尾部".to_string(), "ok".to_string())));
    assert_eq!(
        local,
        "<background-job-report>后台命令「build」已执行完毕：\n- job_id: j7\n- 任务: cargo build --release\n- 状态: completed（运行 42 秒）\n- 日志: /tmp/j7.log\n- 日志尾部:\nok\n这是系统自动触发的跟进，不是用户消息。</background-job-report>"
    );
    let platform = platform_job_report(&completion(true), &None);
    assert_eq!(
        platform,
        "<background-job-report>后台子代理「build」已执行完毕：\n- job_id: j7\n- 任务: cargo build --release\n- 状态: completed（运行 42 秒）\n这是系统自动触发的跟进，不是用户消息。</background-job-report>"
    );
    let mut long = completion(false);
    long.command = "x".repeat(300);
    assert!(local_job_report(&long, &None).contains(&format!("- 任务: {}\n", "x".repeat(120))));
    assert!(platform_job_report(&long, &None).contains(&format!("- 任务: {}\n", "x".repeat(200))));
    assert_eq!(job_wake_label(&completion(false)), "命令完成 j7 · build");
    assert_eq!(job_wake_display(&completion(true)), "[后台任务完成] 子代理完成 j7 · build");
}

#[test]
fn finished_jobs_report_where_they_came_from() {
    assert!(matches!(job_route(false, true, Some(false)), JobRoute::AcknowledgeNow));
    assert!(matches!(job_route(true, true, Some(true)), JobRoute::Platform));
    assert!(matches!(job_route(true, true, Some(false)), JobRoute::Local));
    assert!(matches!(job_route(true, true, None), JobRoute::Nowhere));
    assert!(matches!(job_route(true, false, Some(false)), JobRoute::Nowhere));
    match local_wake_plan(Some(("r1", Some("t1"), Audience::External)), true) {
        LocalWake::JoinRun { run_id, turn_id, audience } => {
            assert_eq!((run_id.as_str(), turn_id.as_str()), ("r1", "t1"));
            assert!(matches!(audience, Audience::External));
        }
        _ => panic!("expected to join the run"),
    }
    assert!(matches!(local_wake_plan(Some(("r1", None, Audience::Owner)), false), LocalWake::TurnStarting));
    assert!(matches!(local_wake_plan(None, true), LocalWake::AdminBusy));
    assert!(matches!(local_wake_plan(None, false), LocalWake::StartTurn));
}

#[test]
fn the_terminal_write_back_stops_when_the_prompt_is_busy() {
    assert!(matches!(tty_stream_step("run.delta", true, Some("r"), "r", true, None), TtyStep::Write));
    assert!(matches!(tty_stream_step("run.delta", true, Some("r"), "r", true, Some(false)), TtyStep::Abort));
    assert!(matches!(tty_stream_step("run.delta", true, Some("x"), "r", true, None), TtyStep::Skip));
    assert!(matches!(tty_stream_step("run.delta", true, Some("x"), "r", false, None), TtyStep::Stop));
    assert!(matches!(tty_stream_step("run.delta", false, Some("r"), "r", true, None), TtyStep::Skip));
    assert!(matches!(
        tty_stream_step("run.completed", true, Some("r"), "r", true, Some(true)),
        TtyStep::WriteAndFinish { interrupted: false }
    ));
    assert!(matches!(
        tty_stream_step("run.failed", true, Some("r"), "r", true, None),
        TtyStep::WriteAndFinish { interrupted: true }
    ));
}

use gqy_web::actor::{agent_built, ensure_actor_agent, switch_actor_session, EngineState};

#[test]
fn the_engine_reports_its_agent_build() {
    assert_eq!(ensure_actor_agent(true), None);
    assert_eq!(ensure_actor_agent(false), Some(EngineState::Initializing));
    assert_eq!(agent_built(true), EngineState::Ready);
    assert_eq!(agent_built(false), EngineState::Failed);
    let mut sessions = PersonaSessions::new();
    let event = switch_actor_session(&mut sessions, "p-cat", "s4");
    assert_eq!(event.session_id, "s4");
    assert_eq!(sessions.get("p-cat").as_deref(), Some("s4"));
}

use gqy_web::extensions::{mcp_status, mcp_title, skill_origin, SkillOrigin};

#[test]
fn extension_listings_show_titles_statuses_and_origins() {
    assert_eq!(mcp_title("  ", "weather"), "weather");
    assert_eq!(mcp_title("天气", "weather"), "天气");
    assert_eq!(mcp_status(None), ("unknown", None));
    assert_eq!(mcp_status(Some(Ok(()))), ("ok", None));
    assert_eq!(mcp_status(Some(Err("timeout".to_string()))), ("failed", Some("timeout".to_string())));
    assert!(matches!(skill_origin(Some("notes"), Some("/x")), SkillOrigin::Package));
    assert!(matches!(skill_origin(None, Some("/x")), SkillOrigin::Detect(p) if p == "/x"));
    assert!(matches!(skill_origin(None, None), SkillOrigin::Builtin));
}

use gqy_web::dev_assets::{dev_asset_response, dev_etag};

#[test]
fn development_assets_carry_their_content_hash() {
    assert_eq!(dev_etag(b"x"), "\"dev-2d711642b726b04401627ca9\"");
    let fresh = dev_asset_response(None, b"x", "text/css; charset=utf-8");
    assert_eq!(fresh.status, 200);
    assert_eq!(fresh.headers.get("etag").as_deref(), Some("\"dev-2d711642b726b04401627ca9\""));
    let cached = dev_asset_response(Some("\"dev-2d711642b726b04401627ca9\""), b"x", "text/css; charset=utf-8");
    assert_eq!(cached.status, 304);
    assert!(cached.body.is_empty());
}
