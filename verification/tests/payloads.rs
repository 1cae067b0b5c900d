use gqy_web::assets::{artifact_csp, binary_asset, build_etag, fence_frame_asset, request_origin, text_asset};
use gqy_web::dto::{
    artifact_type_label, mode_name, parse_mode, real_tool_name, redact_internal_assistant_text, safe_models,
    safe_multimodal_models, tool_call_outcome, validate_model_selection, validate_short_field,
    validate_thinking_variant_updates, ModelChoice, ThinkingVariantUpdate,
};
use gqy_web::sessions::{refined_title, title_request_prompt, AgentMode};

#[test]
fn short_fields_are_trimmed_and_bounded() {
    assert_eq!(validate_short_field("  gpt  ", "model", 10).unwrap(), "gpt");
    let empty = validate_short_field("   ", "model", 10).unwrap_err();
    assert_eq!((empty.status, empty.message.as_str()), (400, "model cannot be empty"));
    assert_eq!(validate_short_field("abcdefghijk", "model", 10).unwrap_err().message, "model is invalid");
    assert_eq!(validate_short_field("a\u{0}b", "model", 10).unwrap_err().message, "model is invalid");
}

#[test]
fn model_selections_must_be_unique_and_present() {
    let none = validate_model_selection(vec![]).unwrap_err();
    assert_eq!((none.status, none.message.as_str()), (400, "at least one model endpoint must remain active"));
    let many: Vec<(String, String)> = (0..65).map(|i| ("p".to_string(), format!("m{i}"))).collect();
    let error = validate_model_selection(many).unwrap_err();
    assert_eq!((error.status, error.message.as_str()), (413, "at most 64 model endpoints can be active"));
    let twice = vec![("p".to_string(), " m ".to_string()), ("p ".to_string(), "m".to_string())];
    assert_eq!(validate_model_selection(twice).unwrap_err().message, "duplicate provider/model selection");
    let blank = vec![("".to_string(), "m".to_string())];
    assert_eq!(validate_model_selection(blank).unwrap_err().message, "provider_id cannot be empty");
    let ok = validate_model_selection(vec![(" p ".to_string(), "m".to_string())]).unwrap();
    assert_eq!(ok, vec![("p".to_string(), "m".to_string())]);
}

#[test]
fn modes_have_names_and_old_ones_fall_back() {
    assert!(matches!(parse_mode("dev").unwrap(), AgentMode::Dev));
    assert!(matches!(parse_mode("plan").unwrap(), AgentMode::Normal));
    assert!(matches!(parse_mode("chat").unwrap(), AgentMode::Normal));
    let error = parse_mode("build").err().unwrap();
    assert_eq!((error.status, error.message.as_str()), (400, "mode must be normal or dev"));
    assert_eq!(mode_name(AgentMode::Normal), "normal");
    assert_eq!(mode_name(AgentMode::Dev), "dev");
}

#[test]
fn tool_event_names_lose_their_detail() {
    assert_eq!(real_tool_name("use_meme:cat"), "use_meme");
    assert_eq!(real_tool_name("load_skill:pdf"), "load_skill");
    assert_eq!(real_tool_name("load_tools:web"), "load_tools");
    assert_eq!(real_tool_name("shell"), "shell");
}

#[test]
fn artifact_labels_come_from_the_extension() {
    assert_eq!(artifact_type_label("notes.markdown"), "MD");
    assert_eq!(artifact_type_label("page.htm"), "HTML");
    assert_eq!(artifact_type_label("data.jsonl"), "JSONL");
    assert_eq!(artifact_type_label("a.tar.gz"), "GZ");
    assert_eq!(artifact_type_label("archive.package"), "FILE");
    assert_eq!(artifact_type_label("README"), "FILE");
}

#[test]
fn internal_placeholders_never_reach_the_browser() {
    assert_eq!(redact_internal_assistant_text("a<pending>b<cut>", "<pending>", "<cut>"), "ab");
    assert!(!tool_call_outcome("tool error: x", None));
    assert!(!tool_call_outcome("{}", Some((None, Some(false)))));
    assert!(tool_call_outcome("{}", Some((Some(true), None))));
}

#[test]
fn html_artifacts_may_load_from_the_daemon_origin_only() {
    assert_eq!(request_origin(Some("127.0.0.1:8080"), None).as_deref(), Some("http://127.0.0.1:8080"));
    assert_eq!(request_origin(Some("gqy.example"), Some(" https , http")).as_deref(), Some("https://gqy.example"));
    assert_eq!(request_origin(Some("bad host"), None), None);
    assert_eq!(request_origin(None, None), None);
    let strict = "sandbox; default-src 'none'; style-src 'unsafe-inline'; img-src data: blob:";
    assert_eq!(artifact_csp("svg", Some("h"), None).as_deref(), Some(strict));
    assert_eq!(artifact_csp("html", Some("bad host"), None).as_deref(), Some(strict));
    assert_eq!(artifact_csp("markdown", Some("h"), None), None);
    let html = artifact_csp("html", Some("h:1"), None).unwrap();
    assert!(html.starts_with("sandbox allow-scripts allow-modals; default-src 'none'; script-src 'unsafe-inline' 'unsafe-eval' http://h:1;"));
}

#[test]
fn a_refined_title_never_replaces_a_name_the_user_chose() {
    let automatic = "帮我看看这个报错为什么出现在启动…";
    assert_eq!(refined_title("「启动报错排查」。\n多余的解释", automatic, automatic), Some("启动报错排查".to_string()));
    assert_eq!(refined_title("启动报错排查", "我的会话", automatic), None);
    assert_eq!(refined_title("  \n ", automatic, automatic), None);
    let prompt = title_request_prompt("hello");
    assert!(prompt.starts_with("为下面这条用户消息生成一个简洁的会话标题"));
    assert!(prompt.ends_with("\n\n用户消息：hello"));
}

fn choice(provider: &str, model: &str) -> ModelChoice {
    ModelChoice { provider_id: provider.to_string(), provider_name: provider.to_uppercase(), model: model.to_string() }
}

#[test]
fn model_pickers_mark_the_active_pool() {
    let choices = vec![choice("openai", "gpt-4o"), choice("openai", "o3"), choice("kimi", "k2")];
    let active = vec![("openai".to_string(), "o3".to_string())];
    let picker = safe_models(&choices, &active);
    assert_eq!(picker.iter().map(|m| m.active).collect::<Vec<_>>(), vec![false, true, false]);
    assert_eq!(picker[2].provider_name, "KIMI");
    let vision = safe_multimodal_models(&choices, &vec![("kimi".to_string(), "k2".to_string())]);
    assert_eq!(vision.iter().map(|m| m.active).collect::<Vec<_>>(), vec![false, false, true]);
}

fn update(provider: &str, model: &str, selected: Option<&str>) -> ThinkingVariantUpdate {
    ThinkingVariantUpdate {
        provider_id: provider.to_string(),
        model: model.to_string(),
        selected: selected.map(|s| s.to_string()),
    }
}

#[test]
fn thinking_variant_updates_are_checked() {
    let ok = validate_thinking_variant_updates(vec![update(" openai ", "o3", Some(" high ")), update("openai", "o4", None)]).ok().unwrap();
    assert_eq!(ok.len(), 2);
    assert_eq!((ok[0].provider_id.as_str(), ok[0].selected.as_deref()), ("openai", Some("high")));
    let err = validate_thinking_variant_updates(vec![]).err().unwrap();
    assert_eq!((err.status, err.message.as_str()), (400, "at least one thinking variant update is required"));
    let many: Vec<_> = (0..65).map(|i| update("p", &format!("m{i}"), None)).collect();
    let err = validate_thinking_variant_updates(many).err().unwrap();
    assert_eq!((err.status, err.message.as_str()), (413, "at most 64 thinking variants can be updated"));
    let err = validate_thinking_variant_updates(vec![update("p", "m", None), update(" p", "m ", Some("low"))]).err().unwrap();
    assert_eq!(err.message, "duplicate provider/model thinking variant update");
}

#[test]
fn assets_carry_their_type_and_policy() {
    let text = text_asset("body { }", "text/css; charset=utf-8");
    assert_eq!(text.status, 200);
    assert_eq!(text.body, b"body { }".to_vec());
    assert_eq!(text.headers.get("content-type").as_deref(), Some("text/css; charset=utf-8"));
    let bin = binary_asset(&[1, 2, 3], "image/png");
    assert_eq!(bin.body, vec![1, 2, 3]);
    assert_eq!(bin.headers.get("content-type").as_deref(), Some("image/png"));
    assert_eq!(build_etag("B1"), "\"B1\"");
    let frame = fence_frame_asset("<html></html>", Some("127.0.0.1:8080"), None);
    assert_eq!(frame.headers.get("content-type").as_deref(), Some("text/html; charset=utf-8"));
    assert_eq!(frame.headers.get("cache-control").as_deref(), Some("no-cache"));
    assert_eq!(frame.headers.get("referrer-policy").as_deref(), Some("no-referrer"));
    let policy = frame.headers.get("content-security-policy").unwrap();
    assert!(policy.ends_with("; frame-ancestors http://127.0.0.1:8080"));
    let closed = fence_frame_asset("<html></html>", Some("bad host"), None);
    assert_eq!(
        closed.headers.get("content-security-policy").as_deref(),
        Some("sandbox; default-src 'none'; style-src 'unsafe-inline'; img-src data: blob:")
    );
}
