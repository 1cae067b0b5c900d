use gqy_web::providers::{
    clean_model_ids, cline_candidate_label, effective_api_key, fill_context_window, invalid_provider,
    list_models_failed, models_source, plan_provider_models, ProviderKey,
};
use gqy_web::api::BAD_GATEWAY;

fn key(id: &str, api_key: Option<&str>) -> ProviderKey {
    ProviderKey { id: id.to_string(), api_key: api_key.map(|k| k.to_string()) }
}

#[test]
fn a_blank_draft_key_borrows_the_configured_one() {
    let current = vec![key("openai", Some("sk-first")), key("openai", Some("sk-second")), key("deepseek", None)];
    assert_eq!(effective_api_key(&None, "openai", &current), Some("sk-first".to_string()));
    assert_eq!(effective_api_key(&Some("   ".to_string()), "openai", &current), Some("sk-first".to_string()));
    assert_eq!(effective_api_key(&None, "deepseek", &current), None);
    assert_eq!(effective_api_key(&None, "missing", &current), None);
}

#[test]
fn a_draft_with_its_own_key_keeps_it() {
    let current = vec![key("openai", Some("sk-first"))];
    assert_eq!(effective_api_key(&Some(" sk-new ".to_string()), "openai", &current), Some(" sk-new ".to_string()));
}

#[test]
fn fetching_without_a_base_url_is_refused() {
    let current = vec![key("custom", Some("sk"))];
    let err = plan_provider_models(&None, "custom", "  ", false, true, &current).err().unwrap();
    assert_eq!(err.status, 400);
    assert_eq!(err.message, "provider base_url is required to fetch models");
    let cli = plan_provider_models(&None, "codex", "", true, true, &current).ok().unwrap();
    assert_eq!(cli.source, "cli");
    let catalog = plan_provider_models(&None, "custom", "", false, false, &current).ok().unwrap();
    assert_eq!(catalog.source, "catalog");
    assert_eq!(catalog.api_key, Some("sk".to_string()));
    let http = plan_provider_models(&None, "custom", "https://api.example.com/v1", false, true, &current).ok().unwrap();
    assert_eq!(http.source, "http");
}

#[test]
fn sources_name_where_the_list_came_from() {
    assert_eq!(models_source(false, true), "catalog");
    assert_eq!(models_source(true, true), "cli");
    assert_eq!(models_source(true, false), "http");
}

#[test]
fn model_ids_are_trimmed_and_blank_ones_dropped() {
    let ids = vec![" gpt-4o ".to_string(), "".to_string(), "  ".to_string(), "o3".to_string()];
    assert_eq!(clean_model_ids(&ids), vec!["gpt-4o".to_string(), "o3".to_string()]);
}

#[test]
fn a_known_window_is_kept_and_an_unknown_one_remembered() {
    assert_eq!(fill_context_window(Some(128000), Some(200000)), Some(128000));
    assert_eq!(fill_context_window(Some(0), Some(200000)), Some(200000));
    assert_eq!(fill_context_window(None, Some(200000)), Some(200000));
    assert_eq!(fill_context_window(Some(0), None), Some(0));
    assert_eq!(fill_context_window(None, None), None);
}

#[test]
fn cline_candidates_show_their_model_count() {
    assert_eq!(cline_candidate_label("cline", 42), "cline · 42 个模型");
    assert_eq!(cline_candidate_label("cline-pass", 0), "cline-pass");
}

#[test]
fn catalog_errors_carry_their_status() {
    let e = invalid_provider("missing field `id`");
    assert_eq!(e.status, 400);
    assert_eq!(e.message, "invalid provider: missing field `id`");
    let e = list_models_failed("connection refused");
    assert_eq!(e.status, BAD_GATEWAY);
    assert_eq!(e.message, "failed to list models: connection refused");
}
