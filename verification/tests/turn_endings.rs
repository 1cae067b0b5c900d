use gqy_web::api::ApiError;
use gqy_web::turns::{
    check_model_override, current_context, drop_cancelled_queue, finish_cancelled_run, finish_completed_with_context_error, finish_failed_run,
    finish_turn_task, into_pasted_images, publish_completed, validate_message_content, ChatResult, ContextSnapshot,
    ImageAttachment, PastedImage,
};

fn snapshot(tokens: u64) -> ContextSnapshot {
    ContextSnapshot {
        tokens,
        window: Some(128_000),
        window_assumed: false,
        cumulative_tokens: 10,
        cumulative_prompt_tokens: 6,
        cumulative_cache_read_tokens: 2,
    }
}

#[test]
fn an_empty_message_needs_an_attachment() {
    let checked: Result<String, ApiError> = Ok("hello".to_string());
    assert_eq!(validate_message_content("  ", true, Ok("x".to_string())).unwrap(), "");
    assert_eq!(validate_message_content("hello", true, checked).unwrap(), "hello");
    let refused = ApiError { status: 400, message: "message cannot be empty".to_string() };
    let err = validate_message_content("  ", false, Err(refused)).unwrap_err();
    assert_eq!(err.message, "message cannot be empty");
}

#[test]
fn pasted_images_keep_their_slots() {
    let images = vec![
        Some(ImageAttachment::Binary { mime: "image/png".to_string(), data: vec![1, 2] }),
        None,
        Some(ImageAttachment::Path { path: "/tmp/a.png".to_string() }),
    ];
    let pasted = into_pasted_images(images);
    assert_eq!(pasted.len(), 3);
    assert!(matches!(&pasted[0], Some(PastedImage::Binary(m, d)) if m == "image/png" && d == &vec![1u8, 2]));
    assert!(pasted[1].is_none());
    assert!(matches!(&pasted[2], Some(PastedImage::Path(p)) if p == "/tmp/a.png"));
}

#[test]
fn a_finished_turn_names_an_unnamed_session() {
    let done = finish_turn_task(true, Some(""), "how do I bake bread at home");
    assert_eq!(done.auto_name.as_deref(), Some("how do I bake bread …"));
    assert!(done.touch_session && done.discard_queue);
    assert_eq!(finish_turn_task(true, Some("Bread"), "x").auto_name, None);
    let cancelled = finish_turn_task(false, Some(""), "x");
    assert_eq!(cancelled.auto_name, None);
    assert!(!cancelled.touch_session);
}

#[test]
fn withdrawn_prompts_are_announced_in_order() {
    let events = drop_cancelled_queue("s1", "r1", Ok::<Vec<String>, ()>(vec!["p1".to_string(), "p2".to_string()]));
    assert_eq!(events.len(), 2);
    assert_eq!((events[1].session_id.as_str(), events[1].run_id.as_str(), events[1].prompt_id.as_str()), ("s1", "r1", "p2"));
    assert!(drop_cancelled_queue("s1", "r1", Err::<Vec<String>, &str>("locked")).is_empty());
}

#[test]
fn context_meters_need_both_readings() {
    let c = current_context(Ok::<u64, ()>(500), Some(8000), true, Ok((9, 8, 7))).unwrap();
    assert_eq!((c.tokens, c.window, c.window_assumed, c.cumulative_tokens), (500, Some(8000), true, 9));
    assert!(current_context(Err::<u64, &str>("x"), None, false, Ok((1, 1, 1))).is_none());
    assert!(current_context(Ok::<u64, &str>(1), None, false, Err("x")).is_none());
}

#[test]
fn ended_runs_record_context_only_for_the_current_session() {
    let (recorded, event) = finish_cancelled_run("r", "s", Some(snapshot(5)), true);
    assert_eq!(recorded.map(|c| c.tokens), Some(5));
    assert_eq!(event.context.map(|c| c.tokens), Some(5));
    let (recorded, event) = finish_cancelled_run("r", "s", Some(snapshot(5)), false);
    assert!(recorded.is_none() && event.context.is_none());
    let (recorded, failed) = finish_failed_run("r", "s", "quota exceeded", Some("quota".to_string()), Some(snapshot(6)), true);
    assert_eq!(recorded.map(|c| c.tokens), Some(6));
    assert_eq!((failed.message.as_str(), failed.failure_kind.as_deref()), ("quota exceeded", Some("quota")));
}

#[test]
fn a_completed_answer_is_published_with_its_context() {
    let result = ChatResult {
        content: "done".to_string(),
        usage: 42u32,
        usage_estimated: false,
        provider_id: Some("openai".to_string()),
        model: Some("gpt-4o".to_string()),
    };
    let event = publish_completed("r", "s", &result, snapshot(7));
    assert_eq!((event.content.as_str(), event.usage, event.context.tokens), ("done", 42, 7));
    let (error, recorded, completed) =
        finish_completed_with_context_error("r", "s", "compaction failed", &result, None, snapshot(3), true);
    assert_eq!(error.message, "compaction failed");
    assert_eq!(completed.context.tokens, 3);
    assert_eq!(recorded.map(|c| c.tokens), Some(3));
    assert_eq!((completed.run_id.as_str(), completed.session_id.as_str()), ("r", "s"));
    assert_eq!((completed.content.as_str(), completed.usage, completed.usage_estimated), ("done", 42, false));
    assert_eq!(completed.provider_id.as_deref(), Some("openai"));
    assert_eq!(completed.model.as_deref(), Some("gpt-4o"));
    let (_, recorded, completed) =
        finish_completed_with_context_error("r", "s", "x", &result, Some(snapshot(9)), snapshot(3), false);
    assert_eq!(completed.context.tokens, 9);
    assert!(recorded.is_none());
}

#[test]
fn a_turn_model_override_must_be_usable_in_full() {
    let none: Vec<(String, String)> = vec![];
    assert_eq!(check_model_override(&none, None), Ok(()));
    let two = vec![("openai".to_string(), "o3".to_string()), ("kimi".to_string(), "k2".to_string())];
    assert_eq!(check_model_override(&two, Some(2)), Ok(()));
    assert_eq!(
        check_model_override(&two, Some(1)),
        Err("turn model override is not configured: openai/o3, kimi/k2".to_string())
    );
    assert_eq!(
        check_model_override(&two[..1].to_vec(), None),
        Err("turn model override is not configured: openai/o3".to_string())
    );
}
