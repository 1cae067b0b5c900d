use gqy_web::dto::{
    redo_input_kind_name, ImageAsset, QueuedPrompt, RedoInputKind, SafeFollowup, SafeQueuedPrompt, SafeToolCall,
    SafeTurn, SafeUserAttachment, ToolCall, Turn, TurnFollowup, TurnSamples, TurnStatus, UserAttachment,
};
use gqy_web::turn_assets::group_turn_assets;
use gqy_web::turns::{question_error, AnswerFailure};

fn attachment(id: &str) -> UserAttachment {
    UserAttachment {
        attachment_id: id.to_string(),
        file_name: "photo.png".to_string(),
        mime: "image/png".to_string(),
        kind: "image".to_string(),
        size_bytes: 2048,
        width: Some(640),
        height: Some(480),
    }
}

#[test]
fn attachments_are_served_under_their_id() {
    let safe = SafeUserAttachment::from_attachment(attachment("att_1"));
    assert_eq!(safe.url, "/api/attachments/att_1");
    assert_eq!(safe.id, "att_1");
    assert_eq!(safe.name, "photo.png");
    assert_eq!((safe.size, safe.width, safe.height), (2048, Some(640), Some(480)));
}

#[test]
fn queued_prompts_keep_what_was_shown() {
    let prompt = QueuedPrompt {
        prompt_id: "p1".to_string(),
        display_content: "and also this".to_string(),
        submitted_at: "2025-01-01T00:00:00Z".to_string(),
        uploaded_attachments: vec![attachment("a"), attachment("b")],
    };
    let safe = SafeQueuedPrompt::from_prompt(prompt);
    assert_eq!(safe.id, "p1");
    assert_eq!(safe.content, "and also this");
    assert_eq!(safe.attachments.len(), 2);
    assert_eq!(safe.attachments[1].url, "/api/attachments/b");
}

#[test]
fn followups_hide_the_placeholder_texts() {
    let followup = TurnFollowup {
        prompt_id: "f1".to_string(),
        display_content: "wait".to_string(),
        submitted_at: "t".to_string(),
        preceding_assistant_content: Some("Looking…[pending]".to_string()),
        preceding_assistant_reasoning: None,
        preceding_assistant_provider_id: Some("openai".to_string()),
        preceding_assistant_model: Some("gpt-4o".to_string()),
        uploaded_attachments: vec![],
    };
    let safe = SafeFollowup::from_followup(followup, "[pending]", "[interrupted]");
    assert_eq!(safe.preceding_assistant_content.as_deref(), Some("Looking…"));
    assert_eq!(safe.preceding_assistant_reasoning, None);
    assert_eq!(safe.provider_id.as_deref(), Some("openai"));
    assert_eq!(safe.model.as_deref(), Some("gpt-4o"));
}

#[test]
fn tool_calls_show_whether_they_succeeded() {
    let failed = ToolCall { id: "c1".to_string(), name: "shell".to_string(), output: "{\"ok\": false}".to_string(), rest: 7u8 };
    let safe = SafeToolCall::from_call(failed, "Shell".to_string());
    assert!(!safe.ok);
    assert_eq!(safe.display_name, "Shell");
    assert_eq!(safe.rest, 7);
    let fine = ToolCall { id: "c2".to_string(), name: "shell".to_string(), output: "done".to_string(), rest: () };
    assert!(SafeToolCall::from_call(fine, "Shell".to_string()).ok);
    let broken = ToolCall { id: "c3".to_string(), name: "shell".to_string(), output: "  tool error: boom".to_string(), rest: () };
    assert!(!SafeToolCall::from_call(broken, "Shell".to_string()).ok);
}

#[test]
fn redo_inputs_are_named() {
    assert_eq!(redo_input_kind_name(&RedoInputKind::Initial), "initial");
    assert_eq!(redo_input_kind_name(&RedoInputKind::Followup), "followup");
}

#[test]
fn refused_answers_carry_their_reason() {
    let e = question_error(AnswerFailure::NotFound);
    assert_eq!((e.status, e.message.as_str()), (404, "pending question not found"));
    let e = question_error(AnswerFailure::Invalid("pick one option".to_string()));
    assert_eq!((e.status, e.message.as_str()), (400, "pick one option"));
    let e = question_error(AnswerFailure::Gone);
    assert_eq!((e.status, e.message.as_str()), (409, "the question is no longer awaiting an answer"));
}

#[test]
fn listed_turns_take_their_own_images_and_artifacts() {
    let turns = vec![
        ("t1".to_string(), false, "first"),
        ("sum".to_string(), true, "summary"),
        ("t2".to_string(), false, "second"),
        ("t1".to_string(), false, "again"),
    ];
    let images = vec![
        ("t2".to_string(), 'a'),
        ("t1".to_string(), 'b'),
        ("sum".to_string(), 'c'),
        ("t1".to_string(), 'd'),
    ];
    let artifacts = vec![("t2".to_string(), 10u8)];
    let listed = group_turn_assets(turns, images, artifacts);
    assert_eq!(listed.len(), 3);
    assert_eq!(listed[0], ("first", vec!['b', 'd'], vec![]));
    assert_eq!(listed[1], ("second", vec!['a'], vec![10u8]));
    assert_eq!(listed[2], ("again", vec![], vec![]));
}

#[test]
fn stored_turns_are_shown_redacted_with_their_assets() {
    let turn = Turn {
        turn_id: "t1".to_string(),
        seq: 4,
        status: TurnStatus::Interrupted,
        hidden: true,
        display_content: "draw a cat".to_string(),
        assistant_content: "Here it is[pending]".to_string(),
        assistant_reasoning: Some("[interrupted]thinking".to_string()),
        assistant_provider_id: Some("openai".to_string()),
        assistant_model: None,
        user_timestamp: "u".to_string(),
        assistant_timestamp: None,
        token_total: 30,
        token_prompt: 20,
        token_cache_read: 5,
        token_usage_estimated: true,
        tool_reports: vec!["<sent_meme>id=1 description=a grumpy cat</sent_meme>".to_string()],
        revision: 2,
        rest: "extra",
    };
    let image = ImageAsset { asset_id: "img1".to_string(), mime: "image/png".to_string(), width: 2, height: 3, alt: "a grumpy   cat".to_string() };
    let other = ImageAsset { asset_id: "img2".to_string(), mime: "image/png".to_string(), width: 2, height: 3, alt: "a dog".to_string() };
    let mut safe = SafeTurn::from_turn(turn, vec![image, other], vec![], "[pending]", "[interrupted]");
    assert_eq!((safe.id.as_str(), safe.seq, safe.status, safe.active_context), ("t1", 4, "interrupted", false));
    assert_eq!(safe.assistant_content, "Here it is");
    assert_eq!(safe.assistant_reasoning.as_deref(), Some("thinking"));
    assert_eq!((safe.token_total, safe.generation_tokens, safe.token_context_end), (30, 0, None));
    assert_eq!(safe.assets.len(), 2);
    assert_eq!(safe.assets[0].url, "/api/assets/img1");
    assert!(safe.assets[0].hide_caption);
    assert!(!safe.assets[1].hide_caption);
    assert_eq!(safe.rest, "extra");
    let samples = TurnSamples {
        generation: vec![("t1".to_string(), (120, 3000))],
        context_end: vec![("t0".to_string(), 9), ("t1".to_string(), 4096)],
    };
    samples.apply(&mut safe);
    assert_eq!((safe.generation_tokens, safe.generation_ms, safe.token_context_end), (120, 3000, Some(4096)));
}
