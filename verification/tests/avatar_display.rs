use gqy_web::accounts::{apply_request, display_json, AvatarDisplayRequest, StoredDisplay, MAX_SIZE, MIN_SIZE};

#[derive(Clone, Copy, Debug, PartialEq)]
struct Frame {
    zoom: f64,
    x: f64,
    y: f64,
}

fn frame(zoom: f64, x: f64, y: f64) -> Frame {
    Frame { zoom, x, y }
}

#[test]
fn missing_fields_keep_and_null_resets() {
    let mut stored = StoredDisplay {
        size: Some(32),
        user: Some(frame(2.0, 1.0, 1.0)),
        assistant: vec![("gqy".to_string(), frame(1.5, 0.0, 0.0))],
    };
    apply_request(&mut stored, AvatarDisplayRequest { size: None, user: Some(None), assistant: None }, "gqy");
    assert_eq!(stored.size, Some(32));
    assert_eq!(stored.user, None);
    assert!(stored.assistant.iter().any(|(scope, _)| scope == "gqy"));
    apply_request(&mut stored, AvatarDisplayRequest { size: None, user: None, assistant: Some(None) }, "gqy");
    assert!(stored.assistant.is_empty());
}

#[test]
fn assistant_frames_are_kept_per_persona_scope() {
    let mut stored: StoredDisplay<Frame> = StoredDisplay { size: None, user: None, assistant: vec![] };
    apply_request(
        &mut stored,
        AvatarDisplayRequest { size: None, user: None, assistant: Some(Some(frame(2.0, 0.0, 0.0))) },
        "gqy",
    );
    apply_request(
        &mut stored,
        AvatarDisplayRequest { size: None, user: None, assistant: Some(Some(frame(3.0, 0.0, 0.0))) },
        "member:cat",
    );
    let json = display_json(&stored, "gqy");
    assert_eq!(json.assistant.map(|f| f.zoom), Some(2.0));
    assert!(display_json(&stored, "other").assistant.is_none());
}

#[test]
fn the_avatar_size_is_clamped() {
    let mut stored: StoredDisplay<Frame> = StoredDisplay { size: None, user: None, assistant: vec![] };
    apply_request(&mut stored, AvatarDisplayRequest { size: Some(Some(99)), user: None, assistant: None }, "gqy");
    assert_eq!(stored.size, Some(MAX_SIZE));
    assert_eq!(MAX_SIZE, 44);
    apply_request(&mut stored, AvatarDisplayRequest { size: Some(Some(0)), user: None, assistant: None }, "gqy");
    assert_eq!(stored.size, Some(MIN_SIZE));
    assert_eq!(MIN_SIZE, 24);
    apply_request(&mut stored, AvatarDisplayRequest { size: Some(Some(30)), user: None, assistant: None }, "gqy");
    assert_eq!(stored.size, Some(30));
    apply_request(&mut stored, AvatarDisplayRequest { size: Some(None), user: None, assistant: None }, "gqy");
    assert_eq!(stored.size, None);
}
