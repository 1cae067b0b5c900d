use gqy_web::event_stream::{parse_u64, resume_after, stream_step, StreamAction, StreamInput};

#[test]
fn numbers_parse_as_the_standard_library_does() {
    assert_eq!(parse_u64("42"), Some(42));
    assert_eq!(parse_u64("+7"), Some(7));
    assert_eq!(parse_u64("007"), Some(7));
    assert_eq!(parse_u64("18446744073709551615"), Some(u64::MAX));
    assert_eq!(parse_u64("18446744073709551616"), None);
    assert_eq!(parse_u64(""), None);
    assert_eq!(parse_u64("+"), None);
    assert_eq!(parse_u64("-1"), None);
    assert_eq!(parse_u64(" 1"), None);
    assert_eq!(parse_u64("12a"), None);
    for text in ["0", "1", "99", "+123", "9999999999", "abc", "1 2"] {
        assert_eq!(parse_u64(text), text.parse::<u64>().ok());
    }
}

#[test]
fn a_reconnecting_stream_resumes_after_the_later_id() {
    assert_eq!(resume_after(10, Some("25")), 25);
    assert_eq!(resume_after(30, Some("25")), 30);
    assert_eq!(resume_after(5, Some("garbage")), 5);
    assert_eq!(resume_after(0, None), 0);
}

#[test]
fn records_are_sent_once_and_only_to_those_who_may_see_them() {
    assert!(matches!(stream_step(10, StreamInput::Live { id: 11, allowed: true }), (11, StreamAction::Send)));
    assert!(matches!(stream_step(10, StreamInput::Live { id: 10, allowed: true }), (10, StreamAction::Skip)));
    assert!(matches!(stream_step(10, StreamInput::Live { id: 12, allowed: false }), (12, StreamAction::Skip)));
    assert!(matches!(
        stream_step(10, StreamInput::Replayed { id: 9, resync: false, allowed: true }),
        (10, StreamAction::Skip)
    ));
    assert!(matches!(
        stream_step(10, StreamInput::Replayed { id: 3, resync: true, allowed: false }),
        (3, StreamAction::Send)
    ));
    assert!(matches!(stream_step(10, StreamInput::Lagged), (10, StreamAction::Replay)));
    assert!(matches!(stream_step(10, StreamInput::Closed), (10, StreamAction::End)));
}
