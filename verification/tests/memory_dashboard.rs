use gqy_web::dashboards::{
    added_fact, check_new_fact, check_reset_confirm, memory_persona_names, patch_answer, review_limit, stage_filter,
};

#[test]
fn the_memory_page_offers_each_persona_once_in_order() {
    let stored = vec!["work".to_string(), "default".to_string(), "art".to_string(), "work".to_string()];
    assert_eq!(memory_persona_names("default", &stored), vec!["art", "default", "work"]);
    assert_eq!(memory_persona_names("solo", &vec![]), vec!["solo"]);
}

#[test]
fn facts_added_by_hand_are_trimmed_and_bounded() {
    let (content, source) = check_new_fact("  likes tea  ", &None).unwrap();
    assert_eq!((content.as_str(), source.as_str()), ("likes tea", "dashboard"));
    let (_, source) = check_new_fact("x", &Some("  import ".to_string())).unwrap();
    assert_eq!(source, "import");
    let (_, source) = check_new_fact("x", &Some("   ".to_string())).unwrap();
    assert_eq!(source, "dashboard");
    let err = check_new_fact("   ", &None).unwrap_err();
    assert_eq!((err.status, err.message.as_str()), (400, "content must be 1..=4000 characters"));
    assert!(check_new_fact(&"a".repeat(4000), &None).is_ok());
    assert!(check_new_fact(&"a".repeat(4001), &None).is_err());
    let err = added_fact(0).unwrap_err();
    assert_eq!((err.status, err.message.as_str()), (409, "memory is disabled in config"));
    assert_eq!(added_fact(42).unwrap(), 42);
}

#[test]
fn memory_edits_and_resets_are_answered() {
    assert!(patch_answer(Ok(true)).is_ok());
    let err = patch_answer(Ok(false)).unwrap_err();
    assert_eq!((err.status, err.message.as_str()), (404, "memory item not found"));
    let err = patch_answer(Err("content cannot be empty".to_string())).unwrap_err();
    assert_eq!((err.status, err.message.as_str()), (400, "content cannot be empty"));
    assert!(check_reset_confirm("  default ", "default").is_ok());
    let err = check_reset_confirm("defaul", "default").unwrap_err();
    assert_eq!(err.message, "confirm must equal the persona scope name");
}

#[test]
fn browse_parameters_are_normalized() {
    assert_eq!(review_limit(0), 1);
    assert_eq!(review_limit(50), 50);
    assert_eq!(review_limit(1000), 200);
    assert_eq!(stage_filter(" all "), None);
    assert_eq!(stage_filter(""), None);
    assert_eq!(stage_filter(" raw "), Some("raw".to_string()));
}
