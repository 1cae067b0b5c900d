use gqy_web::accounts::WebIdentity;
use gqy_web::config_checks::config_change_requires_interrupt;
use gqy_web::persona::{
    active_persona_avatar_path, active_persona_board_path, canonical_prompt_documents, composer_placeholder,
    member_persona_identity, migration_rollback, migration_steps, persona_display_name, persona_document_changes,
    persona_identity, prompt_document_files, prompt_documents_changed, reconcile_qq_persona_references,
    temporary_scopes, validate_prompt_document_list, validate_prompt_document_name, validate_prompt_documents,
    MemberPersona, PersonaDbRenameGuard, PromptDocument, PromptDocuments,
};

fn doc(name: &str) -> PromptDocument {
    PromptDocument {
        name: name.to_string(),
        original_name: None,
        content: "你好".to_string(),
        avatar_path: None,
        board_image_path: None,
        board_title: None,
        board_subtitle: None,
        composer_placeholder: None,
        starter_prompts: None,
    }
}

fn renamed(name: &str, original: &str) -> PromptDocument {
    let mut d = doc(name);
    d.original_name = Some(original.to_string());
    d
}

fn docs(personas: Vec<PromptDocument>, identities: Vec<PromptDocument>) -> PromptDocuments {
    PromptDocuments { personas, identities }
}

#[test]
fn no_active_persona_shows_the_built_in_card() {
    let card = persona_identity("  ", &vec![doc("cat.md")]);
    assert_eq!(card.name, "顾清影");
    assert_eq!(card.avatar_url.as_deref(), Some("/assets/gqy-logo.png"));
    assert_eq!(card.board_image_url.as_deref(), Some("/assets/gqywallpaper.png"));
    assert_eq!(card.composer_placeholder, "给 顾清影 发消息");
    assert_eq!(card.starter_prompts.len(), 4);
    assert_eq!(card.starter_prompts[0], "陪我说说话");
}

#[test]
fn the_active_persona_card_uses_what_its_document_sets() {
    let mut cat = doc("cat.md");
    cat.avatar_path = Some("a.png".to_string());
    cat.board_title = Some("  ".to_string());
    cat.composer_placeholder = Some("喵".to_string());
    cat.starter_prompts = Some(vec!["".to_string(), "讲个笑话".to_string()]);
    let card = persona_identity("cat.md", &vec![cat]);
    assert_eq!(card.name, "cat");
    assert_eq!(card.avatar_url.as_deref(), Some("/api/persona/avatar"));
    assert_eq!(card.board_image_url, None);
    assert_eq!(card.board_title, "今天想聊些什么？");
    assert_eq!(card.composer_placeholder, "喵");
    assert_eq!(
        card.starter_prompts,
        vec!["陪我说说话", "讲个笑话", "发表情包打个招呼吧", "写首小诗给我"]
    );
    let missing = persona_identity("dog.md", &vec![]);
    assert_eq!(missing.name, "dog");
    assert_eq!(missing.composer_placeholder, "给 dog 发消息");
    assert_eq!(composer_placeholder("dog.md", &vec![]), "给 dog 发消息");
    assert_eq!(persona_display_name("", &vec![]), "顾清影");
}

#[test]
fn the_active_persona_images_come_from_its_document() {
    let mut cat = doc("cat.md");
    cat.avatar_path = Some("a.png".to_string());
    cat.board_image_path = Some("b.png".to_string());
    let list = vec![cat];
    assert_eq!(active_persona_avatar_path("cat.md", &list).as_deref(), Some("a.png"));
    assert_eq!(active_persona_board_path("cat.md", &list).as_deref(), Some("b.png"));
    assert_eq!(active_persona_avatar_path("", &list), None);
    assert_eq!(active_persona_avatar_path("dog.md", &list), None);
}

#[test]
fn members_get_their_private_persona_card() {
    let member = WebIdentity {
        account_id: "a1".to_string(),
        username: "amy".to_string(),
        display_name: "Amy".to_string(),
        admin: false,
        owner_key: "a1".to_string(),
    };
    let persona = MemberPersona {
        name: "小猫".to_string(),
        scope: "member:amy:cat".to_string(),
        board_title: "".to_string(),
        board_subtitle: "下午好".to_string(),
        has_avatar: true,
        has_board: true,
    };
    let card = member_persona_identity(&member, Some(&persona)).unwrap();
    assert_eq!(card.avatar_url.as_deref(), Some("/api/persona/avatar?scope=member:amy:cat"));
    assert_eq!(card.board_image_url.as_deref(), Some("/api/persona/avatar?scope=member:amy:cat&board=1"));
    assert_eq!(card.board_title, "今天想聊些什么？");
    assert_eq!(card.board_subtitle, "下午好");
    assert_eq!(card.composer_placeholder, "给 小猫 发消息");
    let mut admin = member;
    admin.admin = true;
    assert!(member_persona_identity(&admin, Some(&persona)).is_none());
}

#[test]
fn document_names_are_plain_markdown_file_names() {
    assert!(validate_prompt_document_name("cat.md", "persona").is_ok());
    for bad in [" cat.md", "cat.txt", ".md", ".hidden.md", "a/b.md", "a\\b.md", "a\u{7}.md"] {
        let error = validate_prompt_document_name(bad, "persona").unwrap_err();
        assert_eq!(error.status, 400);
        assert_eq!(error.message, format!("invalid persona document name: {bad}"));
    }
    let long = format!("{}.md", "a".repeat(238));
    assert!(validate_prompt_document_name(&long, "identity").is_err());
    let fits = format!("{}.md", "a".repeat(237));
    assert!(validate_prompt_document_name(&fits, "identity").is_ok());
}

#[test]
fn each_document_error_has_its_message() {
    let too_many: Vec<PromptDocument> = (0..129).map(|i| doc(&format!("d{i}.md"))).collect();
    let error = validate_prompt_document_list("persona", &too_many).unwrap_err();
    assert_eq!((error.status, error.message.as_str()), (413, "at most 128 persona documents are allowed"));

    let error = validate_prompt_document_list("persona", &vec![doc("a.md"), doc("a.md")]).unwrap_err();
    assert_eq!((error.status, error.message.as_str()), (400, "duplicate persona document: a.md"));

    let mut big = doc("a.md");
    big.content = "x\0".to_string();
    let error = validate_prompt_document_list("identity", &vec![big]).unwrap_err();
    assert_eq!((error.status, error.message.as_str()), (413, "identity document is too large: a.md"));

    let mut path = doc("a.md");
    path.avatar_path = Some(" a.png".to_string());
    let error = validate_prompt_document_list("persona", &vec![path]).unwrap_err();
    assert_eq!(error.message, "invalid persona avatar path: a.md");

    let mut board = doc("a.md");
    board.board_image_path = Some("x".repeat(4097));
    assert_eq!(
        validate_prompt_document_list("persona", &vec![board]).unwrap_err().message,
        "invalid persona board image path: a.md"
    );

    let mut title = doc("a.md");
    title.board_title = Some("字".repeat(201));
    assert_eq!(
        validate_prompt_document_list("persona", &vec![title]).unwrap_err().message,
        "invalid persona board title: a.md"
    );

    let mut subtitle = doc("a.md");
    subtitle.board_subtitle = Some("a\nb".to_string());
    assert_eq!(
        validate_prompt_document_list("persona", &vec![subtitle]).unwrap_err().message,
        "invalid persona board subtitle: a.md"
    );

    let mut placeholder = doc("a.md");
    placeholder.composer_placeholder = Some("\t".to_string());
    assert_eq!(
        validate_prompt_document_list("persona", &vec![placeholder]).unwrap_err().message,
        "invalid persona composer placeholder: a.md"
    );

    let mut starters = doc("a.md");
    starters.starter_prompts = Some(vec!["1".into(), "2".into(), "3".into(), "4".into(), "5".into()]);
    assert_eq!(
        validate_prompt_document_list("persona", &vec![starters]).unwrap_err().message,
        "invalid persona starter prompts: a.md"
    );

    let error = validate_prompt_document_list("persona", &vec![renamed("a.md", "b.txt")]).unwrap_err();
    assert_eq!(error.message, "invalid persona document name: b.txt");

    let error =
        validate_prompt_document_list("persona", &vec![renamed("a.md", "o.md"), renamed("b.md", "o.md")]).unwrap_err();
    assert_eq!(error.message, "duplicate original persona document: o.md");

    assert!(validate_prompt_document_list("persona", &vec![doc("a.md"), renamed("b.md", "c.md")]).is_ok());
}

#[test]
fn prompt_documents_are_checked_against_the_configuration() {
    let ok = docs(vec![doc("cat.md")], vec![doc("me.md")]);
    let scopes = vec!["persona-cat".to_string()];
    assert!(validate_prompt_documents("cat.md", "me.md", &vec![Some("cat.md".to_string()), None], &ok, &scopes).is_ok());

    let reserved = docs(vec![doc("System-Prompt.md")], vec![]);
    let error = validate_prompt_documents("", "", &vec![], &reserved, &vec!["x".to_string()]).unwrap_err();
    assert_eq!(error.message, "system-prompt.md is reserved and cannot be used as a persona");

    let clash = docs(vec![doc("a.md"), doc("b.md")], vec![]);
    let error =
        validate_prompt_documents("", "", &vec![], &clash, &vec!["same".to_string(), "same".to_string()]).unwrap_err();
    assert_eq!(error.message, "persona names map to the same persistent scope: a.md and b.md (same)");

    let error = validate_prompt_documents("dog.md", "", &vec![], &ok, &scopes).unwrap_err();
    assert_eq!(error.message, "the active persona does not exist");

    let error = validate_prompt_documents("", "", &vec![Some("dog.md".to_string())], &ok, &scopes).unwrap_err();
    assert_eq!(error.message, "QQ conversation persona does not exist: dog.md");

    let error = validate_prompt_documents("", "you.md", &vec![], &ok, &scopes).unwrap_err();
    assert_eq!(error.message, "the active identity does not exist");

    let bad_identity = docs(vec![], vec![doc("x.txt")]);
    let error = validate_prompt_documents("", "", &vec![], &bad_identity, &vec![]).unwrap_err();
    assert_eq!(error.message, "invalid identity document name: x.txt");
}

#[test]
fn qq_conversations_follow_renamed_personas() {
    let prompts = docs(vec![renamed("kitty.md", "cat.md"), doc("dog.md")], vec![]);
    let mut routes = vec![Some("cat.md".to_string()), Some("dog.md".to_string()), None];
    reconcile_qq_persona_references(&mut routes, &prompts);
    assert_eq!(routes, vec![Some("kitty.md".to_string()), Some("dog.md".to_string()), None]);
}

#[test]
fn a_save_reports_renamed_and_removed_personas() {
    let current = docs(vec![doc("cat.md"), doc("dog.md"), doc("fox.md")], vec![]);
    let next = docs(vec![renamed("kitty.md", "cat.md"), renamed("fox.md", "fox.md")], vec![]);
    let changes = persona_document_changes(&current, &next);
    assert_eq!(
        changes,
        vec![("cat.md".to_string(), Some("kitty.md".to_string())), ("dog.md".to_string(), None)]
    );
    assert!(config_change_requires_interrupt(Some(&current), &next, "a", "a"));
    let same = docs(vec![doc("cat.md")], vec![]);
    assert!(!config_change_requires_interrupt(Some(&same), &same, "a", "a"));
    assert!(config_change_requires_interrupt(Some(&same), &same, "a", "b"));
    assert!(config_change_requires_interrupt(None, &same, "a", "a"));
}

#[test]
fn reordering_documents_is_not_a_change() {
    let mut b = doc("b.md");
    b.content = "B".to_string();
    let a = doc("a.md");
    let first = docs(vec![b, a], vec![]);
    let canonical = canonical_prompt_documents(&first.personas);
    assert_eq!(canonical[0].0, "a.md");
    assert_eq!(canonical[1], ("b.md".to_string(), "B".to_string()));
    let mut b2 = doc("b.md");
    b2.content = "B".to_string();
    let second = docs(vec![doc("a.md"), b2], vec![]);
    assert!(!prompt_documents_changed(&first, &second));
    let mut b3 = doc("b.md");
    b3.content = "changed".to_string();
    let third = docs(vec![doc("a.md"), b3], vec![]);
    assert!(prompt_documents_changed(&first, &third));
    let fourth = docs(vec![doc("a.md")], vec![doc("me.md")]);
    assert!(prompt_documents_changed(&docs(vec![doc("a.md")], vec![]), &fourth));
}

#[test]
fn a_failed_scope_migration_undoes_its_moves_in_reverse() {
    let renames = vec![("a".to_string(), "b".to_string()), ("b".to_string(), "a".to_string())];
    let temps = temporary_scopes(&vec!["t1".to_string(), "t2".to_string()]);
    assert_eq!(temps, vec!["persona-migration-t1", "persona-migration-t2"]);
    let steps = migration_steps(&renames, &temps);
    let moves: Vec<(String, String)> = steps.iter().map(|s| (s.from.clone(), s.to.clone())).collect();
    assert_eq!(
        moves,
        vec![
            ("a".to_string(), "persona-migration-t1".to_string()),
            ("b".to_string(), "persona-migration-t2".to_string()),
            ("persona-migration-t1".to_string(), "b".to_string()),
            ("persona-migration-t2".to_string(), "a".to_string()),
        ]
    );
    let undo: Vec<(String, String)> =
        migration_rollback(&steps, 3).iter().map(|s| (s.from.clone(), s.to.clone())).collect();
    assert_eq!(
        undo,
        vec![
            ("b".to_string(), "persona-migration-t1".to_string()),
            ("persona-migration-t2".to_string(), "b".to_string()),
            ("persona-migration-t1".to_string(), "a".to_string()),
        ]
    );
    assert!(migration_rollback(&steps, 0).is_empty());
}

#[test]
fn an_uncommitted_rename_guard_moves_scopes_back() {
    let changes = vec![
        ("p-cat".to_string(), Some("p-kitty".to_string())),
        ("p-dog".to_string(), None),
        ("p-fox".to_string(), Some("p-fox".to_string())),
    ];
    let mut guard = PersonaDbRenameGuard::new(&changes);
    assert_eq!(guard.renames(), &vec![("p-cat".to_string(), "p-kitty".to_string())]);
    assert_eq!(guard.rollback_renames(), vec![("p-kitty".to_string(), "p-cat".to_string())]);
    guard.commit();
    assert!(guard.rollback_renames().is_empty());
}

#[test]
fn prompt_directories_list_markdown_files_by_name() {
    let entries = vec![
        ("b.md".to_string(), true),
        ("System-Prompt.md".to_string(), true),
        ("notes.txt".to_string(), true),
        ("dir.md".to_string(), false),
        ("a.md".to_string(), true),
    ];
    assert_eq!(prompt_document_files(&entries, true), vec!["a.md", "b.md"]);
    assert_eq!(prompt_document_files(&entries, false), vec!["System-Prompt.md", "a.md", "b.md"]);
}

use gqy_web::asset_cleanup::{cleanup_removes, persona_image_refs, referenced_asset_names};

#[test]
fn persona_images_are_collected_in_order() {
    let mut cat = doc("cat.md");
    cat.avatar_path = Some("persona-avatars/a.png".to_string());
    cat.board_image_path = Some("persona-avatars/b.png".to_string());
    let mut dog = doc("dog.md");
    dog.board_image_path = Some("/pics/dog.png".to_string());
    assert_eq!(
        persona_image_refs(&vec![cat, dog]),
        vec!["persona-avatars/a.png", "persona-avatars/b.png", "/pics/dog.png"]
    );
    let resolved = vec!["/g/persona-avatars/a.png".to_string(), "/pics/dog.png".to_string()];
    assert_eq!(referenced_asset_names(&resolved, "/g/persona-avatars"), vec!["a.png"]);
}

#[test]
fn only_unreferenced_managed_images_are_removed() {
    let managed = format!("{}.png", "ab".repeat(32));
    let other = format!("{}.webp", "0".repeat(64));
    let previous = vec![managed.clone()];
    let current = vec![other.clone()];
    assert!(cleanup_removes(&managed, true, false, &previous, &current));
    assert!(!cleanup_removes(&other, true, true, &previous, &current));
    assert!(!cleanup_removes(&managed, false, true, &previous, &current));
    assert!(!cleanup_removes("notes.txt", true, true, &previous, &current));
    assert!(cleanup_removes(".upload-123", true, true, &previous, &current));
    assert!(!cleanup_removes(".upload-123", true, false, &previous, &current));
    let fresh = format!("{}.gif", "c".repeat(64));
    assert!(!cleanup_removes(&fresh, true, false, &previous, &current));
    assert!(cleanup_removes(&fresh, true, true, &previous, &current));
}

use gqy_web::scope_dirs::{destination_taken, finalize_removes, restore_moves, staged_scope_path};

#[test]
fn scope_directories_are_staged_beside_themselves() {
    assert_eq!(
        staged_scope_path("/g/memory/p-cat", "tok", 2, 1).unwrap(),
        "/g/memory/.gqy-web-scope-tok-2-1"
    );
    assert_eq!(staged_scope_path("/", "tok", 0, 0).unwrap_err(), "persona scope path has no parent");
    let moved_on = restore_moves(true, true, false);
    assert!(moved_on.destination_to_staged && moved_on.staged_to_original);
    let staged = restore_moves(true, false, true);
    assert!(!staged.destination_to_staged && staged.staged_to_original);
    let gone = restore_moves(false, false, false);
    assert!(!gone.destination_to_staged && !gone.staged_to_original);
    assert!(finalize_removes(false, true));
    assert!(!finalize_removes(true, true));
    assert_eq!(destination_taken("/g/x"), "persona scope destination already exists: /g/x");
}

#[test]
fn only_names_and_contents_make_a_change_either_way() {
    let plain = docs(vec![doc("a.md"), doc("b.md")], vec![doc("me.md")]);
    let mut dressed_a = doc("a.md");
    dressed_a.avatar_path = Some("persona-avatars/x.png".to_string());
    dressed_a.board_title = Some("Hi".to_string());
    let dressed = docs(vec![dressed_a, doc("b.md")], vec![doc("me.md")]);
    assert!(!prompt_documents_changed(&plain, &dressed));
    assert!(!prompt_documents_changed(&dressed, &plain));
    let mut edited = doc("me.md");
    edited.content = "new".to_string();
    let other = docs(vec![doc("a.md"), doc("b.md")], vec![edited]);
    assert!(prompt_documents_changed(&plain, &other));
    assert!(prompt_documents_changed(&other, &plain));
}
