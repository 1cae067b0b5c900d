use gqy_web::accounts::{
    account_bootstrap_json, needs_new_session, random_slug, retarget_member_sessions, slug_from,
    ActivePrivatePersona, PersonaManifest, StoredDisplay, WebIdentity,
};
use gqy_web::assets::vendor_gzip_asset;
use gqy_web::dto::tool_call_succeeded;
use gqy_web::persona_assets::{
    account_avatar_content_type, artifact_disposition, avatar_source, persona_image_content_type, persona_upload,
    verify_persona_asset_hash,
    AvatarSource, UploadError,
};
use gqy_web::sandbox_scope::{base_read_write, member_scope, retain_existing, system_read_only};
use gqy_web::accounts::{
    account_avatar_url, check_persona_create, new_persona_slug, usage_account_names, usage_details_limit, Account,
};
use gqy_web::sessions::{SessionOverview, SessionRecord};
use gqy_web::today::require_home_dir;
use gqy_web::turns::{check_durable_followups, check_redo_candidate, redo_text, RedoCandidate};

fn member() -> WebIdentity {
    WebIdentity {
        account_id: "a1".to_string(),
        username: "amy".to_string(),
        display_name: "Amy".to_string(),
        admin: false,
        owner_key: "a1".to_string(),
    }
}

fn admin(account_id: &str) -> WebIdentity {
    WebIdentity {
        account_id: account_id.to_string(),
        username: "root".to_string(),
        display_name: "Root".to_string(),
        admin: true,
        owner_key: String::new(),
    }
}

#[test]
fn members_start_with_their_persona_and_dashboards() {
    let stored = StoredDisplay { size: Some(32u32), user: Some(1u8), assistant: vec![("member:amy:cat".to_string(), 7u8)] };
    let active = ActivePrivatePersona {
        slug: "cat".to_string(),
        name: "小猫".to_string(),
        manifest: PersonaManifest { memory: true, enabled: Some(vec!["memes".to_string()]) },
    };
    let allowed = vec!["memes".to_string(), "ledger".to_string()];
    let boot = account_bootstrap_json(
        &member(),
        Some("/api/account/avatar".to_string()),
        Some(&stored),
        "member:amy:cat",
        false,
        Some(&active),
        &allowed,
        Some(true),
        "root",
    );
    assert!(boot.oobe_pending);
    assert_eq!(boot.persona.slug.as_deref(), Some("cat"));
    assert!(boot.persona.private);
    assert_eq!(boot.persona.dashboards.unwrap(), vec!["memory", "memes"]);
    assert_eq!(boot.avatar_display.assistant, Some(7));
    assert_eq!(boot.avatar_display.size, Some(32));
    assert_eq!(boot.setup_pending, None);
    let shared = account_bootstrap_json::<u8>(&member(), None, None, "gqy", true, None, &allowed, None, "root");
    assert_eq!(shared.persona.name, "顾清影");
    assert!(!shared.persona.private);
    assert_eq!(shared.persona.dashboards.unwrap(), vec!["ledger"]);
}

#[test]
fn the_first_admin_account_is_offered_to_the_password_login() {
    let allowed = vec![];
    let pending = account_bootstrap_json::<u8>(&admin(""), None, None, "gqy", false, None, &allowed, Some(false), "ann");
    assert_eq!(pending.setup_pending, Some(true));
    assert_eq!(pending.setup_username.as_deref(), Some("ann"));
    assert!(!pending.oobe_pending);
    let unknown = account_bootstrap_json::<u8>(&admin(""), None, None, "gqy", false, None, &allowed, None, "ann");
    assert_eq!(unknown.setup_pending, Some(false));
    assert_eq!(unknown.setup_username, None);
    let signed = account_bootstrap_json::<u8>(&admin("a0"), None, None, "gqy", false, None, &allowed, Some(false), "ann");
    assert_eq!(signed.setup_pending, Some(false));
}

fn overview(id: &str, persona: &str, turns: u64) -> SessionOverview {
    SessionOverview {
        record: SessionRecord {
            session_id: id.to_string(),
            name: String::new(),
            kind: "user".to_string(),
            persona: persona.to_string(),
            owner: "a1".to_string(),
            sandbox: None,
            created_at: String::new(),
            updated_at: String::new(),
            sort_key: 0,
        },
        turn_count: turns,
        last_user_content: None,
    }
}

#[test]
fn a_persona_switch_moves_empty_sessions() {
    let sessions = vec![
        overview("s1", "p-cat", 0),
        overview("s2", "dev", 0),
        overview("s3", "p-dog", 2),
        overview("s4", "p-dog", 0),
    ];
    let plan = retarget_member_sessions(&member(), &sessions, "p-owl");
    assert_eq!(plan.retarget, vec!["s1".to_string(), "s4".to_string()]);
    assert!(!plan.on_scope);
    assert!(!needs_new_session(&plan, &vec![true, false]));
    assert!(needs_new_session(&plan, &vec![false, false]));
    let on = retarget_member_sessions(&member(), &sessions, "p-cat");
    assert!(on.on_scope);
    assert_eq!(on.retarget, vec!["s4".to_string()]);
    assert!(!needs_new_session(&on, &vec![]));
    let nobody = retarget_member_sessions(&admin(""), &sessions, "p-cat");
    assert!(nobody.retarget.is_empty());
}

#[test]
fn persona_ids_are_p_and_six_hex_digits() {
    assert_eq!(slug_from([0x00, 0xab, 0x7f]), "p00ab7f");
    let slug = random_slug().unwrap();
    assert_eq!(slug.len(), 7);
    assert!(slug.starts_with('p'));
    assert!(slug[1..].chars().all(|c| c.is_ascii_hexdigit() && !c.is_ascii_uppercase()));
}

#[test]
fn tool_outputs_report_business_failures() {
    assert!(!tool_call_succeeded(r#"{"success": false, "message": "quota"}"#));
    assert!(!tool_call_succeeded(r#"{"ok": false}"#));
    assert!(tool_call_succeeded(r#"{"ok": true, "success": "no"}"#));
    assert!(!tool_call_succeeded("  tool error: timeout"));
    assert!(tool_call_succeeded("plain text"));
}

#[test]
fn artifact_downloads_name_the_file_percent_encoded() {
    assert_eq!(artifact_disposition("markdown", None, "报告 v1.md"), "inline; filename*=UTF-8''%E6%8A%A5%E5%91%8A%20v1.md");
    assert_eq!(artifact_disposition("markdown", Some("1"), "a.md"), "attachment; filename*=UTF-8''a.md");
    assert_eq!(artifact_disposition("zip", None, "a~b.zip"), "attachment; filename*=UTF-8''a~b.zip");
}

#[test]
fn persona_uploads_are_stored_under_their_hash() {
    let png = [0x89u8, 0x50, 0x4e, 0x47, 0x0d, 0x0a, 0x1a, 0x0a];
    let upload = persona_upload(&png).ok().unwrap();
    let hash = "4c4b6a3be1314ab86138bef4314dde022e600960d8689a2c8f8631802d20dab6";
    assert_eq!(upload.hash, hash);
    assert_eq!(upload.extension, "png");
    assert_eq!(upload.file_name, format!("{hash}.png"));
    assert_eq!(upload.relative, format!("persona-avatars/{hash}.png"));
    assert_eq!(upload.preview_url, format!("/api/persona/avatar?path=persona-avatars/{hash}.png"));
    assert!(matches!(persona_upload(&[]), Err(UploadError::Empty)));
    assert!(matches!(persona_upload(b"hello"), Err(UploadError::UnsupportedFormat)));
}

#[test]
fn gzip_vendor_files_are_decoded_for_clients_without_gzip() {
    let gz = [31u8, 139, 8, 0, 0, 0, 0, 0, 2, 3, 203, 72, 205, 201, 201, 7, 0, 134, 166, 16, 54, 5, 0, 0, 0];
    let plain = vendor_gzip_asset(None, None, &gz, "text/css; charset=utf-8", "\"v1\"");
    assert_eq!(plain.status, 200);
    assert_eq!(plain.body, b"hello".to_vec());
    assert_eq!(plain.headers.get("content-encoding"), None);
    assert_eq!(plain.headers.get("vary").as_deref(), Some("accept-encoding"));
    let zipped = vendor_gzip_asset(None, Some("br, GZIP;q=1"), &gz, "text/css; charset=utf-8", "\"v1\"");
    assert_eq!(zipped.body, gz.to_vec());
    assert_eq!(zipped.headers.get("content-encoding").as_deref(), Some("gzip"));
    let cached = vendor_gzip_asset(Some("\"v1\""), Some("gzip"), &gz, "text/css; charset=utf-8", "\"v1\"");
    assert_eq!(cached.status, 304);
}

#[test]
fn member_sessions_are_sandboxed_in_their_workspace() {
    let account = Account {
        id: "a1".to_string(),
        username: "amy".to_string(),
        display_name: "Amy".to_string(),
        role: "member".to_string(),
        is_admin: false,
        disabled: false,
        created_at: String::new(),
        last_login_at: None,
    };
    let system = system_read_only("/g/scripts", "/g/sys-scripts", Some("/usr/local/bin/gqy"));
    assert_eq!(system.len(), 15);
    assert_eq!(system[0], "/usr");
    assert_eq!(system[14], "/usr/local/bin/gqy");
    let scope = member_scope(Some("a1"), Some(&account), "/g/home/amy", &system, "/g/cache", Some("/run/gqy")).unwrap();
    assert_eq!(scope.workspace, "/g/home/amy/workspace");
    let policy = scope.policy.unwrap();
    assert_eq!(policy.home.as_deref(), Some("/g/home/amy/workspace"));
    assert_eq!(&policy.read_only[15..], &["/g/home/amy/documents", "/g/home/amy/pictures", "/g/home/amy/personas"]);
    assert_eq!(
        policy.read_write,
        vec!["/g/home/amy/workspace", "/tmp", "/dev/null", "/g/cache", "/run/gqy", "/g/home/amy/artifacts"]
    );
    assert_eq!(policy.writable_summary, vec!["root", "/tmp"]);
    assert!(member_scope(Some(""), Some(&account), "/h", &system, "/c", None).is_none());
    assert!(member_scope(None, Some(&account), "/h", &system, "/c", None).is_none());
    let mut boss = account;
    boss.is_admin = true;
    assert!(member_scope(Some("a1"), Some(&boss), "/h", &system, "/c", None).is_none());
    assert_eq!(base_read_write("/r", "/c", None), vec!["/r", "/tmp", "/dev/null", "/c"]);
    let kept = retain_existing(&vec!["/a".to_string(), "/b".to_string(), "/c".to_string()], &vec![true, false, true]);
    assert_eq!(kept, vec!["/a", "/c"]);
}

#[test]
fn the_home_directory_is_the_profile_directory() {
    assert_eq!(require_home_dir("/g/owner/profile.md", "/g/home/amy/profile.md", &member()).unwrap(), "/g/home/amy");
    assert_eq!(require_home_dir("/g/owner/profile.md", "x", &admin("a0")).unwrap(), "/g/owner");
    let error = require_home_dir("/", "/", &member()).unwrap_err();
    assert_eq!((error.status, error.message.as_str()), (404, "account directory not found"));
}

#[test]
fn a_redo_must_name_the_current_candidate() {
    let candidate = RedoCandidate { turn_id: "t1".to_string(), input_id: "i1".to_string(), revision: 4 };
    assert!(check_redo_candidate(Some(&candidate), "t1", "i1", 4).is_ok());
    let changed = check_redo_candidate(Some(&candidate), "t1", "i1", 3).unwrap_err();
    assert_eq!((changed.status, changed.message.as_str()), (409, "the conversation changed before redo could start"));
    let none = check_redo_candidate(None, "t1", "i1", 4).unwrap_err();
    assert_eq!(none.message, "the last input cannot be redone");
    assert_eq!(redo_text(Some("new"), "old", true), "new");
    assert_eq!(redo_text(Some("new"), "old", false), "old");
    assert_eq!(redo_text(None, "old", true), "old");
    assert!(check_durable_followups(&vec![0, 0]).is_ok());
    let error = check_durable_followups(&vec![0, 2]).unwrap_err();
    assert_eq!(
        (error.status, error.message.as_str()),
        (409, "this follow-up uses non-durable attachments and cannot be redone")
    );
}

#[test]
fn persona_images_are_served_by_their_format() {
    let png = [0x89u8, 0x50, 0x4e, 0x47, 0x0d, 0x0a, 0x1a, 0x0a, 0, 0];
    assert_eq!(persona_image_content_type(&png).ok(), Some("image/png"));
    let bmp = [b'B', b'M', 0, 0, 0, 0, 0, 0, 0, 0];
    assert_eq!(persona_image_content_type(&bmp).ok(), Some("image/bmp"));
    let text = b"just some words";
    let err = persona_image_content_type(text).err().unwrap();
    assert_eq!(err.status, 404);
    assert_eq!(err.message, "persona avatar is not an image");
    let big = vec![0u8; 8 * 1024 * 1024 + 1];
    let err = persona_image_content_type(&big).err().unwrap();
    assert_eq!(err.status, 413);
    assert_eq!(err.message, "persona avatar is too large");
}

#[test]
fn account_avatars_take_no_bitmaps() {
    let gif = b"GIF89a\x01\x00\x01\x00";
    assert_eq!(account_avatar_content_type(gif).ok(), Some("image/gif"));
    let bmp = [b'B', b'M', 0, 0, 0, 0, 0, 0, 0, 0];
    let err = account_avatar_content_type(&bmp).err().unwrap();
    assert_eq!(err.status, 404);
    assert_eq!(err.message, "account avatar format is unsupported");
}

#[test]
fn avatar_requests_pick_their_image() {
    let scope = Some("persona-1".to_string());
    assert!(matches!(
        avatar_source(&scope, &None, true, false),
        Ok(AvatarSource::MemberPersona { ref scope, board: true }) if scope == "persona-1"
    ));
    let err = avatar_source(&scope, &None, false, true).err().unwrap();
    assert_eq!(err.status, 404);
    assert_eq!(err.message, "persona not found");
    let path = Some("persona-avatars/ab.png".to_string());
    assert!(matches!(avatar_source(&Some(String::new()), &path, true, true), Ok(AvatarSource::ManagedPath(ref p)) if p == "persona-avatars/ab.png"));
    assert!(matches!(avatar_source(&None, &Some(String::new()), true, false), Ok(AvatarSource::ActiveBoard)));
    assert!(matches!(avatar_source(&None, &None, false, false), Ok(AvatarSource::ActiveAvatar)));
}

fn account(id: &str, username: &str, display_name: &str) -> Account {
    Account {
        id: id.to_string(),
        username: username.to_string(),
        display_name: display_name.to_string(),
        role: "member".to_string(),
        is_admin: false,
        disabled: false,
        created_at: String::new(),
        last_login_at: None,
    }
}

#[test]
fn usage_rows_are_named_after_their_accounts() {
    let accounts = vec![account("a1", "amy", "Amy"), account("a2", "bob", "Bob")];
    assert_eq!(usage_account_names(&accounts, "a2"), ("bob".to_string(), "Bob".to_string()));
    assert_eq!(usage_account_names(&accounts, "gone"), (String::new(), String::new()));
    assert_eq!(usage_details_limit(None), 50);
    assert_eq!(usage_details_limit(Some(0)), 1);
    assert_eq!(usage_details_limit(Some(9999)), 500);
    assert_eq!(usage_details_limit(Some(120)), 120);
}

#[test]
fn avatar_urls_carry_the_file_version() {
    assert_eq!(account_avatar_url(1_700_000_000), "/api/account/avatar?v=1700000000");
    assert_eq!(account_avatar_url(0), "/api/account/avatar?v=0");
}

#[test]
fn cached_persona_images_must_match_their_hash() {
    let good = "ba7816bf8f01cfea414140de5dae2223b00361a396177a9cb410ff61f20015ad";
    assert!(verify_persona_asset_hash(b"abc", good).is_ok());
    let err = verify_persona_asset_hash(b"abd", good).unwrap_err();
    assert_eq!((err.status, err.message.as_str()), (409, "persona asset cache entry is corrupted"));
}

#[test]
fn new_private_personas_get_an_id_and_a_check() {
    assert_eq!(new_persona_slug(&Some("  cat-girl ".to_string())).unwrap(), "cat-girl");
    let fresh = new_persona_slug(&Some("   ".to_string())).unwrap();
    assert_eq!(fresh.len(), 7);
    assert!(fresh.starts_with('p'));
    assert!(fresh[1..].chars().all(|c| c.is_ascii_hexdigit() && !c.is_ascii_uppercase()));
    let err = check_persona_create(false, false).unwrap_err();
    assert_eq!((err.status, err.message.as_str()), (403, "the admin has turned off member personas"));
    let err = check_persona_create(true, true).unwrap_err();
    assert_eq!((err.status, err.message.as_str()), (409, "a persona with this id already exists"));
    assert!(check_persona_create(true, false).is_ok());
}
