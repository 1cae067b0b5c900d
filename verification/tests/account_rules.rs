use gqy_web::accounts::{
    account_json, assistant_scope, check_disable, default_true_flag, invite_json, member_username, persona_json,
    profile_text, usage_account_filter, validate_display_name, Account, Invite, InviteStatus, PersonaManifest,
    PrivatePersona, WebIdentity,
};

fn identity(account_id: &str, username: &str, admin: bool) -> WebIdentity {
    WebIdentity {
        account_id: account_id.to_string(),
        username: username.to_string(),
        display_name: String::new(),
        admin,
        owner_key: account_id.to_string(),
    }
}

fn invite(used: bool, expires_at: &str) -> Invite {
    Invite {
        code_hash: "h".to_string(),
        created_by: "root".to_string(),
        created_at: "2026-01-01T00:00:00Z".to_string(),
        expires_at: expires_at.to_string(),
        used_by: if used { Some("a2".to_string()) } else { None },
        used_at: None,
        role: "member".to_string(),
    }
}

#[test]
fn the_assistant_speaks_as_the_member_persona() {
    let amy = identity("a1", "amy", false);
    assert_eq!(assistant_scope(&amy, Some("cat"), "gqy"), "member:cat");
    assert_eq!(assistant_scope(&amy, None, "gqy"), "gqy");
    assert_eq!(assistant_scope(&identity("", "", true), Some("cat"), "gqy"), "gqy");
}

#[test]
fn accounts_and_invites_are_shown_as_stored() {
    let account = Account {
        id: "a1".to_string(),
        username: "amy".to_string(),
        display_name: "Amy".to_string(),
        role: "admin".to_string(),
        is_admin: true,
        disabled: false,
        created_at: "c".to_string(),
        last_login_at: Some("l".to_string()),
    };
    let json = account_json(&account);
    assert_eq!((json.id.as_str(), json.role.as_str(), json.admin), ("a1", "admin", true));
    assert_eq!(json.last_login_at.as_deref(), Some("l"));
    let now = "2026-02-01T00:00:00Z";
    assert!(matches!(invite_json(&invite(true, "2026-03-01T00:00:00Z"), now).status, InviteStatus::Used));
    assert!(matches!(invite_json(&invite(false, "2026-01-15T00:00:00Z"), now).status, InviteStatus::Expired));
    assert!(matches!(invite_json(&invite(false, "2026-03-01T00:00:00Z"), now).status, InviteStatus::Open));
    assert_eq!(invite_json(&invite(false, "x"), now).id, "h");
}

#[test]
fn private_personas_are_for_members() {
    assert_eq!(member_username(&identity("a1", "amy", false)).unwrap(), "amy");
    let err = member_username(&identity("", "", true)).unwrap_err();
    assert_eq!(err.status, 400);
    assert!(err.message.starts_with("private personas are for member accounts"));
    assert!(default_true_flag());
}

#[test]
fn members_see_only_their_own_usage() {
    assert_eq!(usage_account_filter(&identity("a1", "amy", false), Some("a2")), Some("a1".to_string()));
    assert_eq!(usage_account_filter(&identity("", "", true), Some("a2")), Some("a2".to_string()));
    assert_eq!(usage_account_filter(&identity("", "", true), None), None);
}

#[test]
fn profiles_and_display_names_are_checked() {
    assert_eq!(profile_text("likes tea  \n\n").unwrap(), "likes tea\n");
    assert_eq!(profile_text(&"x".repeat(100_000)).unwrap_err().message, "profile is too long");
    assert_eq!(validate_display_name("  Amy ").unwrap(), "Amy");
    assert_eq!(validate_display_name("   ").unwrap_err().message, "display name must be 1 to 64 characters");
    assert!(validate_display_name(&"a".repeat(65)).is_err());
}

#[test]
fn the_last_admin_cannot_be_disabled() {
    assert_eq!(check_disable("a1", true, "a1", 3).unwrap_err().message, "you cannot disable yourself");
    assert_eq!(check_disable("a2", true, "a1", 0).unwrap_err().message, "cannot disable the last admin");
    assert!(check_disable("a2", true, "a1", 1).is_ok());
    assert!(check_disable("a3", false, "a1", 0).is_ok());
}

#[test]
fn private_personas_list_their_ticked_plugins() {
    let persona = PrivatePersona {
        slug: "cat".to_string(),
        name: "Cat".to_string(),
        description: "d".to_string(),
        board_title: "t".to_string(),
        board_subtitle: "s".to_string(),
        created_at: "c".to_string(),
        manifest: PersonaManifest { memory: true, enabled: None },
        scripts: Some(vec!["weather".to_string()]),
        skills: None,
        scope: "member:amy:cat".to_string(),
        has_avatar: false,
        has_board: false,
    };
    let json = persona_json(&persona);
    assert_eq!((json.slug.as_str(), json.name.as_str(), json.memory), ("cat", "Cat", true));
    assert!(json.plugins.is_empty());
    assert_eq!(json.scripts, Some(vec!["weather".to_string()]));
    assert_eq!(json.skills, None);
}
