use gqy_web::sandbox_scope::{abbreviate_home, admin_grants, admin_scope, expand_sandbox_entry, is_granted};

fn strings(v: &[&str]) -> Vec<String> {
    v.iter().map(|s| s.to_string()).collect()
}

#[test]
fn sandbox_entries_expand_against_the_real_home() {
    assert_eq!(expand_sandbox_entry("  ~/.cargo ", Some("/home/g")).as_deref(), Some("/home/g/.cargo"));
    assert_eq!(expand_sandbox_entry("~/.cargo", None), None);
    assert_eq!(expand_sandbox_entry("/opt/sdk", Some("/home/g")).as_deref(), Some("/opt/sdk"));
    assert_eq!(expand_sandbox_entry("relative/dir", Some("/home/g")), None);
    assert_eq!(abbreviate_home("/home/g/.cargo/bin", Some("/home/g")), "~/.cargo/bin");
    assert_eq!(abbreviate_home("/opt/sdk", Some("/home/g")), "/opt/sdk");
    assert_eq!(abbreviate_home("/home/g2/x", Some("/home/g")), "/home/g2/x");
    assert!(is_granted("/home/g/.cargo/bin", &strings(&["/usr", "/home/g/.cargo"])));
    assert!(!is_granted("/home/g/.cargox", &strings(&["/home/g/.cargo"])));
}

#[test]
fn admin_sandboxes_pass_granted_toolchains_on() {
    let read_only = admin_grants(&strings(&["/usr", "/etc"]), &vec![], &strings(&["/home/g/.rustup"]));
    assert_eq!(read_only, strings(&["/usr", "/etc", "/home/g/.rustup"]));
    let read_write = admin_grants(&strings(&["/srv/box", "/tmp"]), &strings(&["/g/artifacts"]), &strings(&["/home/g/.cargo"]));
    let scope = admin_scope(
        "/srv/box",
        Some("/home/g"),
        read_only,
        read_write,
        &strings(&["/home/g/.rustup"]),
        &strings(&["/home/g/.cargo"]),
        &vec![true, true, true, false],
        &vec![true, true],
    );
    assert_eq!(scope.workspace, "/srv/box");
    let policy = scope.policy.unwrap();
    assert_eq!(policy.home.as_deref(), Some("/srv/box"));
    assert_eq!(policy.readable_summary, strings(&["root", "/tmp", "system dirs", "~/.rustup"]));
    assert_eq!(policy.writable_summary, strings(&["root", "/tmp", "~/.cargo"]));
    assert_eq!(
        policy.env,
        vec![
            ("CARGO_HOME".to_string(), "/home/g/.cargo".to_string()),
            ("RUSTUP_HOME".to_string(), "/home/g/.rustup".to_string()),
        ]
    );
    assert_eq!(policy.path_prepend, strings(&["/home/g/.cargo/bin"]));
    let homeless = admin_scope("/r", None, vec![], vec![], &vec![], &vec![], &vec![true; 4], &vec![true; 2]);
    let policy = homeless.policy.unwrap();
    assert!(policy.env.is_empty() && policy.path_prepend.is_empty());
}

use gqy_web::sandbox_scope::{session_scope, ScopeChoice};
use gqy_web::session_cmds::{local_session_acceptable, SessionTarget};
use gqy_web::sessions::SessionRecord;

#[test]
fn unsandboxed_turns_work_in_the_first_known_directory() {
    assert!(matches!(session_scope(Some("/srv/box"), Some("/w"), None, None), ScopeChoice::AdminSandbox(r) if r == "/srv/box"));
    assert!(matches!(session_scope(None, Some("/w"), Some("/h"), None), ScopeChoice::Plain(w) if w == "/w"));
    assert!(matches!(session_scope(None, None, Some("/h"), Some("/d")), ScopeChoice::Plain(w) if w == "/h"));
    assert!(matches!(session_scope(None, None, None, Some("/d")), ScopeChoice::Plain(w) if w == "/d"));
    assert!(matches!(session_scope(None, None, None, None), ScopeChoice::Plain(w) if w == "."));
}

fn session(kind: &str, persona: &str, owner: &str) -> SessionRecord {
    SessionRecord {
        session_id: "s".to_string(),
        name: String::new(),
        kind: kind.to_string(),
        persona: persona.to_string(),
        owner: owner.to_string(),
        sandbox: None,
        created_at: String::new(),
        updated_at: String::new(),
        sort_key: 0,
    }
}

#[test]
fn sessions_are_reached_only_on_their_terms() {
    let user = vec!["user".to_string()];
    assert!(local_session_acceptable(&session("user", "gqy", ""), SessionTarget::Name, &user, None, "gqy", false));
    assert!(!local_session_acceptable(&session("user", "other", ""), SessionTarget::Name, &user, None, "gqy", false));
    assert!(local_session_acceptable(&session("user", "other", ""), SessionTarget::Id, &user, None, "gqy", false));
    assert!(local_session_acceptable(&session("user", "dev", ""), SessionTarget::Current, &user, None, "gqy", false));
    assert!(!local_session_acceptable(&session("ask", "gqy", ""), SessionTarget::Id, &user, None, "gqy", false));
    assert!(!local_session_acceptable(&session("user", "gqy", ""), SessionTarget::Id, &user, None, "gqy", true));
    assert!(local_session_acceptable(&session("user", "member:cat", "a1"), SessionTarget::Name, &user, Some("a1"), "gqy", false));
    assert!(!local_session_acceptable(&session("user", "gqy", "a2"), SessionTarget::Id, &user, Some("a1"), "gqy", false));
}
