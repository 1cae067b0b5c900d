//! Accounts as the WebUI sees them: who is signed in, where their files live,
//! which dashboards a member gets, the state of an invite, the avatar display
//! preferences, and the guards of the account endpoints.
use crate::api::{api_error_is, ApiError, BAD_REQUEST, CONFLICT, FORBIDDEN, INTERNAL, NOT_FOUND};
use crate::path::{join, join_seq, parent, parent_seq};
use crate::sessions::{SessionOverview, DEV_PERSONA};
use crate::goal::{decimal, decimal_string};
use crate::text::{
    chars_of, extend_str, lex_le, lex_le_chars, str_eq, string_of, string_views, trim_chars,
    trim_end_seq, trim_seq, trim_end_chars,
};
use vstd::prelude::*;

verus! {

/// The signed-in user.
pub struct WebIdentity {
    /// The account row id; empty for the machine-level admin who signed in
    /// with the command-line password.
    pub account_id: String,
    pub username: String,
    pub display_name: String,
    pub admin: bool,
    /// The key the user's sessions are owned under (`WebIdentity::owner_key`).
    pub owner_key: String,
}

/// Whether the identity is a member with a username (not an admin).
pub open spec fn is_named_member(identity: WebIdentity) -> bool {
    !identity.admin && identity.username@.len() > 0
}

/// The profile file of a signed-in user: the owner's profile for admins, the
/// member's own `profile.md` otherwise.
pub open spec fn profile_file_of(owner_profile: Seq<char>, member_profile: Seq<char>, identity: WebIdentity) -> Seq<char> {
    if identity.admin {
        owner_profile
    } else {
        member_profile
    }
}

/// `owner_profile` is the owner's profile file; `member_profile` the profile
/// file of the identity's username.
pub fn profile_file_for(owner_profile: &str, member_profile: &str, identity: &WebIdentity) -> (r: String)
    ensures
        r@ == profile_file_of(owner_profile@, member_profile@, *identity),
{
    if identity.admin {
        owner_profile.to_owned()
    } else {
        member_profile.to_owned()
    }
}

/// The directory of the account's files: the directory of its profile file.
pub fn account_dir(owner_profile: &str, member_profile: &str, identity: &WebIdentity) -> (r: Option<String>)
    ensures
        match r {
            Some(d) => parent_seq(profile_file_of(owner_profile@, member_profile@, *identity)) == Some(d@),
            None => parent_seq(profile_file_of(owner_profile@, member_profile@, *identity)) is None,
        },
{
    let file = profile_file_for(owner_profile, member_profile, identity);
    match parent(&chars_of(file.as_str())) {
        Some(p) => Some(string_of(&p)),
        None => None,
    }
}

/// [`account_dir`], or `404 account directory not found`.
pub fn require_account_dir(owner_profile: &str, member_profile: &str, identity: &WebIdentity) -> (r: Result<String, ApiError>)
    ensures
        match r {
            Ok(d) => parent_seq(profile_file_of(owner_profile@, member_profile@, *identity)) == Some(d@),
            Err(e) => parent_seq(profile_file_of(owner_profile@, member_profile@, *identity)) is None
                && api_error_is(e, NOT_FOUND, "account directory not found"@),
        },
{
    match account_dir(owner_profile, member_profile, identity) {
        Some(d) => Ok(d),
        None => Err(ApiError::new(NOT_FOUND, "account directory not found")),
    }
}

/// The file stem of the account avatar.
pub const AVATAR_STEM: &'static str = "account-avatar";

/// The image extensions an avatar may have, in the order they are looked for.
pub const IMAGE_EXTENSIONS: [&'static str; 4] = ["png", "jpg", "webp", "gif"];

/// `dir/account-avatar.<ext>`.
pub open spec fn avatar_candidate(dir: Seq<char>, ext: Seq<char>) -> Seq<char> {
    join_seq(dir, AVATAR_STEM@ + seq!['.'] + ext)
}

/// The avatar file: the first candidate, in extension order, that is a file.
/// `is_file[k]` tells whether the candidate with the k-th extension is one.
pub open spec fn avatar_choice(dir: Seq<char>, is_file: Seq<bool>) -> Option<Seq<char>> {
    if is_file[0] {
        Some(avatar_candidate(dir, IMAGE_EXTENSIONS[0]@))
    } else if is_file[1] {
        Some(avatar_candidate(dir, IMAGE_EXTENSIONS[1]@))
    } else if is_file[2] {
        Some(avatar_candidate(dir, IMAGE_EXTENSIONS[2]@))
    } else if is_file[3] {
        Some(avatar_candidate(dir, IMAGE_EXTENSIONS[3]@))
    } else {
        None
    }
}

/// The candidate avatar path for the k-th extension.
pub fn avatar_candidate_path(dir: &str, k: usize) -> (r: String)
    requires
        k < 4,
    ensures
        r@ == avatar_candidate(dir@, IMAGE_EXTENSIONS[k as int]@),
{
    let mut name = chars_of(AVATAR_STEM);
    name.push('.');
    extend_str(&mut name, IMAGE_EXTENSIONS[k]);
    string_of(&join(&chars_of(dir), &name))
}

pub fn avatar_file(dir: &str, is_file: &[bool]) -> (r: Option<String>)
    requires
        is_file@.len() == 4,
    ensures
        match r {
            Some(p) => avatar_choice(dir@, is_file@) == Some(p@),
            None => avatar_choice(dir@, is_file@) is None,
        },
{
    if is_file[0] {
        Some(avatar_candidate_path(dir, 0))
    } else if is_file[1] {
        Some(avatar_candidate_path(dir, 1))
    } else if is_file[2] {
        Some(avatar_candidate_path(dir, 2))
    } else if is_file[3] {
        Some(avatar_candidate_path(dir, 3))
    } else {
        None
    }
}

/// The persona scope the assistant speaks in for this user: a member's own
/// active persona (`member:<slug>`), else the global one.
pub open spec fn scope_for(identity: WebIdentity, member_persona: Option<Seq<char>>, global_scope: Seq<char>) -> Seq<char> {
    if is_named_member(identity) && member_persona is Some {
        "member:"@ + member_persona.unwrap()
    } else {
        global_scope
    }
}

/// `member_persona` is the slug of the member's active private persona, if
/// any; `global_scope` the scope of the global active persona.
pub fn assistant_scope(identity: &WebIdentity, member_persona: Option<&str>, global_scope: &str) -> (r: String)
    ensures
        r@ == scope_for(
            *identity,
            match member_persona {
                Some(s) => Some(s@),
                None => None,
            },
            global_scope@,
        ),
{
    if !identity.admin && !identity.username.as_str().is_empty() {
        if let Some(slug) = member_persona {
            let mut v = chars_of("member:");
            extend_str(&mut v, slug);
            return string_of(&v);
        }
    }
    global_scope.to_owned()
}

/// The smallest and largest avatar size in the chat, in pixels.
pub const MIN_SIZE: u32 = 24;
pub const MAX_SIZE: u32 = 44;

/// At most this many persona scopes keep an assistant frame.
pub const MAX_SCOPES: usize = 64;

/// The avatar display preferences of an account. `F` is the (already
/// clamped) framing of one avatar.
pub struct StoredDisplay<F> {
    pub size: Option<u32>,
    pub user: Option<F>,
    /// Persona scope → the framing of the assistant's avatar, one entry per
    /// scope.
    pub assistant: Vec<(String, F)>,
}

/// A change request: `None` keeps a field, `Some(None)` resets it.
pub struct AvatarDisplayRequest<F> {
    pub size: Option<Option<u32>>,
    pub user: Option<Option<F>>,
    pub assistant: Option<Option<F>>,
}

pub open spec fn scopes_view<F>(v: Seq<(String, F)>) -> Seq<(Seq<char>, F)> {
    v.map_values(|e: (String, F)| (e.0@, e.1))
}

/// The position of a scope, or -1.
pub open spec fn scope_index<F>(s: Seq<(Seq<char>, F)>, scope: Seq<char>) -> int
    decreases s.len(),
{
    if s.len() == 0 {
        -1
    } else if s.last().0 == scope {
        s.len() - 1
    } else {
        scope_index(s.drop_last(), scope)
    }
}

pub open spec fn distinct_scopes<F>(s: Seq<(Seq<char>, F)>) -> bool {
    forall|i: int, j: int| 0 <= i < j < s.len() ==> s[i].0 != s[j].0
}

/// The frame kept for a scope.
pub open spec fn frame_for<F>(s: Seq<(Seq<char>, F)>, scope: Seq<char>) -> Option<F> {
    let i = scope_index(s, scope);
    if i < 0 {
        None
    } else {
        Some(s[i].1)
    }
}

proof fn lemma_scope_index<F>(s: Seq<(Seq<char>, F)>, scope: Seq<char>)
    ensures
        -1 <= scope_index(s, scope) < s.len(),
        scope_index(s, scope) >= 0 ==> s[scope_index(s, scope)].0 == scope,
        scope_index(s, scope) < 0 ==> forall|k: int| 0 <= k < s.len() ==> s[k].0 != scope,
    decreases s.len(),
{
    if s.len() > 0 && s.last().0 != scope {
        let t = s.drop_last();
        lemma_scope_index(t, scope);
        assert forall|k: int| 0 <= k < t.len() implies t[k] == s[k] by {}
    }
}

/// `u32::clamp` to the avatar size range.
pub open spec fn clamp_size(v: u32) -> u32 {
    if v < MIN_SIZE {
        MIN_SIZE
    } else if v > MAX_SIZE {
        MAX_SIZE
    } else {
        v
    }
}

/// The assistant frames after setting (or, for `None`, removing) the frame of
/// `scope`: a new scope is only added while fewer than [`MAX_SCOPES`] are
/// kept.
pub open spec fn frames_after<F>(s: Seq<(Seq<char>, F)>, scope: Seq<char>, frame: Option<F>) -> Seq<(Seq<char>, F)> {
    let i = scope_index(s, scope);
    match frame {
        Some(f) => if i >= 0 {
            s.update(i, (scope, f))
        } else if s.len() < MAX_SCOPES {
            s.push((scope, f))
        } else {
            s
        },
        None => if i >= 0 {
            s.remove(i)
        } else {
            s
        },
    }
}

fn scope_position<F>(v: &Vec<(String, F)>, scope: &str) -> (r: Option<usize>)
    ensures
        match r {
            Some(i) => scope_index(scopes_view(v@), scope@) == i && i < v.len(),
            None => scope_index(scopes_view(v@), scope@) < 0,
        },
{
    let ghost s = scopes_view(v@);
    proof {
        lemma_scope_index(s, scope@);
    }
    let mut j: usize = v.len();
    assert(s.take(j as int) =~= s);
    while j > 0
        invariant
            j <= v.len(),
            s == scopes_view(v@),
            s.len() == v.len(),
            scope_index(s, scope@) == scope_index(s.take(j as int), scope@),
        decreases j,
    {
        assert(s.take(j as int).drop_last() =~= s.take(j - 1));
        assert(s[j - 1].0 == v@[j - 1].0@);
        if str_eq(v[j - 1].0.as_str(), scope) {
            return Some(j - 1);
        }
        j -= 1;
    }
    None
}

/// Applies a change request to the stored preferences, for the persona scope
/// the assistant is in.
pub fn apply_request<F>(stored: &mut StoredDisplay<F>, request: AvatarDisplayRequest<F>, scope: &str)
    requires
        distinct_scopes(scopes_view(old(stored).assistant@)),
    ensures
        distinct_scopes(scopes_view(final(stored).assistant@)),
        final(stored).size == match request.size {
            Some(Some(v)) => Some(clamp_size(v)),
            Some(None) => None,
            None => old(stored).size,
        },
        final(stored).user == match request.user {
            Some(u) => u,
            None => old(stored).user,
        },
        scopes_view(final(stored).assistant@) == match request.assistant {
            Some(a) => frames_after(scopes_view(old(stored).assistant@), scope@, a),
            None => scopes_view(old(stored).assistant@),
        },
{
    match request.size {
        Some(Some(v)) => {
            stored.size = Some(if v < MIN_SIZE {
                MIN_SIZE
            } else if v > MAX_SIZE {
                MAX_SIZE
            } else {
                v
            });
        },
        Some(None) => {
            stored.size = None;
        },
        None => {},
    }
    match request.user {
        Some(u) => {
            stored.user = u;
        },
        None => {},
    }
    match request.assistant {
        Some(a) => {
            let ghost s = scopes_view(stored.assistant@);
            proof {
                lemma_scope_index(s, scope@);
            }
            let pos = scope_position(&stored.assistant, scope);
            match a {
                Some(frame) => match pos {
                    Some(i) => {
                        stored.assistant.set(i, (scope.to_owned(), frame));
                        assert(scopes_view(stored.assistant@) =~= s.update(i as int, (scope@, frame)));
                    },
                    None => {
                        if stored.assistant.len() < MAX_SCOPES {
                            stored.assistant.push((scope.to_owned(), frame));
                            assert(scopes_view(stored.assistant@) =~= s.push((scope@, frame)));
                        }
                    },
                },
                None => match pos {
                    Some(i) => {
                        stored.assistant.remove(i);
                        assert(scopes_view(stored.assistant@) =~= s.remove(i as int));
                    },
                    None => {},
                },
            }
        },
        None => {},
    }
}

/// What the WebUI is told of the display preferences: the size, the user's
/// frame, and the assistant's frame in the current scope.
pub struct DisplayView<F> {
    pub size: Option<u32>,
    pub user: Option<F>,
    pub assistant: Option<F>,
}

pub fn display_json<F: Copy>(stored: &StoredDisplay<F>, scope: &str) -> (r: DisplayView<F>)
    ensures
        r.size == stored.size,
        r.user == stored.user,
        r.assistant == frame_for(scopes_view(stored.assistant@), scope@),
{
    let assistant = match scope_position(&stored.assistant, scope) {
        Some(i) => Some(stored.assistant[i].1),
        None => None,
    };
    DisplayView { size: stored.size, user: stored.user, assistant }
}

/// The URL of an account's avatar: the file's modification time (seconds)
/// is in it, so a new avatar gets a new URL and the old one can be cached
/// for good.
pub open spec fn avatar_url_of(version: u64) -> Seq<char> {
    "/api/account/avatar?v="@ + decimal(version as nat)
}

pub fn account_avatar_url(version: u64) -> (r: String)
    ensures
        r@ == avatar_url_of(version),
{
    let mut v = chars_of("/api/account/avatar?v=");
    crate::text::extend_chars(&mut v, &decimal_string(version));
    string_of(&v)
}

/// The two account items of the bootstrap: the avatar URL (if the account
/// has an avatar) and the display preferences in the current scope; an
/// account without a directory has default preferences.
pub fn account_avatar_bootstrap<F: Copy>(
    avatar_url: Option<String>,
    stored: Option<&StoredDisplay<F>>,
    scope: &str,
) -> (r: (Option<String>, DisplayView<F>))
    ensures
        r.0 == avatar_url,
        match stored {
            Some(s) => r.1.size == s.size && r.1.user == s.user && r.1.assistant == frame_for(
                scopes_view(s.assistant@),
                scope@,
            ),
            None => r.1.size is None && r.1.user is None && r.1.assistant is None,
        },
{
    let display = match stored {
        Some(s) => display_json(s, scope),
        None => DisplayView { size: None, user: None, assistant: None },
    };
    (avatar_url, display)
}

/// What a signed-in user is told about themselves.
pub struct IdentityJson {
    pub account_id: String,
    pub username: String,
    pub display_name: String,
    pub admin: bool,
}

pub fn identity_json(identity: &WebIdentity) -> (r: IdentityJson)
    ensures
        r.account_id@ == identity.account_id@,
        r.username@ == identity.username@,
        r.display_name@ == identity.display_name@,
        r.admin == identity.admin,
{
    IdentityJson {
        account_id: identity.account_id.clone(),
        username: identity.username.clone(),
        display_name: identity.display_name.clone(),
        admin: identity.admin,
    }
}

/// An account row, as the account list shows it.
pub struct Account {
    pub id: String,
    pub username: String,
    pub display_name: String,
    pub role: String,
    /// Whether the role is the admin role (`Account::is_admin`).
    pub is_admin: bool,
    pub disabled: bool,
    pub created_at: String,
    pub last_login_at: Option<String>,
}

/// The fields of an account the admin console lists.
pub struct AccountJson {
    pub id: String,
    pub username: String,
    pub display_name: String,
    pub role: String,
    pub admin: bool,
    pub disabled: bool,
    pub created_at: String,
    pub last_login_at: Option<String>,
}

pub fn account_json(account: &Account) -> (r: AccountJson)
    ensures
        r.id@ == account.id@,
        r.username@ == account.username@,
        r.display_name@ == account.display_name@,
        r.role@ == account.role@,
        r.admin == account.is_admin,
        r.disabled == account.disabled,
        r.created_at@ == account.created_at@,
        r.last_login_at == account.last_login_at,
{
    AccountJson {
        id: account.id.clone(),
        username: account.username.clone(),
        display_name: account.display_name.clone(),
        role: account.role.clone(),
        admin: account.is_admin,
        disabled: account.disabled,
        created_at: account.created_at.clone(),
        last_login_at: account.last_login_at.clone(),
    }
}

/// The state of an invite code.
pub enum InviteStatus {
    Used,
    Expired,
    Open,
}

/// An invite: used once someone redeemed it, expired once its expiry time
/// (an RFC 3339 string, compared as text) is not after `now`, open otherwise.
pub open spec fn invite_status_of(used: bool, expires_at: Seq<char>, now: Seq<char>) -> InviteStatus {
    if used {
        InviteStatus::Used
    } else if lex_le(expires_at, now) {
        InviteStatus::Expired
    } else {
        InviteStatus::Open
    }
}

/// An invite row.
pub struct Invite {
    pub code_hash: String,
    pub created_by: String,
    pub created_at: String,
    pub expires_at: String,
    pub used_by: Option<String>,
    pub used_at: Option<String>,
    pub role: String,
}

/// What the admin console shows of an invite.
pub struct InviteJson {
    pub id: String,
    pub created_by: String,
    pub created_at: String,
    pub expires_at: String,
    pub used_by: Option<String>,
    pub used_at: Option<String>,
    pub role: String,
    pub status: InviteStatus,
}

pub fn invite_json(invite: &Invite, now: &str) -> (r: InviteJson)
    ensures
        r.id@ == invite.code_hash@,
        r.created_by@ == invite.created_by@,
        r.created_at@ == invite.created_at@,
        r.expires_at@ == invite.expires_at@,
        r.used_by == invite.used_by,
        r.used_at == invite.used_at,
        r.role@ == invite.role@,
        r.status == invite_status_of(invite.used_by is Some, invite.expires_at@, now@),
{
    let status = if invite.used_by.is_some() {
        InviteStatus::Used
    } else if lex_le_chars(&chars_of(invite.expires_at.as_str()), &chars_of(now)) {
        InviteStatus::Expired
    } else {
        InviteStatus::Open
    };
    InviteJson {
        id: invite.code_hash.clone(),
        created_by: invite.created_by.clone(),
        created_at: invite.created_at.clone(),
        expires_at: invite.expires_at.clone(),
        used_by: invite.used_by.clone(),
        used_at: invite.used_at.clone(),
        role: invite.role.clone(),
        status,
    }
}

/// Private personas are for member accounts.
pub fn member_username(identity: &WebIdentity) -> (r: Result<String, ApiError>)
    ensures
        match r {
            Ok(u) => is_named_member(*identity) && u@ == identity.username@,
            Err(e) => !is_named_member(*identity) && api_error_is(
                e,
                BAD_REQUEST,
                "private personas are for member accounts; the admin edits the shared persona in settings"@,
            ),
        },
{
    if identity.admin || identity.username.as_str().is_empty() {
        return Err(
            ApiError::new(
                BAD_REQUEST,
                "private personas are for member accounts; the admin edits the shared persona in settings",
            ),
        );
    }
    Ok(identity.username.clone())
}

/// The `activate` and `memory` fields of a persona request default to true.
pub fn default_true_flag() -> (r: bool)
    ensures
        r,
{
    true
}

/// The page size of the usage details: 50 unless set, and between 1 and 500.
pub fn usage_details_limit(limit: Option<usize>) -> (r: usize)
    ensures
        r == match limit {
            None => 50,
            Some(n) => if n < 1 {
                1
            } else if n > 500 {
                500
            } else {
                n
            },
        },
{
    match limit {
        None => 50,
        Some(n) => if n < 1 {
            1
        } else if n > 500 {
            500
        } else {
            n
        },
    }
}

/// The names the usage page shows for an account id: the username and
/// display name of the account with that id, empty when there is none.
pub open spec fn account_names(accounts: Seq<Account>, id: Seq<char>, i: int) -> (Seq<char>, Seq<char>)
    decreases i,
{
    if i <= 0 {
        (Seq::empty(), Seq::empty())
    } else if accounts[i - 1].id@ == id {
        (accounts[i - 1].username@, accounts[i - 1].display_name@)
    } else {
        account_names(accounts, id, i - 1)
    }
}

/// Looks up the names of an account id in the account list; the last
/// account listed with that id wins, as in a map built from the list.
pub fn usage_account_names(accounts: &Vec<Account>, id: &str) -> (r: (String, String))
    ensures
        (r.0@, r.1@) == account_names(accounts@, id@, accounts@.len() as int),
{
    let mut i: usize = accounts.len();
    while i > 0
        invariant
            i <= accounts.len(),
            forall|k: int| i <= k < accounts.len() ==> (#[trigger] accounts@[k]).id@ != id@,
            account_names(accounts@, id@, accounts@.len() as int) == account_names(accounts@, id@, i as int),
        decreases i,
    {
        if str_eq(accounts[i - 1].id.as_str(), id) {
            return (accounts[i - 1].username.clone(), accounts[i - 1].display_name.clone());
        }
        i -= 1;
    }
    (String::new(), String::new())
}

/// Whose usage the statistics may show: an admin sees the account asked for
/// (or all); anyone else only their own.
pub open spec fn usage_filter_of(identity: WebIdentity, requested: Option<Seq<char>>) -> Option<Seq<char>> {
    if identity.admin {
        requested
    } else {
        Some(identity.owner_key@)
    }
}

pub fn usage_account_filter(identity: &WebIdentity, requested: Option<&str>) -> (r: Option<String>)
    ensures
        match r {
            Some(a) => usage_filter_of(
                *identity,
                match requested {
                    Some(q) => Some(q@),
                    None => None,
                },
            ) == Some(a@),
            None => usage_filter_of(
                *identity,
                match requested {
                    Some(q) => Some(q@),
                    None => None,
                },
            ) is None,
        },
{
    if identity.admin {
        match requested {
            Some(q) => Some(q.to_owned()),
            None => None,
        }
    } else {
        Some(identity.owner_key.clone())
    }
}

/// The longest profile a user may save, in characters.
pub const MAX_PROFILE_CHARS: usize = 20000;

/// A profile is saved with its trailing whitespace dropped and one newline
/// added; a longer one than [`MAX_PROFILE_CHARS`] is refused.
pub open spec fn saved_profile(profile: Seq<char>) -> Option<Seq<char>> {
    if profile.len() > MAX_PROFILE_CHARS {
        None
    } else {
        Some(trim_end_seq(profile) + seq!['\n'])
    }
}

pub fn profile_text(profile: &str) -> (r: Result<String, ApiError>)
    ensures
        match r {
            Ok(t) => saved_profile(profile@) == Some(t@),
            Err(e) => saved_profile(profile@) is None && api_error_is(e, BAD_REQUEST, "profile is too long"@),
        },
{
    let v = chars_of(profile);
    if v.len() > MAX_PROFILE_CHARS {
        return Err(ApiError::new(BAD_REQUEST, "profile is too long"));
    }
    let mut t = trim_end_chars(&v);
    t.push('\n');
    Ok(string_of(&t))
}

/// A display name is 1 to 64 characters once trimmed.
pub open spec fn checked_display_name(name: Seq<char>) -> Option<Seq<char>> {
    let t = trim_seq(name);
    if t.len() == 0 || t.len() > 64 {
        None
    } else {
        Some(t)
    }
}

pub fn validate_display_name(name: &str) -> (r: Result<String, ApiError>)
    ensures
        match r {
            Ok(t) => checked_display_name(name@) == Some(t@),
            Err(e) => checked_display_name(name@) is None && api_error_is(
                e,
                BAD_REQUEST,
                "display name must be 1 to 64 characters"@,
            ),
        },
{
    let t = trim_chars(&chars_of(name));
    if t.len() == 0 || t.len() > 64 {
        return Err(ApiError::new(BAD_REQUEST, "display name must be 1 to 64 characters"));
    }
    Ok(string_of(&t))
}

/// Why an admin may not disable an account: themselves, or the last admin
/// still enabled.
pub open spec fn disable_refusal(
    target_id: Seq<char>,
    target_is_admin: bool,
    self_id: Seq<char>,
    other_enabled_admins: nat,
) -> Option<Seq<char>> {
    if target_id == self_id {
        Some("you cannot disable yourself"@)
    } else if target_is_admin && other_enabled_admins == 0 {
        Some("cannot disable the last admin"@)
    } else {
        None
    }
}

/// Checks that the admin `self_id` may disable the account `target_id`;
/// `other_enabled_admins` counts the enabled admins other than the target.
pub fn check_disable(target_id: &str, target_is_admin: bool, self_id: &str, other_enabled_admins: usize) -> (r: Result<(), ApiError>)
    ensures
        match r {
            Ok(_) => disable_refusal(target_id@, target_is_admin, self_id@, other_enabled_admins as nat) is None,
            Err(e) => e.status == BAD_REQUEST && disable_refusal(
                target_id@,
                target_is_admin,
                self_id@,
                other_enabled_admins as nat,
            ) == Some(e.message@),
        },
{
    if str_eq(target_id, self_id) {
        return Err(ApiError::new(BAD_REQUEST, "you cannot disable yourself"));
    }
    if target_is_admin && other_enabled_admins == 0 {
        return Err(ApiError::new(BAD_REQUEST, "cannot disable the last admin"));
    }
    Ok(())
}

/// What a private persona manifest enables.
pub struct PersonaManifest {
    /// Whether the persona has its own memory.
    pub memory: bool,
    /// The plugins ticked for the persona; `None` = all the admin allows.
    pub enabled: Option<Vec<String>>,
}

/// Whether a plugin's dashboard shows for a private persona: the admin allows
/// it and the persona ticked it (or ticked nothing, which means all).
pub open spec fn plugin_on(allowed: Seq<Seq<char>>, enabled: Option<Seq<Seq<char>>>, id: Seq<char>) -> bool {
    allowed.contains(id) && match enabled {
        None => true,
        Some(list) => list.contains(id),
    }
}

/// The dashboards a member gets: with a private persona, memory if it has
/// its own, then the knowledge base, memes and ledger as they are on; with
/// the shared persona, the knowledge base and ledger the admin allows.
pub open spec fn dashboards_of(allowed: Seq<Seq<char>>, persona: Option<(bool, Option<Seq<Seq<char>>>)>) -> Seq<Seq<char>> {
    match persona {
        Some((memory, enabled)) => (if memory {
            seq!["memory"@]
        } else {
            Seq::empty()
        }) + (if plugin_on(allowed, enabled, "knowledge_base"@) {
            seq!["kb"@]
        } else {
            Seq::empty()
        }) + (if plugin_on(allowed, enabled, "memes"@) {
            seq!["memes"@]
        } else {
            Seq::empty()
        }) + (if plugin_on(allowed, enabled, "ledger"@) {
            seq!["ledger"@]
        } else {
            Seq::empty()
        }),
        None => (if allowed.contains("knowledge_base"@) {
            seq!["kb"@]
        } else {
            Seq::empty()
        }) + (if allowed.contains("ledger"@) {
            seq!["ledger"@]
        } else {
            Seq::empty()
        }),
    }
}

fn list_contains(list: &Vec<String>, id: &str) -> (r: bool)
    ensures
        r == string_views(list@).contains(id@),
{
    let mut i: usize = 0;
    while i < list.len()
        invariant
            i <= list.len(),
            forall|k: int| 0 <= k < i ==> string_views(list@)[k] != id@,
        decreases list.len() - i,
    {
        assert(string_views(list@)[i as int] == list@[i as int]@);
        if str_eq(list[i].as_str(), id) {
            return true;
        }
        i += 1;
    }
    false
}

fn on(allowed: &Vec<String>, enabled: &Option<Vec<String>>, id: &str) -> (r: bool)
    ensures
        r == plugin_on(
            string_views(allowed@),
            match enabled {
                Some(l) => Some(string_views(l@)),
                None => None,
            },
            id@,
        ),
{
    list_contains(allowed, id) && match enabled {
        None => true,
        Some(list) => list_contains(list, id),
    }
}

/// `allowed` is the list of plugins the admin allows members.
pub fn member_dashboards(allowed: &Vec<String>, persona: Option<&PersonaManifest>) -> (r: Vec<&'static str>)
    ensures
        r@.map_values(|s: &'static str| s@) == dashboards_of(
            string_views(allowed@),
            match persona {
                Some(p) => Some(
                    (
                        p.memory,
                        match p.enabled {
                            Some(l) => Some(string_views(l@)),
                            None => None,
                        },
                    ),
                ),
                None => None,
            },
        ),
{
    proof {
        reveal_strlit("memory");
        reveal_strlit("kb");
        reveal_strlit("memes");
        reveal_strlit("ledger");
    }
    let mut out: Vec<&'static str> = Vec::new();
    match persona {
        Some(p) => {
            if p.memory {
                out.push("memory");
            }
            let ghost a = out@.map_values(|s: &'static str| s@);
            if on(allowed, &p.enabled, "knowledge_base") {
                out.push("kb");
            }
            let ghost b = out@.map_values(|s: &'static str| s@);
            if on(allowed, &p.enabled, "memes") {
                out.push("memes");
            }
            let ghost c = out@.map_values(|s: &'static str| s@);
            if on(allowed, &p.enabled, "ledger") {
                out.push("ledger");
            }
            assert(out@.map_values(|s: &'static str| s@) =~= dashboards_of(
                string_views(allowed@),
                Some(
                    (
                        p.memory,
                        match p.enabled {
                            Some(l) => Some(string_views(l@)),
                            None => None,
                        },
                    ),
                ),
            ));
        },
        None => {
            if list_contains(allowed, "knowledge_base") {
                out.push("kb");
            }
            if list_contains(allowed, "ledger") {
                out.push("ledger");
            }
            assert(out@.map_values(|s: &'static str| s@) =~= dashboards_of(
                string_views(allowed@),
                None,
            ));
        },
    }
    out
}

/// A private persona, as the member's persona list shows it.
pub struct PrivatePersona {
    pub slug: String,
    pub name: String,
    pub description: String,
    pub board_title: String,
    pub board_subtitle: String,
    pub created_at: String,
    pub manifest: PersonaManifest,
    pub scripts: Option<Vec<String>>,
    pub skills: Option<Vec<String>>,
    /// The persona's scope (`PrivatePersona::scope`).
    pub scope: String,
    pub has_avatar: bool,
    pub has_board: bool,
}

/// What the member's persona list shows of one persona.
pub struct PersonaJson {
    pub slug: String,
    pub name: String,
    pub description: String,
    pub board_title: String,
    pub board_subtitle: String,
    pub created_at: String,
    pub memory: bool,
    pub plugins: Vec<String>,
    pub scripts: Option<Vec<String>>,
    pub skills: Option<Vec<String>>,
    pub avatar_url: Option<String>,
    pub board_image_url: Option<String>,
    pub scope: String,
}

fn clone_strings(v: &Vec<String>) -> (r: Vec<String>)
    ensures
        string_views(r@) == string_views(v@),
{
    let mut out: Vec<String> = Vec::new();
    let mut i: usize = 0;
    while i < v.len()
        invariant
            i <= v.len(),
            out@ == v@.take(i as int),
        decreases v.len() - i,
    {
        out.push(v[i].clone());
        assert(out@ =~= v@.take(i + 1));
        i += 1;
    }
    assert(v@.take(v.len() as int) =~= v@);
    out
}

pub open spec fn opt_strings(o: Option<Vec<String>>) -> Option<Seq<Seq<char>>> {
    match o {
        Some(l) => Some(string_views(l@)),
        None => None,
    }
}

fn clone_opt_strings(o: &Option<Vec<String>>) -> (r: Option<Vec<String>>)
    ensures
        opt_strings(r) == opt_strings(*o),
{
    match o {
        Some(l) => Some(clone_strings(l)),
        None => None,
    }
}

pub fn persona_json(persona: &PrivatePersona) -> (r: PersonaJson)
    ensures
        r.slug@ == persona.slug@,
        r.name@ == persona.name@,
        r.description@ == persona.description@,
        r.board_title@ == persona.board_title@,
        r.board_subtitle@ == persona.board_subtitle@,
        r.created_at@ == persona.created_at@,
        r.memory == persona.manifest.memory,
        string_views(r.plugins@) == match persona.manifest.enabled {
            Some(l) => string_views(l@),
            None => Seq::<Seq<char>>::empty(),
        },
        opt_strings(r.scripts) == opt_strings(persona.scripts),
        opt_strings(r.skills) == opt_strings(persona.skills),
        match r.avatar_url {
            Some(u) => persona.has_avatar && u@ == "/api/persona/avatar?scope="@ + persona.scope@,
            None => !persona.has_avatar,
        },
        match r.board_image_url {
            Some(u) => persona.has_board && u@ == "/api/persona/avatar?scope="@ + persona.scope@
                + "&board=1"@,
            None => !persona.has_board,
        },
        r.scope@ == persona.scope@,
{
    let plugins = match &persona.manifest.enabled {
        Some(l) => clone_strings(l),
        None => {
            let v: Vec<String> = Vec::new();
            assert(string_views(v@) =~= Seq::<Seq<char>>::empty());
            v
        },
    };
    let avatar_url = if persona.has_avatar {
        let mut v = chars_of("/api/persona/avatar?scope=");
        extend_str(&mut v, persona.scope.as_str());
        Some(string_of(&v))
    } else {
        None
    };
    let board_image_url = if persona.has_board {
        let mut v = chars_of("/api/persona/avatar?scope=");
        extend_str(&mut v, persona.scope.as_str());
        extend_str(&mut v, "&board=1");
        Some(string_of(&v))
    } else {
        None
    };
    PersonaJson {
        slug: persona.slug.clone(),
        name: persona.name.clone(),
        description: persona.description.clone(),
        board_title: persona.board_title.clone(),
        board_subtitle: persona.board_subtitle.clone(),
        created_at: persona.created_at.clone(),
        memory: persona.manifest.memory,
        plugins,
        scripts: clone_opt_strings(&persona.scripts),
        skills: clone_opt_strings(&persona.skills),
        avatar_url,
        board_image_url,
        scope: persona.scope.clone(),
    }
}


/// The persona part of what a signed-in user is told at start-up.
pub struct BootstrapPersona {
    /// The private persona's id; none for the shared persona.
    pub slug: Option<String>,
    pub name: String,
    /// Whether the persona is the member's own.
    pub private: bool,
    /// The dashboards of a member; none for admins.
    pub dashboards: Option<Vec<&'static str>>,
}

/// A member's active private persona, as the start-up needs it.
pub struct ActivePrivatePersona {
    pub slug: String,
    pub name: String,
    pub manifest: PersonaManifest,
}

/// What a signed-in user is told at start-up.
pub struct AccountBootstrap<F> {
    pub identity: IdentityJson,
    pub avatar_url: Option<String>,
    pub avatar_display: DisplayView<F>,
    /// Whether a member still has the first-run guide ahead.
    pub oobe_pending: bool,
    pub persona: BootstrapPersona,
    /// For admins: whether the first admin account is still to be made.
    pub setup_pending: Option<bool>,
    /// The username the first admin account is offered.
    pub setup_username: Option<String>,
}

/// The name of the shared persona.
pub const SHARED_PERSONA_NAME: &'static str = "顾清影";

/// What a signed-in user is told at start-up: who they are and their avatar;
/// for a member, whether the first-run guide is pending and the active
/// persona (their private one, or the shared one) with their dashboards;
/// for an admin, the shared persona, and whether the first admin account is
/// still to be made (signed in with the command-line password while no
/// admin account exists, `has_admin_account` being unknown counting as
/// one existing), with the username it is offered.
pub fn account_bootstrap_json<F: Copy>(
    identity: &WebIdentity,
    avatar_url: Option<String>,
    stored_display: Option<&StoredDisplay<F>>,
    scope: &str,
    oobe_done: bool,
    active: Option<&ActivePrivatePersona>,
    allowed_plugins: &Vec<String>,
    has_admin_account: Option<bool>,
    setup_username: &str,
) -> (r: AccountBootstrap<F>)
    ensures
        r.identity.account_id@ == identity.account_id@,
        r.identity.username@ == identity.username@,
        r.identity.display_name@ == identity.display_name@,
        r.identity.admin == identity.admin,
        r.avatar_url == avatar_url,
        match stored_display {
            Some(s) => r.avatar_display.size == s.size && r.avatar_display.user == s.user
                && r.avatar_display.assistant == frame_for(scopes_view(s.assistant@), scope@),
            None => r.avatar_display.size is None && r.avatar_display.user is None
                && r.avatar_display.assistant is None,
        },
        is_named_member(*identity) ==> ({
            &&& r.oobe_pending == !oobe_done
            &&& r.setup_pending is None
            &&& r.setup_username is None
            &&& r.persona.dashboards is Some
            &&& r.persona.dashboards.unwrap()@.map_values(|s: &'static str| s@) == dashboards_of(
                string_views(allowed_plugins@),
                match active {
                    Some(p) => Some(
                        (
                            p.manifest.memory,
                            match p.manifest.enabled {
                                Some(l) => Some(string_views(l@)),
                                None => None,
                            },
                        ),
                    ),
                    None => None,
                },
            )
            &&& match active {
                Some(p) => r.persona.slug is Some && r.persona.slug.unwrap()@ == p.slug@ && r.persona.name@
                    == p.name@ && r.persona.private,
                None => r.persona.slug is None && r.persona.name@ == SHARED_PERSONA_NAME@ && !r.persona.private,
            }
        }),
        !is_named_member(*identity) ==> ({
            let pending = identity.account_id@.len() == 0 && has_admin_account == Some(false);
            &&& !r.oobe_pending
            &&& r.persona.slug is None
            &&& r.persona.name@ == SHARED_PERSONA_NAME@
            &&& !r.persona.private
            &&& r.persona.dashboards is None
            &&& r.setup_pending == Some(pending)
            &&& (if pending {
                r.setup_username is Some && r.setup_username.unwrap()@ == setup_username@
            } else {
                r.setup_username is None
            })
        }),
{
    let ident = identity_json(identity);
    let (avatar_url, avatar_display) = account_avatar_bootstrap(avatar_url, stored_display, scope);
    if !identity.admin && !identity.username.as_str().is_empty() {
        let dashboards = member_dashboards(allowed_plugins, match active {
            Some(p) => Some(&p.manifest),
            None => None,
        });
        let persona = match active {
            Some(p) => BootstrapPersona {
                slug: Some(p.slug.clone()),
                name: p.name.clone(),
                private: true,
                dashboards: Some(dashboards),
            },
            None => BootstrapPersona {
                slug: None,
                name: SHARED_PERSONA_NAME.to_owned(),
                private: false,
                dashboards: Some(dashboards),
            },
        };
        AccountBootstrap {
            identity: ident,
            avatar_url,
            avatar_display,
            oobe_pending: !oobe_done,
            persona,
            setup_pending: None,
            setup_username: None,
        }
    } else {
        let pending = identity.account_id.as_str().is_empty() && match has_admin_account {
            Some(b) => !b,
            None => false,
        };
        AccountBootstrap {
            identity: ident,
            avatar_url,
            avatar_display,
            oobe_pending: false,
            persona: BootstrapPersona {
                slug: None,
                name: SHARED_PERSONA_NAME.to_owned(),
                private: false,
                dashboards: None,
            },
            setup_pending: Some(pending),
            setup_username: if pending {
                Some(setup_username.to_owned())
            } else {
                None
            },
        }
    }
}

/// What a switch of a member's persona does to their sessions: the empty
/// sessions (no turns, not the reserved `dev` persona) on another persona
/// move to the new one, and a fresh session is made when none ends up on
/// it.
pub struct RetargetPlan {
    /// The sessions to move to the new persona, in listing order.
    pub retarget: Vec<String>,
    /// Whether an empty session already is on the new persona.
    pub on_scope: bool,
}

/// Whether a session is an empty one that a persona switch may move.
pub open spec fn movable(o: SessionOverview) -> bool {
    o.turn_count == 0 && o.record.persona@ != DEV_PERSONA@
}

/// The sessions a persona switch moves to `scope`, in order.
pub open spec fn retarget_ids(sessions: Seq<SessionOverview>, scope: Seq<char>) -> Seq<Seq<char>>
    decreases sessions.len(),
{
    if sessions.len() == 0 {
        seq![]
    } else {
        let before = retarget_ids(sessions.drop_last(), scope);
        let o = sessions.last();
        if movable(o) && o.record.persona@ != scope {
            before.push(o.record.session_id@)
        } else {
            before
        }
    }
}

/// The plan of a member's persona switch to `scope` over their sessions;
/// nothing for an identity without an owner key.
pub fn retarget_member_sessions(identity: &WebIdentity, sessions: &Vec<SessionOverview>, scope: &str) -> (r: RetargetPlan)
    ensures
        identity.owner_key@.len() == 0 ==> r.retarget@.len() == 0 && r.on_scope,
        identity.owner_key@.len() > 0 ==> string_views(r.retarget@) == retarget_ids(sessions@, scope@) && r.on_scope
            == exists|k: int| 0 <= k < sessions@.len() && movable(#[trigger] sessions@[k]) && sessions@[k].record.persona@ == scope@,
{
    if identity.owner_key.as_str().is_empty() {
        return RetargetPlan { retarget: Vec::new(), on_scope: true };
    }
    let mut retarget: Vec<String> = Vec::new();
    let mut on_scope = false;
    let mut i: usize = 0;
    while i < sessions.len()
        invariant
            i <= sessions.len(),
            string_views(retarget@) == retarget_ids(sessions@.take(i as int), scope@),
            on_scope == exists|k: int| 0 <= k < i && movable(#[trigger] sessions@[k]) && sessions@[k].record.persona@ == scope@,
        decreases sessions.len() - i,
    {
        let ghost t = sessions@.take(i + 1);
        assert(t.drop_last() =~= sessions@.take(i as int));
        assert(t.last() == sessions@[i as int]);
        let o = &sessions[i];
        if o.turn_count == 0 && !str_eq(o.record.persona.as_str(), DEV_PERSONA) {
            if str_eq(o.record.persona.as_str(), scope) {
                on_scope = true;
                assert(movable(sessions@[i as int]) && sessions@[i as int].record.persona@ == scope@);
            } else {
                let ghost before = string_views(retarget@);
                retarget.push(o.record.session_id.clone());
                assert(string_views(retarget@) =~= before.push(o.record.session_id@));
            }
        }
        i += 1;
    }
    assert(sessions@.take(sessions.len() as int) =~= sessions@);
    RetargetPlan { retarget, on_scope }
}

/// Whether a new session on the persona is needed after the moves of a
/// plan: when no empty session was already on it and no move succeeded
/// (`moved` holds, for each move, whether it succeeded).
pub fn needs_new_session(plan: &RetargetPlan, moved: &Vec<bool>) -> (r: bool)
    ensures
        r == (!plan.on_scope && forall|k: int| 0 <= k < moved@.len() ==> !#[trigger] moved@[k]),
{
    if plan.on_scope {
        return false;
    }
    let mut k: usize = 0;
    while k < moved.len()
        invariant
            k <= moved.len(),
            forall|j: int| 0 <= j < k ==> !#[trigger] moved@[j],
        decreases moved.len() - k,
    {
        if moved[k] {
            return false;
        }
        k += 1;
    }
    true
}

/// Three random bytes from the operating system's generator, through
/// `rand::rngs::OsRng::try_fill_bytes`; `None` when the generator fails.
/// Trusted, with no claim on the bytes nor on when the generator fails.
#[verifier::external_body]
fn random_bytes() -> (r: Option<[u8; 3]>) {
    let mut bytes = [0u8; 3];
    match rand::TryRngCore::try_fill_bytes(&mut rand::rngs::OsRng, &mut bytes) {
        Ok(()) => Some(bytes),
        Err(_) => None,
    }
}

/// Encodes bytes with `hex::encode`. Trusted: the crate documents the result
/// as the bytes in lowercase hexadecimal, two digits a byte, which is
/// [`lower_hex`](crate::persona_assets::lower_hex).
#[verifier::external_body]
fn hex_encode(bytes: &[u8]) -> (r: String)
    ensures
        r@ == crate::persona_assets::lower_hex(bytes@),
{
    hex::encode(bytes)
}

/// The id of a private persona made from three bytes: `p` and the bytes in
/// lowercase hexadecimal.
pub fn slug_from(bytes: [u8; 3]) -> (r: String)
    ensures
        r@ == seq!['p'] + crate::persona_assets::lower_hex(bytes@),
{
    let mut v: Vec<char> = Vec::new();
    v.push('p');
    let hex = hex_encode(&bytes);
    extend_str(&mut v, hex.as_str());
    string_of(&v)
}

/// A fresh private persona id: `p` and three random bytes in lowercase
/// hexadecimal; `None` when the system's random generator fails.
pub fn random_slug() -> (r: Option<String>)
    ensures
        r matches Some(s) ==> exists|b: Seq<u8>| b.len() == 3 && s@ == seq!['p'] + crate::persona_assets::lower_hex(b),
{
    match random_bytes() {
        Some(bytes) => {
            let r = slug_from(bytes);
            assert(bytes@.len() == 3);
            Some(r)
        },
        None => None,
    }
}


/// The id of a private persona being created: the one the request names,
/// trimmed, when it names one; else a fresh random id, or 500 when the
/// system's random generator fails.
pub fn new_persona_slug(requested: &Option<String>) -> (r: Result<String, ApiError>)
    ensures
        requested matches Some(q) && trim_seq(q@).len() > 0 ==> (r matches Ok(s) && s@ == trim_seq(
            requested.unwrap()@,
        )),
        !(requested matches Some(q) && trim_seq(q@).len() > 0) ==> match r {
            Ok(s) => exists|b: Seq<u8>| b.len() == 3 && s@ == seq!['p'] + crate::persona_assets::lower_hex(b),
            Err(e) => api_error_is(e, INTERNAL, "could not generate a persona id"@),
        },
{
    if let Some(q) = requested {
        let t = crate::text::trimmed(q.as_str());
        if t.len() > 0 {
            return Ok(string_of(&t));
        }
    }
    match random_slug() {
        Some(s) => Ok(s),
        None => Err(ApiError::new(INTERNAL, "could not generate a persona id")),
    }
}

/// Creating a private persona is refused when the admin turned member
/// personas off, and when the member already has a persona with that id.
pub fn check_persona_create(member_personas: bool, exists: bool) -> (r: Result<(), ApiError>)
    ensures
        !member_personas ==> (r matches Err(e) && api_error_is(e, FORBIDDEN, "the admin has turned off member personas"@)),
        member_personas && exists ==> (r matches Err(e) && api_error_is(e, CONFLICT, "a persona with this id already exists"@)),
        member_personas && !exists ==> r is Ok,
{
    if !member_personas {
        return Err(ApiError::new(FORBIDDEN, "the admin has turned off member personas"));
    }
    if exists {
        return Err(ApiError::new(CONFLICT, "a persona with this id already exists"));
    }
    Ok(())
}

} // verus!
