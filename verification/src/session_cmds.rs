//! The checks of the session commands shared by the terminal and the WebUI:
//! which session a WebUI request may touch, which kinds of session a client
//! may create, which sessions may be renamed or deleted, how a batch reorder
//! is split by owner, and which turn tools the tool bridge adds.
use crate::api::{api_error_is, ApiError, BAD_REQUEST, NOT_FOUND};
use crate::goal::{decimal, decimal_string};
use crate::sessions::{AgentMode, SessionRecord, DEV_PERSONA, USER_SESSION_KIND};
use crate::text::{chars_of, extend_chars, extend_str, str_eq, string_of, string_views, trim_chars, trim_seq};
use vstd::prelude::*;

verus! {

/// The kind of one-shot `ask` sessions.
pub const ASK_SESSION_KIND: &'static str = "ask";

/// A session command's failure message as a `400`.
pub fn session_api_error(message: String) -> (e: ApiError)
    ensures
        e.status == BAD_REQUEST,
        e.message == message,
{
    ApiError { status: BAD_REQUEST, message }
}

/// Whether a WebUI user may touch a session: a user session (not a platform
/// one) that they own, on the active persona, the dev persona, or (for a
/// member) any of their own personas.
pub open spec fn web_session_allowed(
    record: SessionRecord,
    is_platform: bool,
    owner_key: Seq<char>,
    active_scope: Seq<char>,
) -> bool {
    &&& !is_platform
    &&& record.kind@ == USER_SESSION_KIND@
    &&& record.owner@ == owner_key
    &&& (record.persona@ == active_scope || record.persona@ == DEV_PERSONA@ || record.owner@.len() > 0)
}

/// The session a WebUI request names, or `404 session not found` (also for
/// sessions of others: their existence is not disclosed).
pub fn require_local_web_session(
    record: Option<SessionRecord>,
    is_platform: bool,
    owner_key: &str,
    active_scope: &str,
) -> (r: Result<SessionRecord, ApiError>)
    ensures
        match r {
            Ok(rec) => record == Some(rec) && web_session_allowed(rec, is_platform, owner_key@, active_scope@),
            Err(e) => api_error_is(e, NOT_FOUND, "session not found"@) && match record {
                Some(rec) => !web_session_allowed(rec, is_platform, owner_key@, active_scope@),
                None => true,
            },
        },
{
    match record {
        Some(rec) => {
            let ok = !is_platform && str_eq(rec.kind.as_str(), USER_SESSION_KIND) && str_eq(
                rec.owner.as_str(),
                owner_key,
            ) && (str_eq(rec.persona.as_str(), active_scope) || str_eq(
                rec.persona.as_str(),
                DEV_PERSONA,
            ) || !rec.owner.as_str().is_empty());
            if ok {
                Ok(rec)
            } else {
                Err(ApiError::new(NOT_FOUND, "session not found"))
            }
        },
        None => Err(ApiError::new(NOT_FOUND, "session not found")),
    }
}

/// How the global current session is repaired before a local agent is
/// built: kept when it is an available local session, else moved to the
/// first local session, else to a new one.
pub enum CurrentRepair {
    Keep,
    SwitchTo(String),
    CreateAndSwitch,
}

pub fn ensure_local_current_session(current_available: bool, first_local: Option<&str>) -> (r: CurrentRepair)
    ensures
        current_available ==> r is Keep,
        !current_available ==> match first_local {
            Some(f) => r matches CurrentRepair::SwitchTo(id) && id@ == f@,
            None => r is CreateAndSwitch,
        },
{
    if current_available {
        return CurrentRepair::Keep;
    }
    match first_local {
        Some(f) => CurrentRepair::SwitchTo(f.to_owned()),
        None => CurrentRepair::CreateAndSwitch,
    }
}

/// The kind a client may create a session of: an ordinary session by
/// default, a one-shot `ask` session only when it is not switched to;
/// anything else is refused (`None`).
pub open spec fn created_kind(kind: Option<Seq<char>>, switch: bool) -> Option<Seq<char>> {
    match kind {
        None => Some(USER_SESSION_KIND@),
        Some(k) => if k == USER_SESSION_KIND@ {
            Some(USER_SESSION_KIND@)
        } else if k == ASK_SESSION_KIND@ && !switch {
            Some(ASK_SESSION_KIND@)
        } else {
            None
        },
    }
}

pub fn create_session_kind(kind: Option<&str>, switch: bool) -> (r: Option<&'static str>)
    ensures
        match r {
            Some(k) => created_kind(
                match kind {
                    Some(s) => Some(s@),
                    None => None,
                },
                switch,
            ) == Some(k@),
            None => created_kind(
                match kind {
                    Some(s) => Some(s@),
                    None => None,
                },
                switch,
            ) is None,
        },
{
    match kind {
        None => Some(USER_SESSION_KIND),
        Some(k) => if str_eq(k, USER_SESSION_KIND) {
            Some(USER_SESSION_KIND)
        } else if str_eq(k, ASK_SESSION_KIND) && !switch {
            Some(ASK_SESSION_KIND)
        } else {
            None
        },
    }
}

/// The persona a new session goes on: the reserved dev persona for Build
/// mode, else the active persona.
pub fn created_session_persona(mode: Option<&str>, active_scope: &str) -> (r: String)
    ensures
        r@ == match mode {
            Some(m) => if m@ == "dev"@ {
                DEV_PERSONA@
            } else {
                active_scope@
            },
            None => active_scope@,
        },
{
    match mode {
        Some(m) => if str_eq(m, "dev") {
            DEV_PERSONA.to_owned()
        } else {
            active_scope.to_owned()
        },
        None => active_scope.to_owned(),
    }
}

/// Why a rename is refused.
pub enum RenameRefusal {
    /// The terminal-integration session keeps its name.
    DefaultSession,
    /// The new name is empty once trimmed.
    EmptyName,
}

/// The trimmed new name of a session, unless the session is the terminal
/// integration one or the name is blank.
pub fn check_rename(session_id: &str, default_session_id: &str, name: &str) -> (r: Result<String, RenameRefusal>)
    ensures
        match r {
            Ok(n) => session_id@ != default_session_id@ && trim_seq(name@).len() > 0 && n@ == trim_seq(name@),
            Err(RenameRefusal::DefaultSession) => session_id@ == default_session_id@,
            Err(RenameRefusal::EmptyName) => session_id@ != default_session_id@ && trim_seq(name@).len() == 0,
        },
{
    if str_eq(session_id, default_session_id) {
        return Err(RenameRefusal::DefaultSession);
    }
    let t = trim_chars(&chars_of(name));
    if t.len() == 0 {
        return Err(RenameRefusal::EmptyName);
    }
    Ok(string_of(&t))
}

/// The terminal-integration session can never be deleted.
pub fn may_delete_session(session_id: &str, default_session_id: &str) -> (r: bool)
    ensures
        r == (session_id@ != default_session_id@),
{
    !str_eq(session_id, default_session_id)
}

/// The error of a tool-bridge call nested too deep.
pub open spec fn depth_refusal(depth: u32) -> Seq<char> {
    "tool bridge recursion limit reached (depth "@ + decimal(depth as nat) + ")"@
}

/// A bridged tool call may not nest `max_depth` deep.
pub fn check_bridge_depth(depth: u32, max_depth: u32) -> (r: Result<(), String>)
    ensures
        match r {
            Ok(_) => depth < max_depth,
            Err(m) => depth >= max_depth && m@ == depth_refusal(depth),
        },
{
    if depth >= max_depth {
        let mut v = chars_of("tool bridge recursion limit reached (depth ");
        extend_chars(&mut v, &decimal_string(depth as u64));
        extend_str(&mut v, ")");
        return Err(string_of(&v));
    }
    Ok(())
}

/// The ids grouped by owner, owners in the order they first appear and each
/// group in request order. `owners[i]` is the owner of `ids[i]`.
pub open spec fn groups_of(ids: Seq<Seq<char>>, owners: Seq<Seq<char>>) -> Seq<(Seq<char>, Seq<Seq<char>>)>
    decreases ids.len(),
{
    if ids.len() == 0 {
        Seq::empty()
    } else {
        let g = groups_of(ids.drop_last(), owners);
        let o = owners[ids.len() - 1];
        let k = group_index(g, o);
        if k < 0 {
            g.push((o, seq![ids.last()]))
        } else {
            g.update(k, (o, g[k].1.push(ids.last())))
        }
    }
}

/// The position of an owner's group, or -1.
pub open spec fn group_index(g: Seq<(Seq<char>, Seq<Seq<char>>)>, owner: Seq<char>) -> int
    decreases g.len(),
{
    if g.len() == 0 {
        -1
    } else if g.last().0 == owner {
        g.len() - 1
    } else {
        group_index(g.drop_last(), owner)
    }
}

proof fn lemma_group_index(g: Seq<(Seq<char>, Seq<Seq<char>>)>, owner: Seq<char>)
    ensures
        -1 <= group_index(g, owner) < g.len(),
        group_index(g, owner) >= 0 ==> g[group_index(g, owner)].0 == owner,
        group_index(g, owner) < 0 ==> forall|k: int| 0 <= k < g.len() ==> g[k].0 != owner,
    decreases g.len(),
{
    if g.len() > 0 && g.last().0 != owner {
        let t = g.drop_last();
        lemma_group_index(t, owner);
        assert forall|k: int| 0 <= k < t.len() implies t[k] == g[k] by {}
    }
}

pub open spec fn group_views(v: Seq<(String, Vec<String>)>) -> Seq<(Seq<char>, Seq<Seq<char>>)> {
    v.map_values(|e: (String, Vec<String>)| (e.0@, string_views(e.1@)))
}

fn group_position(groups: &Vec<(String, Vec<String>)>, owner: &str) -> (r: Option<usize>)
    ensures
        match r {
            Some(i) => group_index(group_views(groups@), owner@) == i && i < groups.len(),
            None => group_index(group_views(groups@), owner@) < 0,
        },
{
    let ghost s = group_views(groups@);
    proof {
        lemma_group_index(s, owner@);
    }
    let mut j: usize = groups.len();
    assert(s.take(j as int) =~= s);
    while j > 0
        invariant
            j <= groups.len(),
            s == group_views(groups@),
            s.len() == groups.len(),
            group_index(s, owner@) == group_index(s.take(j as int), owner@),
        decreases j,
    {
        assert(s.take(j as int).drop_last() =~= s.take(j - 1));
        assert(s[j - 1].0 == groups@[j - 1].0@);
        if str_eq(groups[j - 1].0.as_str(), owner) {
            return Some(j - 1);
        }
        j -= 1;
    }
    None
}

/// Splits a reorder request by the store each session lives in.
#[verifier::loop_isolation(false)]
pub fn group_session_ids_by_owner(ids: &Vec<String>, owners: &Vec<String>) -> (r: Vec<(String, Vec<String>)>)
    requires
        owners@.len() == ids@.len(),
    ensures
        group_views(r@) == groups_of(string_views(ids@), string_views(owners@)),
{
    let ghost iv = string_views(ids@);
    let ghost ov = string_views(owners@);
    let mut groups: Vec<(String, Vec<String>)> = Vec::new();
    let mut i: usize = 0;
    assert(group_views(groups@) =~= groups_of(iv.take(0), ov));
    while i < ids.len()
        invariant
            i <= ids.len(),
            group_views(groups@) == groups_of(iv.take(i as int), ov),
        decreases ids.len() - i,
    {
        let ghost g = group_views(groups@);
        let ghost t = iv.take(i + 1);
        assert(t.drop_last() =~= iv.take(i as int));
        assert(t.last() == ids@[i as int]@);
        assert(ov[i as int] == owners@[i as int]@);
        proof {
            lemma_group_index(g, ov[i as int]);
        }
        match group_position(&groups, owners[i].as_str()) {
            Some(k) => {
                let ghost before = groups@;
                let mut entry = groups.remove(k);
                let ghost old_members = string_views(entry.1@);
                let id = ids[i].clone();
                entry.1.push(id);
                assert(string_views(entry.1@) =~= old_members.push(ids@[i as int]@));
                groups.insert(k, entry);
                assert(groups@ =~= before.update(k as int, entry));
                assert(group_views(groups@) =~= g.update(k as int, (ov[i as int], g[k as int].1.push(t.last()))));
            },
            None => {
                let members = vec![ids[i].clone()];
                assert(string_views(members@) =~= seq![ids@[i as int]@]);
                groups.push((owners[i].clone(), members));
                assert(group_views(groups@) =~= g.push((ov[i as int], seq![t.last()])));
            },
        }
        i += 1;
    }
    assert(iv.take(ids.len() as int) =~= iv);
    groups
}

/// The first requested model that is not among the configured choices, as
/// (provider, model); `None` when all are.
pub open spec fn first_unknown_model(requested: Seq<(Seq<char>, Seq<char>)>, choices: Seq<(Seq<char>, Seq<char>)>) -> Option<(Seq<char>, Seq<char>)>
    decreases requested.len(),
{
    if requested.len() == 0 {
        None
    } else if !choices.contains(requested[0]) {
        Some(requested[0])
    } else {
        first_unknown_model(requested.drop_first(), choices)
    }
}

pub fn find_unknown_model(requested: &Vec<(String, String)>, choices: &Vec<(String, String)>) -> (r: Option<(String, String)>)
    ensures
        match r {
            Some((p, m)) => first_unknown_model(crate::dto::pair_views(requested@), crate::dto::pair_views(choices@))
                == Some((p@, m@)),
            None => first_unknown_model(crate::dto::pair_views(requested@), crate::dto::pair_views(choices@)) is None,
        },
{
    let ghost rq = crate::dto::pair_views(requested@);
    let ghost ch = crate::dto::pair_views(choices@);
    let mut i: usize = 0;
    assert(rq.skip(0) =~= rq);
    while i < requested.len()
        invariant
            i <= requested.len(),
            rq == crate::dto::pair_views(requested@),
            ch == crate::dto::pair_views(choices@),
            first_unknown_model(rq, ch) == first_unknown_model(rq.skip(i as int), ch),
        decreases requested.len() - i,
    {
        assert(rq.skip(i as int)[0] == rq[i as int]);
        assert(rq[i as int] == (requested@[i as int].0@, requested@[i as int].1@));
        assert(rq.skip(i as int).drop_first() =~= rq.skip(i + 1));
        if !crate::dto::pair_listed_pub(choices, requested[i].0.as_str(), requested[i].1.as_str()) {
            return Some((requested[i].0.clone(), requested[i].1.clone()));
        }
        i += 1;
    }
    None
}

/// The turn tools the tool bridge adds to a session's registry.
pub enum OwnerTools {
    /// Tools are off.
    Nothing,
    /// The platform turn running in the session: its scoped platform tools.
    Platform,
    /// `ask_question`, with the WebUI's artifact, share and letter tools when
    /// the session is running a WebUI turn of this machine in Normal mode.
    Local { webui: bool },
}

pub fn attach_owner_turn_tools(tools_enabled: bool, platform_turn_live: bool, mode: AgentMode, running_local_webui: bool) -> (r: OwnerTools)
    ensures
        !tools_enabled ==> (r is Nothing),
        tools_enabled && platform_turn_live ==> (r is Platform),
        tools_enabled && !platform_turn_live ==> r == (OwnerTools::Local {
            webui: mode is Normal && running_local_webui,
        }),
{
    if !tools_enabled {
        return OwnerTools::Nothing;
    }
    if platform_turn_live {
        return OwnerTools::Platform;
    }
    OwnerTools::Local { webui: matches!(mode, AgentMode::Normal) && running_local_webui }
}


/// How a session was named by a client.
pub enum SessionTarget {
    /// The current session (the daemon's pointer, or a member's latest).
    Current,
    /// An explicit id: an unguessable capability.
    Id,
    /// A name, looked up among the active persona's sessions.
    Name,
}

/// Whether a looked-up session may be used: it is of one of the accepted
/// kinds and not a platform session; it belongs to the requesting owner
/// when one is given; and it is on the active persona, the reserved `dev`
/// persona, owned by the requesting member, or was named by its id.
pub open spec fn session_acceptable(
    record: SessionRecord,
    target: SessionTarget,
    kinds: Seq<Seq<char>>,
    owner: Option<Seq<char>>,
    active_scope: Seq<char>,
    is_platform: bool,
) -> bool {
    let member_owned = owner matches Some(o) && o.len() > 0 && record.owner@ == o;
    let persona_ok = record.persona@ == active_scope || record.persona@ == DEV_PERSONA@ || target is Id
        || member_owned;
    let owner_ok = match owner {
        Some(o) => record.owner@ == o,
        None => true,
    };
    persona_ok && owner_ok && kinds.contains(record.kind@) && !is_platform
}

fn kind_listed(kinds: &Vec<String>, kind: &str) -> (r: bool)
    ensures
        r == string_views(kinds@).contains(kind@),
{
    let ghost kv = string_views(kinds@);
    let mut i: usize = 0;
    while i < kinds.len()
        invariant
            i <= kinds.len(),
            kv == string_views(kinds@),
            kv.len() == kinds.len(),
            forall|k: int| 0 <= k < i ==> kv[k] != kind@,
        decreases kinds.len() - i,
    {
        assert(kv[i as int] == kinds@[i as int]@);
        if str_eq(kinds[i].as_str(), kind) {
            return true;
        }
        i += 1;
    }
    false
}

/// Whether a looked-up session may be used (see [`session_acceptable`]);
/// a refused one is answered as not found.
pub fn local_session_acceptable(
    record: &SessionRecord,
    target: SessionTarget,
    kinds: &Vec<String>,
    owner: Option<&str>,
    active_scope: &str,
    is_platform: bool,
) -> (r: bool)
    ensures
        r == session_acceptable(
            *record,
            target,
            string_views(kinds@),
            match owner {
                Some(o) => Some(o@),
                None => None,
            },
            active_scope@,
            is_platform,
        ),
{
    let member_owned = match owner {
        Some(o) => !o.is_empty() && str_eq(record.owner.as_str(), o),
        None => false,
    };
    let persona_ok = str_eq(record.persona.as_str(), active_scope) || str_eq(record.persona.as_str(), DEV_PERSONA)
        || matches!(target, SessionTarget::Id) || member_owned;
    let owner_ok = match owner {
        Some(o) => str_eq(record.owner.as_str(), o),
        None => true,
    };
    persona_ok && owner_ok && kind_listed(kinds, record.kind.as_str()) && !is_platform
}

} // verus!
