//! Sessions as the WebUI lists and picks them: the sidebar order, the current
//! session, the mode of a session, which session a reference may reach, and
//! the titles sessions are named with.
use crate::api::{api_error_is, ApiError, CONFLICT};
use crate::text::{
    chars_of, collapse_whitespace, collapse_ws_seq, first_line, first_line_chars, lex_le,
    lex_le_chars, str_eq, string_of, strip_leading, strip_leading_chars, strip_trailing,
    strip_trailing_chars, take_chars, take_seq, trim_chars, trim_seq,
};
use vstd::prelude::*;

verus! {

/// The reserved persona of Build-mode (dev) sessions.
pub const DEV_PERSONA: &'static str = "dev";

/// The kind of ordinary user sessions.
pub const USER_SESSION_KIND: &'static str = "user";

/// One session row.
pub struct SessionRecord {
    pub session_id: String,
    pub name: String,
    pub kind: String,
    pub persona: String,
    pub owner: String,
    pub sandbox: Option<String>,
    pub created_at: String,
    pub updated_at: String,
    /// The manual sidebar position; smaller first.
    pub sort_key: i64,
}

/// A session row with what the sidebar shows of its conversation.
pub struct SessionOverview {
    pub record: SessionRecord,
    pub turn_count: u64,
    pub last_user_content: Option<String>,
}

/// Whether `a` may stand before `b` in the sidebar: smaller manual position
/// first, and at equal positions the more recently updated first.
pub open spec fn row_le(a: SessionOverview, b: SessionOverview) -> bool {
    a.record.sort_key < b.record.sort_key || (a.record.sort_key == b.record.sort_key && lex_le(
        b.record.updated_at@,
        a.record.updated_at@,
    ))
}

/// Where a stable insertion puts `x`: after every leading row that may stand
/// before it.
pub open spec fn insert_pos(t: Seq<SessionOverview>, x: SessionOverview) -> int
    decreases t.len(),
{
    if t.len() == 0 {
        0
    } else if !row_le(t[0], x) {
        0
    } else {
        1 + insert_pos(t.drop_first(), x)
    }
}

/// The rows in sidebar order, as a stable sort by [`row_le`] leaves them.
pub open spec fn sidebar_order(s: Seq<SessionOverview>) -> Seq<SessionOverview>
    decreases s.len(),
{
    if s.len() == 0 {
        s
    } else {
        let t = sidebar_order(s.drop_last());
        t.insert(insert_pos(t, s.last()), s.last())
    }
}

proof fn lemma_insert_pos(t: Seq<SessionOverview>, x: SessionOverview)
    ensures
        0 <= insert_pos(t, x) <= t.len(),
        forall|k: int| 0 <= k < insert_pos(t, x) ==> row_le(#[trigger] t[k], x),
        insert_pos(t, x) < t.len() ==> !row_le(t[insert_pos(t, x)], x),
    decreases t.len(),
{
    if t.len() > 0 && row_le(t[0], x) {
        let u = t.drop_first();
        lemma_insert_pos(u, x);
        assert forall|k: int| 0 <= k < insert_pos(t, x) implies row_le(#[trigger] t[k], x) by {
            if k > 0 {
                assert(t[k] == u[k - 1]);
            }
        }
    }
}

proof fn lemma_row_total(a: SessionOverview, b: SessionOverview)
    ensures
        row_le(a, b) || row_le(b, a),
{
    crate::text::lemma_lex_total(a.record.updated_at@, b.record.updated_at@);
}

proof fn lemma_row_trans(a: SessionOverview, b: SessionOverview, c: SessionOverview)
    requires
        row_le(a, b),
        row_le(b, c),
    ensures
        row_le(a, c),
{
    if a.record.sort_key == b.record.sort_key && b.record.sort_key == c.record.sort_key {
        crate::text::lemma_lex_trans(c.record.updated_at@, b.record.updated_at@, a.record.updated_at@);
    }
}

/// Every row of the sidebar order may stand before every later one, and the
/// order holds exactly the rows it was given.
pub proof fn law_sidebar_order_sorted(s: Seq<SessionOverview>)
    ensures
        forall|i: int, j: int|
            0 <= i < j < sidebar_order(s).len() ==> row_le(
                #[trigger] sidebar_order(s)[i],
                #[trigger] sidebar_order(s)[j],
            ),
        sidebar_order(s).to_multiset() == s.to_multiset(),
    decreases s.len(),
{
    broadcast use vstd::seq_lib::to_multiset_insert;
    if s.len() > 0 {
        let t = sidebar_order(s.drop_last());
        let x = s.last();
        law_sidebar_order_sorted(s.drop_last());
        lemma_insert_pos(t, x);
        let j = insert_pos(t, x);
        let after = t.insert(j, x);
        assert(after == sidebar_order(s));
        if j < t.len() {
            lemma_row_total(t[j], x);
        }
        assert forall|p: int, q: int| 0 <= p < q < after.len() implies row_le(
            #[trigger] after[p],
            #[trigger] after[q],
        ) by {
            if q < j {
                assert(after[p] == t[p] && after[q] == t[q]);
            } else if q == j {
                assert(after[p] == t[p]);
            } else if p < j {
                assert(after[p] == t[p] && after[q] == t[q - 1]);
                if j == q - 1 {
                    lemma_row_trans(t[p], x, t[j]);
                } else {
                    lemma_row_trans(t[p], x, t[j]);
                    lemma_row_trans(t[p], t[j], t[q - 1]);
                }
            } else if p == j {
                assert(after[q] == t[q - 1]);
                if j != q - 1 {
                    lemma_row_trans(x, t[j], t[q - 1]);
                }
            } else {
                assert(after[p] == t[p - 1] && after[q] == t[q - 1]);
            }
        }
        vstd::seq_lib::to_multiset_insert(t, j, x);
        assert(s =~= s.drop_last().push(x));
        vstd::seq_lib::to_multiset_build(s.drop_last(), x);
    }
}

fn row_le_exec(a: &SessionOverview, b: &SessionOverview) -> (r: bool)
    ensures
        r == row_le(*a, *b),
{
    a.record.sort_key < b.record.sort_key || (a.record.sort_key == b.record.sort_key
        && lex_le_chars(
        &chars_of(b.record.updated_at.as_str()),
        &chars_of(a.record.updated_at.as_str()),
    ))
}

/// The normal and dev sessions of the sidebar, in sidebar order: the rows
/// are the store's listing (the persona's local sessions and the dev ones
/// for the admin, all of a member's own), sorted stably by manual position
/// and then most recent update first.
pub fn sessions_with_dev(rows: Vec<SessionOverview>) -> (out: Vec<SessionOverview>)
    ensures
        out@ == sidebar_order(rows@),
{
    let ghost input = rows@;
    let mut rest = rows;
    let mut out: Vec<SessionOverview> = Vec::new();
    let mut i: usize = 0;
    let n = rest.len();
    assert(input.take(0) =~= Seq::<SessionOverview>::empty());
    while rest.len() > 0
        invariant
            i + rest.len() == n,
            n == input.len(),
            rest@ == input.skip(i as int),
            out@ == sidebar_order(input.take(i as int)),
        decreases rest.len(),
    {
        let x = rest.remove(0);
        assert(x == input[i as int]);
        let ghost t = out@;
        let mut j: usize = 0;
        assert(t.skip(0) =~= t);
        while j < out.len() && row_le_exec(&out[j], &x)
            invariant
                j <= out.len(),
                out@ == t,
                forall|k: int| 0 <= k < j ==> row_le(#[trigger] t[k], x),
                insert_pos(t, x) == j + insert_pos(t.skip(j as int), x),
            decreases out.len() - j,
        {
            assert(t.skip(j as int)[0] == t[j as int]);
            assert(t.skip(j as int).drop_first() =~= t.skip(j + 1));
            j += 1;
        }
        proof {
            if j < out.len() {
                assert(t.skip(j as int)[0] == t[j as int]);
            }
            assert(input.take(i + 1).drop_last() =~= input.take(i as int));
            assert(input.take(i + 1).last() == x);
        }
        out.insert(j, x);
        assert(input.skip(i + 1) =~= input.skip(i as int).drop_first());
        i += 1;
    }
    assert(input.take(n as int) =~= input);
    out
}

/// The index of the last row with the greatest `updated_at` (what
/// `max_by_key` picks among equals).
pub open spec fn latest_index(s: Seq<SessionOverview>) -> int
    decreases s.len(),
{
    if s.len() <= 1 {
        0
    } else {
        let i = latest_index(s.drop_last());
        if lex_le(s[i].record.updated_at@, s.last().record.updated_at@) {
            s.len() - 1
        } else {
            i
        }
    }
}

proof fn lemma_latest_index(s: Seq<SessionOverview>)
    requires
        s.len() > 0,
    ensures
        0 <= latest_index(s) < s.len(),
    decreases s.len(),
{
    if s.len() > 1 {
        lemma_latest_index(s.drop_last());
    }
}

/// The id of the most recently updated session, if any.
pub open spec fn latest_session(s: Seq<SessionOverview>) -> Option<Seq<char>> {
    if s.len() == 0 {
        None
    } else {
        Some(s[latest_index(s)].record.session_id@)
    }
}

fn latest_position(sessions: &[SessionOverview]) -> (r: Option<usize>)
    ensures
        match r {
            Some(i) => sessions@.len() > 0 && i == latest_index(sessions@) && i < sessions@.len(),
            None => sessions@.len() == 0,
        },
{
    if sessions.len() == 0 {
        return None;
    }
    let mut best: usize = 0;
    let mut k: usize = 1;
    while k < sessions.len()
        invariant
            1 <= k <= sessions.len(),
            best < k,
            best == latest_index(sessions@.take(k as int)),
        decreases sessions.len() - k,
    {
        let ghost t = sessions@.take(k + 1);
        assert(t.drop_last() =~= sessions@.take(k as int));
        assert(t[best as int] == sessions@[best as int]);
        assert(t.last() == sessions@[k as int]);
        if lex_le_chars(
            &chars_of(sessions[best].record.updated_at.as_str()),
            &chars_of(sessions[k].record.updated_at.as_str()),
        ) {
            best = k;
        }
        k += 1;
    }
    assert(sessions@.take(sessions.len() as int) =~= sessions@);
    Some(best)
}

/// The member's current session: the most recently updated of their
/// sessions; `None` when they have none (one is then created).
pub fn member_current_session(sessions: &[SessionOverview]) -> (r: Option<String>)
    ensures
        match r {
            Some(id) => latest_session(sessions@) == Some(id@),
            None => latest_session(sessions@) is None,
        },
{
    match latest_position(sessions) {
        Some(i) => Some(sessions[i].record.session_id.clone()),
        None => None,
    }
}

/// The current session of a user: the daemon's global pointer for an admin;
/// for a member the most recently updated of the listed sessions, or empty.
pub open spec fn current_session_of(admin: bool, global: Seq<char>, s: Seq<SessionOverview>) -> Seq<char> {
    if admin {
        global
    } else {
        match latest_session(s) {
            Some(id) => id,
            None => Seq::empty(),
        }
    }
}

pub fn current_session_for(admin: bool, global_session: &str, sessions: &[SessionOverview]) -> (r: String)
    ensures
        r@ == current_session_of(admin, global_session@, sessions@),
{
    if admin {
        return global_session.to_owned();
    }
    match member_current_session(sessions) {
        Some(id) => id,
        None => String::new(),
    }
}

/// The persona a member's new session is put on: the scope of their active
/// private persona, else the global persona.
pub fn member_session_persona(private_scope: Option<&str>, global_scope: &str) -> (r: String)
    ensures
        r@ == match private_scope {
            Some(s) => s@,
            None => global_scope@,
        },
{
    match private_scope {
        Some(s) => s.to_owned(),
        None => global_scope.to_owned(),
    }
}

/// A session's mode follows its persona, fixed at creation.
pub open spec fn mode_label_of(persona: Seq<char>) -> Seq<char> {
    if persona == DEV_PERSONA@ {
        "dev"@
    } else {
        "normal"@
    }
}

pub fn session_mode_label(record: &SessionRecord) -> (r: &'static str)
    ensures
        r@ == mode_label_of(record.persona@),
{
    if str_eq(record.persona.as_str(), DEV_PERSONA) {
        "dev"
    } else {
        "normal"
    }
}

/// The session object the WebUI gets.
pub struct SessionJson {
    pub session_id: String,
    pub name: String,
    pub kind: String,
    pub sandbox: Option<String>,
    pub created_at: String,
    pub updated_at: String,
    pub mode: &'static str,
}

pub fn session_record_json(record: &SessionRecord) -> (r: SessionJson)
    ensures
        r.session_id@ == record.session_id@,
        r.name@ == record.name@,
        r.kind@ == record.kind@,
        r.sandbox == record.sandbox,
        r.created_at@ == record.created_at@,
        r.updated_at@ == record.updated_at@,
        r.mode@ == mode_label_of(record.persona@),
{
    SessionJson {
        session_id: record.session_id.clone(),
        name: record.name.clone(),
        kind: record.kind.clone(),
        sandbox: record.sandbox.clone(),
        created_at: record.created_at.clone(),
        updated_at: record.updated_at.clone(),
        mode: session_mode_label(record),
    }
}

/// A sidebar entry: the session object, its turn count, the last user
/// message and whether it is the current session.
pub struct SessionOverviewJson {
    pub session: SessionJson,
    pub turn_count: u64,
    pub last_user_content: Option<String>,
    pub is_current: bool,
}

pub fn session_overview_json(overview: &SessionOverview, current: &str) -> (r: SessionOverviewJson)
    ensures
        r.session.session_id@ == overview.record.session_id@,
        r.session.name@ == overview.record.name@,
        r.session.kind@ == overview.record.kind@,
        r.session.sandbox == overview.record.sandbox,
        r.session.created_at@ == overview.record.created_at@,
        r.session.updated_at@ == overview.record.updated_at@,
        r.session.mode@ == mode_label_of(overview.record.persona@),
        r.turn_count == overview.turn_count,
        r.last_user_content == overview.last_user_content,
        r.is_current == (overview.record.session_id@ == current@),
{
    SessionOverviewJson {
        session: session_record_json(&overview.record),
        turn_count: overview.turn_count,
        last_user_content: overview.last_user_content.clone(),
        is_current: str_eq(overview.record.session_id.as_str(), current),
    }
}

/// The event announcing a new session.
pub struct SessionCreated {
    pub session_id: String,
    pub name: String,
    pub mode: &'static str,
}

pub fn publish_session_created(record: &SessionRecord) -> (r: SessionCreated)
    ensures
        r.session_id@ == record.session_id@,
        r.name@ == record.name@,
        r.mode@ == mode_label_of(record.persona@),
{
    SessionCreated {
        session_id: record.session_id.clone(),
        name: record.name.clone(),
        mode: session_mode_label(record),
    }
}

/// The two modes a turn runs in.
pub enum AgentMode {
    Normal,
    Dev,
}

/// A turn runs in Dev mode exactly in a dev-persona session, whatever the
/// client asked for. `persona` is the session's persona, `None` when the
/// session could not be read.
pub fn turn_mode_for_session(persona: Option<&str>, requested: AgentMode) -> (r: AgentMode)
    ensures
        r == match persona {
            Some(p) => if p@ == DEV_PERSONA@ {
                AgentMode::Dev
            } else {
                AgentMode::Normal
            },
            None => AgentMode::Normal,
        },
{
    match persona {
        Some(p) => if str_eq(p, DEV_PERSONA) {
            AgentMode::Dev
        } else {
            AgentMode::Normal
        },
        None => AgentMode::Normal,
    }
}

/// The session the global pointer moves to when `exclude` goes away: the
/// first other session of the admin's listing; `None` when there is none (a
/// fresh one is then created).
pub open spec fn fallback_of(ids: Seq<Seq<char>>, exclude: Seq<char>) -> Option<Seq<char>>
    decreases ids.len(),
{
    if ids.len() == 0 {
        None
    } else if ids[0] != exclude {
        Some(ids[0])
    } else {
        fallback_of(ids.drop_first(), exclude)
    }
}

pub open spec fn overview_ids(s: Seq<SessionOverview>) -> Seq<Seq<char>> {
    s.map_values(|o: SessionOverview| o.record.session_id@)
}

pub fn fallback_session_id(sessions: &[SessionOverview], exclude: &str) -> (r: Option<String>)
    ensures
        match r {
            Some(id) => fallback_of(overview_ids(sessions@), exclude@) == Some(id@),
            None => fallback_of(overview_ids(sessions@), exclude@) is None,
        },
{
    let ghost ids = overview_ids(sessions@);
    let mut i: usize = 0;
    assert(ids.skip(0) =~= ids);
    while i < sessions.len()
        invariant
            i <= sessions.len(),
            ids == overview_ids(sessions@),
            fallback_of(ids, exclude@) == fallback_of(ids.skip(i as int), exclude@),
        decreases sessions.len() - i,
    {
        assert(ids.skip(i as int)[0] == sessions@[i as int].record.session_id@);
        assert(ids.skip(i as int).drop_first() =~= ids.skip(i + 1));
        if !str_eq(sessions[i].record.session_id.as_str(), exclude) {
            return Some(sessions[i].record.session_id.clone());
        }
        i += 1;
    }
    None
}

/// Whether deleting `session_id` leaves the sidebar empty, so that a fresh
/// session must be created first: no other visible session than it and the
/// default session remains, and it does exist.
pub open spec fn needs_replacement(ids: Seq<Seq<char>>, session_id: Seq<char>, default_id: Seq<char>, exists: bool) -> bool {
    exists && !(exists|k: int| 0 <= k < ids.len() && #[trigger] ids[k] != session_id && ids[k] != default_id)
}

pub fn replacement_for_last_session(
    sessions: &[SessionOverview],
    session_id: &str,
    default_session_id: &str,
    exists: bool,
) -> (r: bool)
    ensures
        r == needs_replacement(overview_ids(sessions@), session_id@, default_session_id@, exists),
{
    let ghost ids = overview_ids(sessions@);
    let mut i: usize = 0;
    while i < sessions.len()
        invariant
            i <= sessions.len(),
            ids == overview_ids(sessions@),
            forall|k: int| 0 <= k < i ==> !(#[trigger] ids[k] != session_id@ && ids[k] != default_session_id@),
        decreases sessions.len() - i,
    {
        let id = sessions[i].record.session_id.as_str();
        assert(ids[i as int] == id@);
        if !str_eq(id, session_id) && !str_eq(id, default_session_id) {
            return false;
        }
        i += 1;
    }
    exists
}

/// The characters a model-written title may be wrapped in.
pub open spec fn title_trim_set() -> Seq<char> {
    seq!['"', '\'', '“', '”', '‘', '’', '「', '」', '《', '》', '。', '.', '，', ',']
}

/// A model-written title cleaned to one short line: the first line of the
/// trimmed text, trimmed, wrapping quotes and punctuation dropped, runs of
/// whitespace made single spaces, at most 20 characters.
pub open spec fn sanitized_title(raw: Seq<char>) -> Seq<char> {
    let line = trim_seq(first_line(trim_seq(raw)));
    let stripped = strip_trailing(strip_leading(line, title_trim_set()), title_trim_set());
    take_seq(collapse_ws_seq(stripped), 20)
}

pub fn sanitize_session_title(raw: &str) -> (r: String)
    ensures
        r@ == sanitized_title(raw@),
{
    let set = vec!['"', '\'', '“', '”', '‘', '’', '「', '」', '《', '》', '。', '.', '，', ','];
    assert(set@ =~= title_trim_set());
    let t = trim_chars(&chars_of(raw));
    let line = trim_chars(&first_line_chars(&t));
    let a = strip_leading_chars(&line, &set);
    let b = strip_trailing_chars(&a, &set);
    let c = collapse_whitespace(&b);
    string_of(&take_chars(&c, 20))
}

/// What the model is asked for a session's title, given the user's first
/// message.
pub open spec fn title_request(seed: Seq<char>) -> Seq<char> {
    "为下面这条用户消息生成一个简洁的会话标题：不超过 16 个字，概括主题，只输出标题本身，不要引号、句号或解释。\n\n用户消息："@
        + seed
}

pub fn title_request_prompt(seed: &str) -> (r: String)
    ensures
        r@ == title_request(seed@),
{
    let mut v = chars_of("为下面这条用户消息生成一个简洁的会话标题：不超过 16 个字，概括主题，只输出标题本身，不要引号、句号或解释。\n\n用户消息：");
    crate::text::extend_str(&mut v, seed);
    string_of(&v)
}

/// The title a model's reply renames a session to: the reply cleaned, when
/// that leaves a title and the session still has the name it was given
/// automatically. A name the user chose in the meantime is never replaced.
pub open spec fn refined_title_of(reply: Seq<char>, current_name: Seq<char>, automatic: Seq<char>) -> Option<Seq<char>> {
    if sanitized_title(reply).len() == 0 || current_name != automatic {
        None
    } else {
        Some(sanitized_title(reply))
    }
}

pub fn refined_title(reply: &str, current_name: &str, automatic: &str) -> (r: Option<String>)
    ensures
        match r {
            Some(t) => refined_title_of(reply@, current_name@, automatic@) == Some(t@),
            None => refined_title_of(reply@, current_name@, automatic@) is None,
        },
        r is Some ==> current_name@ == automatic@,
{
    let title = sanitize_session_title(reply);
    if title.as_str().unicode_len() == 0 || !str_eq(current_name, automatic) {
        return None;
    }
    Some(title)
}

/// A session's automatic title: the first line of the prompt with its
/// whitespace collapsed, cut to 20 characters, with `…` when it was longer.
pub open spec fn title_of_prompt(prompt: Seq<char>) -> Seq<char> {
    let cleaned = collapse_ws_seq(first_line(trim_seq(prompt)));
    if cleaned.len() > 20 {
        cleaned.take(20).push('…')
    } else {
        cleaned
    }
}

pub fn session_title_from_prompt(prompt: &str) -> (r: String)
    ensures
        r@ == title_of_prompt(prompt@),
{
    let t = trim_chars(&chars_of(prompt));
    let cleaned = collapse_whitespace(&first_line_chars(&t));
    let mut title = take_chars(&cleaned, 20);
    if cleaned.len() > 20 {
        title.push('…');
    }
    string_of(&title)
}

/// The title a still unnamed session gets from its first prompt: none when
/// the session already has a name or the prompt gives an empty title.
pub open spec fn auto_name_of(current_name: Seq<char>, seed: Seq<char>) -> Option<Seq<char>> {
    if trim_seq(current_name).len() > 0 || title_of_prompt(seed).len() == 0 {
        None
    } else {
        Some(title_of_prompt(seed))
    }
}

pub fn maybe_auto_name_session(current_name: &str, seed: &str) -> (r: Option<String>)
    ensures
        match r {
            Some(t) => auto_name_of(current_name@, seed@) == Some(t@),
            None => auto_name_of(current_name@, seed@) is None,
        },
{
    if trim_chars(&chars_of(current_name)).len() > 0 {
        return None;
    }
    let title = session_title_from_prompt(seed);
    if title.as_str().is_empty() {
        return None;
    }
    Some(title)
}

/// Where the persona's session is found: its remembered current session if it
/// is still available, else the one the manager remembered if available,
/// else the first listed local session, else a new one (`None`).
pub open spec fn persona_session_of(
    current: Option<(Seq<char>, bool)>,
    remembered: Option<(Seq<char>, bool)>,
    first_listed: Option<Seq<char>>,
) -> Option<Seq<char>> {
    if current is Some && current.unwrap().1 {
        Some(current.unwrap().0)
    } else if remembered is Some && remembered.unwrap().1 {
        Some(remembered.unwrap().0)
    } else {
        first_listed
    }
}

pub open spec fn opt_pair(o: Option<(&str, bool)>) -> Option<(Seq<char>, bool)> {
    match o {
        Some((s, b)) => Some((s@, b)),
        None => None,
    }
}

/// Each candidate comes with whether it is still an available local session
/// of the persona.
pub fn session_for_persona(
    current: Option<(&str, bool)>,
    remembered: Option<(&str, bool)>,
    first_listed: Option<&str>,
) -> (r: Option<String>)
    ensures
        match r {
            Some(id) => persona_session_of(
                opt_pair(current),
                opt_pair(remembered),
                match first_listed {
                    Some(f) => Some(f@),
                    None => None,
                },
            ) == Some(id@),
            None => persona_session_of(
                opt_pair(current),
                opt_pair(remembered),
                match first_listed {
                    Some(f) => Some(f@),
                    None => None,
                },
            ) is None,
        },
{
    if let Some((id, ok)) = current {
        if ok {
            return Some(id.to_owned());
        }
    }
    if let Some((id, ok)) = remembered {
        if ok {
            return Some(id.to_owned());
        }
    }
    match first_listed {
        Some(f) => Some(f.to_owned()),
        None => None,
    }
}

/// A session is available as a persona's local session when it exists, is a
/// user session, belongs to the persona and is not a platform session.
pub fn is_available_local_session(
    record: Option<&SessionRecord>,
    persona: &str,
    is_platform: bool,
) -> (r: bool)
    ensures
        r == match record {
            Some(rec) => rec.kind@ == USER_SESSION_KIND@ && rec.persona@ == persona@ && !is_platform,
            None => false,
        },
{
    match record {
        Some(rec) => str_eq(rec.kind.as_str(), USER_SESSION_KIND) && str_eq(
            rec.persona.as_str(),
            persona,
        ) && !is_platform,
        None => false,
    }
}

/// The session's own model pool, when it pins one, replaces the configured
/// pool; a read error keeps the configured one.
pub fn apply_session_model_override_to<M, E>(configured: Option<M>, pinned: Result<Option<M>, E>) -> (r: Option<M>)
    ensures
        r == match pinned {
            Ok(Some(m)) => Some(m),
            _ => configured,
        },
{
    match pinned {
        Ok(Some(m)) => Some(m),
        _ => configured,
    }
}

/// Refuses while any turn is running.
pub fn require_no_running_turn(running: bool) -> (r: Result<(), ApiError>)
    ensures
        match r {
            Ok(_) => !running,
            Err(e) => running && api_error_is(e, CONFLICT, "a conversation turn is already running"@),
        },
{
    if running {
        Err(ApiError::new(CONFLICT, "a conversation turn is already running"))
    } else {
        Ok(())
    }
}


/// The session a persona resumes: its stored current session whenever that
/// one is available; otherwise the session the manager remembered whenever
/// that one is available, whatever the current candidate is; only when
/// neither is available, the first listed local session (or a new one).
pub proof fn law_persona_resumes_available_session(
    current: Option<(Seq<char>, bool)>,
    remembered: Option<(Seq<char>, bool)>,
    first_listed: Option<Seq<char>>,
)
    ensures
        current is Some && current.unwrap().1 ==> persona_session_of(current, remembered, first_listed) == Some(
            current.unwrap().0,
        ),
        !(current is Some && current.unwrap().1) && remembered is Some && remembered.unwrap().1
            ==> persona_session_of(current, remembered, first_listed) == Some(remembered.unwrap().0),
        !(current is Some && current.unwrap().1) && !(remembered is Some && remembered.unwrap().1)
            ==> persona_session_of(current, remembered, first_listed) == first_listed,
{
}

} // verus!
