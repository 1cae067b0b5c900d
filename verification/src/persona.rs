//! Personas and their prompt documents: the identity card the WebUI shows,
//! the checks a set of prompt documents must pass before it is saved, and
//! which persona documents a save renames or removes.
use crate::accounts::{is_named_member, WebIdentity};
use crate::api::{ApiError, BAD_REQUEST, PAYLOAD_TOO_LARGE};
use crate::assets::{ascii_case_eq, eq_ignore_ascii_case};
use crate::dto::{default_composer_placeholder, utf8_len};
use crate::path::{file_name, file_name_seq};
use crate::text::{
    any_control, char_views, chars_eq, chars_of, sort_names, ends_with, extend_chars, extend_str, find_char, has_control,
    has_suffix, lemma_lex_antisym, lemma_lex_total, lemma_lex_trans, lex_le, lex_le_chars, str_eq, string_of, string_views, trim_chars, trim_seq,
};
use vstd::prelude::*;

verus! {

/// The board title of a persona that sets none.
pub const DEFAULT_BOARD_TITLE: &'static str = "今天想聊些什么？";

/// The board subtitle of a persona that sets none.
pub const DEFAULT_BOARD_SUBTITLE: &'static str = "从一个问题、计划或此刻的想法开始。";

/// The four starter prompts of a persona that sets none.
pub const DEFAULT_STARTER_PROMPTS: [&'static str; 4] = [
    "陪我说说话",
    "给我讲个睡前故事",
    "发表情包打个招呼吧",
    "写首小诗给我",
];

/// The name of the built-in persona.
pub const BUILTIN_PERSONA_NAME: &'static str = "顾清影";

/// At most this many documents of one kind.
pub const MAX_PROMPT_DOCUMENTS: usize = 128;

/// A document holds at most this many characters.
pub const MAX_PROMPT_DOCUMENT_CHARS: usize = 200000;

/// A prompt document (a persona or an identity) as the settings page edits
/// it.
pub struct PromptDocument {
    pub name: String,
    /// The name the document had on disk, for renames.
    pub original_name: Option<String>,
    pub content: String,
    pub avatar_path: Option<String>,
    pub board_image_path: Option<String>,
    pub board_title: Option<String>,
    pub board_subtitle: Option<String>,
    pub composer_placeholder: Option<String>,
    pub starter_prompts: Option<Vec<String>>,
}

/// The identity card of the persona the WebUI talks to.
pub struct PersonaIdentity {
    pub name: String,
    pub avatar_url: Option<String>,
    pub board_image_url: Option<String>,
    pub board_title: String,
    pub board_subtitle: String,
    pub composer_placeholder: String,
    pub starter_prompts: Vec<String>,
}

pub open spec fn opt_chars(o: Option<String>) -> Option<Seq<char>> {
    match o {
        Some(s) => Some(s@),
        None => None,
    }
}

/// A configured text, unless it is absent or blank.
pub open spec fn configured(o: Option<String>) -> Option<Seq<char>> {
    match o {
        Some(s) => if trim_seq(s@).len() > 0 {
            Some(s@)
        } else {
            None
        },
        None => None,
    }
}

/// The index of the first document with the given name, or -1.
pub open spec fn doc_index(docs: Seq<PromptDocument>, name: Seq<char>) -> int
    decreases docs.len(),
{
    if docs.len() == 0 {
        -1
    } else if docs[0].name@ == name {
        0
    } else {
        let k = doc_index(docs.drop_first(), name);
        if k < 0 {
            -1
        } else {
            k + 1
        }
    }
}

proof fn lemma_doc_index(docs: Seq<PromptDocument>, name: Seq<char>)
    ensures
        -1 <= doc_index(docs, name) < docs.len(),
        doc_index(docs, name) >= 0 ==> docs[doc_index(docs, name)].name@ == name,
        doc_index(docs, name) < 0 ==> forall|k: int| 0 <= k < docs.len() ==> docs[k].name@ != name,
    decreases docs.len(),
{
    if docs.len() > 0 && docs[0].name@ != name {
        let t = docs.drop_first();
        lemma_doc_index(t, name);
        assert forall|k: int| 0 <= k < docs.len() && k > 0 implies docs[k] == t[k - 1] by {}
    }
}

fn find_doc(docs: &Vec<PromptDocument>, name: &str) -> (r: Option<usize>)
    ensures
        match r {
            Some(i) => doc_index(docs@, name@) == i && i < docs.len(),
            None => doc_index(docs@, name@) < 0,
        },
{
    let mut i: usize = 0;
    assert(docs@.skip(0) =~= docs@);
    while i < docs.len()
        invariant
            i <= docs.len(),
            doc_index(docs@, name@) == if doc_index(docs@.skip(i as int), name@) < 0 {
                -1
            } else {
                doc_index(docs@.skip(i as int), name@) + i
            },
        decreases docs.len() - i,
    {
        assert(docs@.skip(i as int)[0] == docs@[i as int]);
        if str_eq(docs[i].name.as_str(), name) {
            return Some(i);
        }
        assert(docs@.skip(i as int).drop_first() =~= docs@.skip(i + 1));
        i += 1;
    }
    None
}

/// The starter prompts: each of the four defaults, replaced by the
/// document's prompt in the same place when that is set and not blank.
pub open spec fn starter_prompt_of(configured_prompts: Option<Seq<Seq<char>>>, index: int) -> Seq<char> {
    match configured_prompts {
        Some(ps) => if index < ps.len() && trim_seq(ps[index]).len() > 0 {
            ps[index]
        } else {
            DEFAULT_STARTER_PROMPTS[index]@
        },
        None => DEFAULT_STARTER_PROMPTS[index]@,
    }
}

/// The persona's name: the active persona file name without `.md`.
pub open spec fn persona_name_of(active: Seq<char>) -> Seq<char> {
    if has_suffix(active, ".md"@) {
        active.take(active.len() - ".md"@.len())
    } else {
        active
    }
}

fn default_starters() -> (r: Vec<String>)
    ensures
        r@.len() == 4,
        string_views(r@) == seq![
            DEFAULT_STARTER_PROMPTS[0]@,
            DEFAULT_STARTER_PROMPTS[1]@,
            DEFAULT_STARTER_PROMPTS[2]@,
            DEFAULT_STARTER_PROMPTS[3]@,
        ],
{
    let v = vec![
        DEFAULT_STARTER_PROMPTS[0].to_owned(),
        DEFAULT_STARTER_PROMPTS[1].to_owned(),
        DEFAULT_STARTER_PROMPTS[2].to_owned(),
        DEFAULT_STARTER_PROMPTS[3].to_owned(),
    ];
    assert(string_views(v@) =~= seq![
        DEFAULT_STARTER_PROMPTS[0]@,
        DEFAULT_STARTER_PROMPTS[1]@,
        DEFAULT_STARTER_PROMPTS[2]@,
        DEFAULT_STARTER_PROMPTS[3]@,
    ]);
    v
}

fn not_blank(o: &Option<String>) -> (r: Option<String>)
    ensures
        opt_chars(r) == configured(*o),
{
    match o {
        Some(s) => if trim_chars(&chars_of(s.as_str())).len() > 0 {
            Some(s.clone())
        } else {
            None
        },
        None => None,
    }
}

/// The identity card of the global persona. With no active persona it is
/// the built-in one with its own images; otherwise the card of the active
/// persona file: name without `.md`, the avatar and board URLs when their
/// paths are set, and the board texts, placeholder and starter prompts it
/// configures (the defaults where it does not).
pub fn persona_identity(active_persona: &str, personas: &Vec<PromptDocument>) -> (r: PersonaIdentity)
    ensures
        trim_seq(active_persona@).len() == 0 ==> {
            &&& r.name@ == BUILTIN_PERSONA_NAME@
            &&& opt_chars(r.avatar_url) == Some("/assets/gqy-logo.png"@)
            &&& opt_chars(r.board_image_url) == Some("/assets/gqywallpaper.png"@)
            &&& r.board_title@ == DEFAULT_BOARD_TITLE@
            &&& r.board_subtitle@ == DEFAULT_BOARD_SUBTITLE@
            &&& r.composer_placeholder@ == "给 "@ + BUILTIN_PERSONA_NAME@ + " 发消息"@
            &&& string_views(r.starter_prompts@) == seq![
                DEFAULT_STARTER_PROMPTS[0]@,
                DEFAULT_STARTER_PROMPTS[1]@,
                DEFAULT_STARTER_PROMPTS[2]@,
                DEFAULT_STARTER_PROMPTS[3]@,
            ]
        },
        trim_seq(active_persona@).len() > 0 ==> ({
            let active = trim_seq(active_persona@);
            let i = doc_index(personas@, active);
            let doc = personas@[i];
            let name = persona_name_of(active);
            &&& r.name@ == name
            &&& opt_chars(r.avatar_url) == (if i >= 0 && configured(doc.avatar_path) is Some {
                Some("/api/persona/avatar"@)
            } else {
                None
            })
            &&& opt_chars(r.board_image_url) == (if i >= 0 && configured(doc.board_image_path) is Some {
                Some("/api/persona/avatar?board=1"@)
            } else {
                None
            })
            &&& r.board_title@ == (if i >= 0 && configured(doc.board_title) is Some {
                configured(doc.board_title).unwrap()
            } else {
                DEFAULT_BOARD_TITLE@
            })
            &&& r.board_subtitle@ == (if i >= 0 && configured(doc.board_subtitle) is Some {
                configured(doc.board_subtitle).unwrap()
            } else {
                DEFAULT_BOARD_SUBTITLE@
            })
            &&& r.composer_placeholder@ == (if i >= 0 && configured(doc.composer_placeholder) is Some {
                configured(doc.composer_placeholder).unwrap()
            } else {
                "给 "@ + name + " 发消息"@
            })
            &&& r.starter_prompts@.len() == 4
            &&& forall|k: int|
                0 <= k < 4 ==> (#[trigger] r.starter_prompts@[k])@ == starter_prompt_of(
                    if i >= 0 {
                        match doc.starter_prompts {
                            Some(ps) => Some(string_views(ps@)),
                            None => None,
                        }
                    } else {
                        None
                    },
                    k,
                )
        }),
{
    let active = string_of(&trim_chars(&chars_of(active_persona)));
    if active.as_str().is_empty() {
        return PersonaIdentity {
            name: BUILTIN_PERSONA_NAME.to_owned(),
            avatar_url: Some("/assets/gqy-logo.png".to_owned()),
            board_image_url: Some("/assets/gqywallpaper.png".to_owned()),
            board_title: DEFAULT_BOARD_TITLE.to_owned(),
            board_subtitle: DEFAULT_BOARD_SUBTITLE.to_owned(),
            composer_placeholder: default_composer_placeholder(BUILTIN_PERSONA_NAME),
            starter_prompts: default_starters(),
        };
    }
    let found = find_doc(personas, active.as_str());
    let av = chars_of(active.as_str());
    let md = chars_of(".md");
    let name = if ends_with(&av, &md) {
        string_of(&crate::text::slice_chars(&av, 0, av.len() - md.len()))
    } else {
        active.clone()
    };
    assert(name@ == persona_name_of(active@)) by {
        if has_suffix(active@, ".md"@) {
            assert(av@.subrange(0, av@.len() - md@.len()) =~= active@.take(active@.len() - ".md"@.len()));
        }
    }
    let (avatar_url, board_image_url, board_title, board_subtitle, composer_placeholder, starter_prompts) = match found {
        None => (
            None,
            None,
            DEFAULT_BOARD_TITLE.to_owned(),
            DEFAULT_BOARD_SUBTITLE.to_owned(),
            default_composer_placeholder(name.as_str()),
            default_starters(),
        ),
        Some(i) => {
            let doc = &personas[i];
            let avatar_url = if not_blank(&doc.avatar_path).is_some() {
                Some("/api/persona/avatar".to_owned())
            } else {
                None
            };
            let board_image_url = if not_blank(&doc.board_image_path).is_some() {
                Some("/api/persona/avatar?board=1".to_owned())
            } else {
                None
            };
            let board_title = match not_blank(&doc.board_title) {
                Some(t) => t,
                None => DEFAULT_BOARD_TITLE.to_owned(),
            };
            let board_subtitle = match not_blank(&doc.board_subtitle) {
                Some(t) => t,
                None => DEFAULT_BOARD_SUBTITLE.to_owned(),
            };
            let composer_placeholder = match not_blank(&doc.composer_placeholder) {
                Some(t) => t,
                None => default_composer_placeholder(name.as_str()),
            };
            let mut starters: Vec<String> = Vec::new();
            let mut k: usize = 0;
            while k < 4
                invariant
                    k <= 4,
                    starters@.len() == k,
                    forall|j: int|
                        0 <= j < k ==> (#[trigger] starters@[j])@ == starter_prompt_of(
                            match doc.starter_prompts {
                                Some(ps) => Some(string_views(ps@)),
                                None => None,
                            },
                            j,
                        ),
                decreases 4 - k,
            {
                let chosen = match &doc.starter_prompts {
                    Some(ps) => if k < ps.len() && trim_chars(&chars_of(ps[k].as_str())).len() > 0 {
                        assert(string_views(ps@)[k as int] == ps@[k as int]@);
                        ps[k].clone()
                    } else {
                        DEFAULT_STARTER_PROMPTS[k].to_owned()
                    },
                    None => DEFAULT_STARTER_PROMPTS[k].to_owned(),
                };
                starters.push(chosen);
                k += 1;
            }
            (avatar_url, board_image_url, board_title, board_subtitle, composer_placeholder, starters)
        },
    };
    PersonaIdentity {
        name,
        avatar_url,
        board_image_url,
        board_title,
        board_subtitle,
        composer_placeholder,
        starter_prompts,
    }
}

/// The placeholder of the composer under the global persona.
pub fn composer_placeholder(active_persona: &str, personas: &Vec<PromptDocument>) -> (r: String)
    ensures
        r@ == ({
            let id = persona_identity_spec_placeholder(active_persona@, personas@);
            id
        }),
{
    let id = persona_identity(active_persona, personas);
    id.composer_placeholder
}

/// The placeholder [`persona_identity`] gives.
pub open spec fn persona_identity_spec_placeholder(active_persona: Seq<char>, personas: Seq<PromptDocument>) -> Seq<char> {
    if trim_seq(active_persona).len() == 0 {
        "给 "@ + BUILTIN_PERSONA_NAME@ + " 发消息"@
    } else {
        let active = trim_seq(active_persona);
        let i = doc_index(personas, active);
        if i >= 0 && configured(personas[i].composer_placeholder) is Some {
            configured(personas[i].composer_placeholder).unwrap()
        } else {
            "给 "@ + persona_name_of(active) + " 发消息"@
        }
    }
}

/// The display name of the global persona.
pub fn persona_display_name(active_persona: &str, personas: &Vec<PromptDocument>) -> (r: String)
    ensures
        r@ == if trim_seq(active_persona@).len() == 0 {
            BUILTIN_PERSONA_NAME@
        } else {
            persona_name_of(trim_seq(active_persona@))
        },
{
    let id = persona_identity(active_persona, personas);
    id.name
}

/// A member's own active persona, as the card needs it.
pub struct MemberPersona {
    pub name: String,
    pub scope: String,
    pub board_title: String,
    pub board_subtitle: String,
    pub has_avatar: bool,
    pub has_board: bool,
}

/// The card of a member's active private persona; `None` for admins and when
/// the member uses the shared persona.
pub fn member_persona_identity(identity: &WebIdentity, active: Option<&MemberPersona>) -> (r: Option<PersonaIdentity>)
    ensures
        match r {
            Some(id) => is_named_member(*identity) && active is Some && ({
                let p = active.unwrap();
                &&& id.name@ == p.name@
                &&& opt_chars(id.avatar_url) == (if p.has_avatar {
                    Some("/api/persona/avatar?scope="@ + p.scope@)
                } else {
                    None
                })
                &&& opt_chars(id.board_image_url) == (if p.has_board {
                    Some("/api/persona/avatar?scope="@ + p.scope@ + "&board=1"@)
                } else {
                    None
                })
                &&& id.board_title@ == (if trim_seq(p.board_title@).len() == 0 {
                    DEFAULT_BOARD_TITLE@
                } else {
                    p.board_title@
                })
                &&& id.board_subtitle@ == (if trim_seq(p.board_subtitle@).len() == 0 {
                    DEFAULT_BOARD_SUBTITLE@
                } else {
                    p.board_subtitle@
                })
                &&& id.composer_placeholder@ == "给 "@ + p.name@ + " 发消息"@
                &&& string_views(id.starter_prompts@) == seq![
                    DEFAULT_STARTER_PROMPTS[0]@,
                    DEFAULT_STARTER_PROMPTS[1]@,
                    DEFAULT_STARTER_PROMPTS[2]@,
                    DEFAULT_STARTER_PROMPTS[3]@,
                ]
            }),
            None => !is_named_member(*identity) || active is None,
        },
{
    if identity.admin || identity.username.as_str().is_empty() {
        return None;
    }
    let p = match active {
        Some(p) => p,
        None => return None,
    };
    let avatar_url = if p.has_avatar {
        let mut v = chars_of("/api/persona/avatar?scope=");
        extend_str(&mut v, p.scope.as_str());
        Some(string_of(&v))
    } else {
        None
    };
    let board_image_url = if p.has_board {
        let mut v = chars_of("/api/persona/avatar?scope=");
        extend_str(&mut v, p.scope.as_str());
        extend_str(&mut v, "&board=1");
        Some(string_of(&v))
    } else {
        None
    };
    Some(
        PersonaIdentity {
            name: p.name.clone(),
            avatar_url,
            board_image_url,
            board_title: if trim_chars(&chars_of(p.board_title.as_str())).len() == 0 {
                DEFAULT_BOARD_TITLE.to_owned()
            } else {
                p.board_title.clone()
            },
            board_subtitle: if trim_chars(&chars_of(p.board_subtitle.as_str())).len() == 0 {
                DEFAULT_BOARD_SUBTITLE.to_owned()
            } else {
                p.board_subtitle.clone()
            },
            composer_placeholder: default_composer_placeholder(p.name.as_str()),
            starter_prompts: default_starters(),
        },
    )
}

/// The avatar (or, with `board`, the board image) reference of the active
/// persona document, when the active persona is set and has one.
pub open spec fn active_asset_ref(active_persona: Seq<char>, personas: Seq<PromptDocument>, board: bool) -> Option<Seq<char>> {
    let active = trim_seq(active_persona);
    let i = doc_index(personas, active);
    if (!board && active.len() == 0) || i < 0 {
        None
    } else if board {
        opt_chars(personas[i].board_image_path)
    } else {
        opt_chars(personas[i].avatar_path)
    }
}

fn active_asset(active_persona: &str, personas: &Vec<PromptDocument>, board: bool) -> (r: Option<String>)
    ensures
        opt_chars(r) == active_asset_ref(active_persona@, personas@, board),
{
    let active = string_of(&trim_chars(&chars_of(active_persona)));
    if !board && active.as_str().is_empty() {
        return None;
    }
    match find_doc(personas, active.as_str()) {
        None => None,
        Some(i) => if board {
            personas[i].board_image_path.clone()
        } else {
            personas[i].avatar_path.clone()
        },
    }
}

/// The avatar reference of the active persona (resolved by
/// `resolve_persona_asset_path`).
pub fn active_persona_avatar_path(active_persona: &str, personas: &Vec<PromptDocument>) -> (r: Option<String>)
    ensures
        opt_chars(r) == active_asset_ref(active_persona@, personas@, false),
{
    active_asset(active_persona, personas, false)
}

/// The board image reference of the active persona.
pub fn active_persona_board_path(active_persona: &str, personas: &Vec<PromptDocument>) -> (r: Option<String>)
    ensures
        opt_chars(r) == active_asset_ref(active_persona@, personas@, true),
{
    active_asset(active_persona, personas, true)
}

/// A valid document file name: untrimmed, ending in `.md`, 4 to 240 bytes,
/// not hidden, without separators or control characters, and a plain file
/// name.
pub open spec fn is_valid_document_name(name: Seq<char>) -> bool {
    &&& trim_seq(name) == name
    &&& has_suffix(name, ".md"@)
    &&& utf8_len(name) <= 240
    &&& utf8_len(name) > 3
    &&& !(name.len() > 0 && name[0] == '.')
    &&& !name.contains('/')
    &&& !name.contains('\\')
    &&& !has_control(name)
    &&& file_name_seq(name) == Some(name)
}

/// `invalid <kind> document name: <name>`.
pub open spec fn name_message(kind: Seq<char>, name: Seq<char>) -> Seq<char> {
    "invalid "@ + kind + " document name: "@ + name
}

fn utf8_bytes(v: &[char]) -> (n: usize)
    ensures
        n == (if utf8_len(v@) > 5000 {
            5001
        } else {
            utf8_len(v@)
        }),
{
    let mut n: usize = 0;
    let mut i: usize = 0;
    while i < v.len()
        invariant
            i <= v.len(),
            n == (if utf8_len(v@.take(i as int)) > 5000 {
                5001
            } else {
                utf8_len(v@.take(i as int))
            }),
        decreases v.len() - i,
    {
        assert(v@.take(i + 1).drop_last() =~= v@.take(i as int));
        let c = v[i];
        let w: usize = if (c as u32) < 0x80 {
            1
        } else if (c as u32) < 0x800 {
            2
        } else if (c as u32) < 0x10000 {
            3
        } else {
            4
        };
        n = if n + w > 5000 {
            5001
        } else {
            n + w
        };
        i += 1;
    }
    assert(v@.take(v.len() as int) =~= v@);
    n
}

proof fn lemma_utf8_monotone(s: Seq<char>, i: int)
    requires
        0 <= i <= s.len(),
    ensures
        utf8_len(s.take(i)) <= utf8_len(s),
    decreases s.len() - i,
{
    if i < s.len() {
        lemma_utf8_monotone(s, i + 1);
        assert(s.take(i + 1).drop_last() =~= s.take(i));
    } else {
        assert(s.take(i) =~= s);
    }
}

fn name_check(name: &str, kind: &str) -> (r: Result<(), ApiError>)
    ensures
        match r {
            Ok(_) => is_valid_document_name(name@),
            Err(e) => !is_valid_document_name(name@) && e.status == BAD_REQUEST && e.message@ == name_message(
                kind@,
                name@,
            ),
        },
{
    let v = chars_of(name);
    let t = trim_chars(&v);
    let bytes = utf8_bytes(&v);
    let slash = find_char(&v, '/', 0);
    let backslash = find_char(&v, '\\', 0);
    assert(slash is None ==> !v@.contains('/'));
    assert(backslash is None ==> !v@.contains('\\'));
    let valid = chars_eq(&t, &v) && ends_with(&v, &chars_of(".md")) && bytes <= 240 && bytes > 3
        && !(v.len() > 0 && v[0] == '.') && slash.is_none() && backslash.is_none() && !any_control(&v) && match file_name(&v) {
        Some(f) => chars_eq(&f, &v),
        None => false,
    };
    if valid {
        Ok(())
    } else {
        let mut m = chars_of("invalid ");
        extend_str(&mut m, kind);
        extend_str(&mut m, " document name: ");
        extend_str(&mut m, name);
        Err(ApiError { status: BAD_REQUEST, message: string_of(&m) })
    }
}

/// Checks a prompt document name.
pub fn validate_prompt_document_name(name: &str, kind: &str) -> (r: Result<(), ApiError>)
    ensures
        match r {
            Ok(_) => is_valid_document_name(name@),
            Err(e) => !is_valid_document_name(name@) && e.status == BAD_REQUEST && e.message@ == name_message(
                kind@,
                name@,
            ),
        },
{
    name_check(name, kind)
}


/// The character views of an optional list of strings.
pub open spec fn opt_string_views(o: Option<Vec<String>>) -> Option<Seq<Seq<char>>> {
    match o {
        Some(v) => Some(string_views(v@)),
        None => None,
    }
}

/// An image path that is over 4096 bytes, holds a NUL or has surrounding
/// white space.
pub open spec fn bad_path(p: Option<Seq<char>>) -> bool {
    match p {
        Some(p) => utf8_len(p) > 4096 || p.contains('\0') || trim_seq(p) != p,
        None => false,
    }
}

/// A card text that is over 200 characters or holds a control character.
pub open spec fn bad_text(t: Option<Seq<char>>) -> bool {
    match t {
        Some(t) => t.len() > 200 || has_control(t),
        None => false,
    }
}

/// More than four starter prompts, or one that is a bad card text.
pub open spec fn bad_starters(ps: Option<Seq<Seq<char>>>) -> bool {
    match ps {
        Some(ps) => ps.len() > 4 || exists|k: int| 0 <= k < ps.len() && bad_text(Some(#[trigger] ps[k])),
        None => false,
    }
}

/// Some document before position `i` has this name.
pub open spec fn name_before(docs: Seq<PromptDocument>, i: int, name: Seq<char>) -> bool {
    exists|j: int| 0 <= j < i && (#[trigger] docs[j]).name@ == name
}

/// Some document before position `i` has this original name.
pub open spec fn original_before(docs: Seq<PromptDocument>, i: int, original: Seq<char>) -> bool {
    exists|j: int| 0 <= j < i && opt_chars((#[trigger] docs[j]).original_name) == Some(original)
}

/// The error a document raises in a list of documents of one kind, given the
/// documents before it, as status and message.
pub open spec fn document_error(kind: Seq<char>, docs: Seq<PromptDocument>, i: int) -> Option<(u16, Seq<char>)> {
    let d = docs[i];
    let name = d.name@;
    if !is_valid_document_name(name) {
        Some((BAD_REQUEST, name_message(kind, name)))
    } else if name_before(docs, i, name) {
        Some((BAD_REQUEST, "duplicate "@ + kind + " document: "@ + name))
    } else if d.content@.len() > MAX_PROMPT_DOCUMENT_CHARS || d.content@.contains('\0') {
        Some((PAYLOAD_TOO_LARGE, kind + " document is too large: "@ + name))
    } else if bad_path(opt_chars(d.avatar_path)) {
        Some((BAD_REQUEST, "invalid "@ + kind + " avatar path: "@ + name))
    } else if bad_path(opt_chars(d.board_image_path)) {
        Some((BAD_REQUEST, "invalid "@ + kind + " board image path: "@ + name))
    } else if bad_text(opt_chars(d.board_title)) {
        Some((BAD_REQUEST, "invalid "@ + kind + " board title: "@ + name))
    } else if bad_text(opt_chars(d.board_subtitle)) {
        Some((BAD_REQUEST, "invalid "@ + kind + " board subtitle: "@ + name))
    } else if bad_text(opt_chars(d.composer_placeholder)) {
        Some((BAD_REQUEST, "invalid "@ + kind + " composer placeholder: "@ + name))
    } else if bad_starters(opt_string_views(d.starter_prompts)) {
        Some((BAD_REQUEST, "invalid "@ + kind + " starter prompts: "@ + name))
    } else {
        match opt_chars(d.original_name) {
            Some(o) => if !is_valid_document_name(o) {
                Some((BAD_REQUEST, name_message(kind, o)))
            } else if original_before(docs, i, o) {
                Some((BAD_REQUEST, "duplicate original "@ + kind + " document: "@ + o))
            } else {
                None
            },
            None => None,
        }
    }
}

/// The first error among the documents from position `i` on.
pub open spec fn first_document_error(kind: Seq<char>, docs: Seq<PromptDocument>, i: int) -> Option<(u16, Seq<char>)>
    decreases docs.len() - i,
{
    if i < 0 || i >= docs.len() {
        None
    } else {
        match document_error(kind, docs, i) {
            Some(e) => Some(e),
            None => first_document_error(kind, docs, i + 1),
        }
    }
}

/// The error a list of documents of one kind raises: too many documents,
/// or the first document error.
pub open spec fn document_list_error(kind: Seq<char>, docs: Seq<PromptDocument>) -> Option<(u16, Seq<char>)> {
    if docs.len() > MAX_PROMPT_DOCUMENTS {
        Some((PAYLOAD_TOO_LARGE, "at most 128 "@ + kind + " documents are allowed"@))
    } else {
        first_document_error(kind, docs, 0)
    }
}

/// Whether a result is the error given as status and message, or `Ok` when
/// there is none.
pub open spec fn result_is(r: Result<(), ApiError>, e: Option<(u16, Seq<char>)>) -> bool {
    match e {
        Some(e) => r is Err && r->Err_0.status == e.0 && r->Err_0.message@ == e.1,
        None => r is Ok,
    }
}

fn join4(a: &str, b: &str, c: &str, d: &str) -> (r: String)
    ensures
        r@ == a@ + b@ + c@ + d@,
{
    let mut v = chars_of(a);
    extend_str(&mut v, b);
    extend_str(&mut v, c);
    extend_str(&mut v, d);
    string_of(&v)
}

fn join3(a: &str, b: &str, c: &str) -> (r: String)
    ensures
        r@ == a@ + b@ + c@,
{
    let mut v = chars_of(a);
    extend_str(&mut v, b);
    extend_str(&mut v, c);
    string_of(&v)
}

fn path_is_bad(p: &Option<String>) -> (r: bool)
    ensures
        r == bad_path(opt_chars(*p)),
{
    match p {
        None => false,
        Some(p) => {
            let v = chars_of(p.as_str());
            let nul = find_char(&v, '\0', 0);
            proof {
                if let Some(k) = nul {
                    assert(v@[k as int] == '\0');
                }
            }
            utf8_bytes(&v) > 4096 || nul.is_some() || !chars_eq(&trim_chars(&v), &v)
        },
    }
}

fn text_is_bad(t: &str) -> (r: bool)
    ensures
        r == bad_text(Some(t@)),
{
    let v = chars_of(t);
    v.len() > 200 || any_control(&v)
}

fn opt_text_is_bad(t: &Option<String>) -> (r: bool)
    ensures
        r == bad_text(opt_chars(*t)),
{
    match t {
        None => false,
        Some(t) => text_is_bad(t.as_str()),
    }
}

#[verifier::loop_isolation(false)]
fn starters_are_bad(ps: &Option<Vec<String>>) -> (r: bool)
    ensures
        r == bad_starters(opt_string_views(*ps)),
{
    match ps {
        None => false,
        Some(list) => {
            let ghost views = string_views(list@);
            assert(opt_string_views(*ps) == Some(views));
            assert(views.len() == list@.len());
            if list.len() > 4 {
                return true;
            }
            let mut k: usize = 0;
            while k < list.len()
                invariant
                    k <= list.len(),
                    views == string_views(list@),
                    views.len() == list@.len(),
                    forall|j: int| 0 <= j < k ==> !bad_text(Some(#[trigger] views[j])),
                decreases list.len() - k,
            {
                assert(views[k as int] == list@[k as int]@);
                if text_is_bad(list[k].as_str()) {
                    assert(bad_text(Some(views[k as int])));
                    return true;
                }
                k += 1;
            }
            false
        },
    }
}

fn has_name_before(docs: &Vec<PromptDocument>, i: usize, name: &str) -> (r: bool)
    requires
        i <= docs.len(),
    ensures
        r == name_before(docs@, i as int, name@),
{
    let mut j: usize = 0;
    while j < i
        invariant
            j <= i <= docs.len(),
            forall|k: int| 0 <= k < j ==> (#[trigger] docs@[k]).name@ != name@,
        decreases i - j,
    {
        if str_eq(docs[j].name.as_str(), name) {
            return true;
        }
        j += 1;
    }
    false
}

fn has_original_before(docs: &Vec<PromptDocument>, i: usize, original: &str) -> (r: bool)
    requires
        i <= docs.len(),
    ensures
        r == original_before(docs@, i as int, original@),
{
    let mut j: usize = 0;
    while j < i
        invariant
            j <= i <= docs.len(),
            forall|k: int| 0 <= k < j ==> opt_chars((#[trigger] docs@[k]).original_name) != Some(original@),
        decreases i - j,
    {
        match &docs[j].original_name {
            Some(o) => if str_eq(o.as_str(), original) {
                return true;
            },
            None => {},
        }
        j += 1;
    }
    false
}

fn check_document(kind: &str, docs: &Vec<PromptDocument>, i: usize) -> (r: Result<(), ApiError>)
    requires
        i < docs.len(),
    ensures
        result_is(r, document_error(kind@, docs@, i as int)),
{
    let d = &docs[i];
    let name = d.name.as_str();
    match name_check(name, kind) {
        Err(e) => return Err(e),
        Ok(_) => {},
    }
    if has_name_before(docs, i, name) {
        return Err(ApiError { status: BAD_REQUEST, message: join4("duplicate ", kind, " document: ", name) });
    }
    let content = chars_of(d.content.as_str());
    let nul = find_char(&content, '\0', 0);
    proof {
        if let Some(k) = nul {
            assert(content@[k as int] == '\0');
        }
    }
    if content.len() > MAX_PROMPT_DOCUMENT_CHARS || nul.is_some() {
        return Err(ApiError { status: PAYLOAD_TOO_LARGE, message: join3(kind, " document is too large: ", name) });
    }
    if path_is_bad(&d.avatar_path) {
        return Err(ApiError { status: BAD_REQUEST, message: join4("invalid ", kind, " avatar path: ", name) });
    }
    if path_is_bad(&d.board_image_path) {
        return Err(ApiError { status: BAD_REQUEST, message: join4("invalid ", kind, " board image path: ", name) });
    }
    if opt_text_is_bad(&d.board_title) {
        return Err(ApiError { status: BAD_REQUEST, message: join4("invalid ", kind, " board title: ", name) });
    }
    if opt_text_is_bad(&d.board_subtitle) {
        return Err(ApiError { status: BAD_REQUEST, message: join4("invalid ", kind, " board subtitle: ", name) });
    }
    if opt_text_is_bad(&d.composer_placeholder) {
        return Err(
            ApiError { status: BAD_REQUEST, message: join4("invalid ", kind, " composer placeholder: ", name) },
        );
    }
    if starters_are_bad(&d.starter_prompts) {
        return Err(ApiError { status: BAD_REQUEST, message: join4("invalid ", kind, " starter prompts: ", name) });
    }
    match &d.original_name {
        Some(o) => {
            match name_check(o.as_str(), kind) {
                Err(e) => return Err(e),
                Ok(_) => {},
            }
            if has_original_before(docs, i, o.as_str()) {
                return Err(
                    ApiError { status: BAD_REQUEST, message: join4("duplicate original ", kind, " document: ", o.as_str()) },
                );
            }
            Ok(())
        },
        None => Ok(()),
    }
}

/// Checks the documents of one kind before they are saved: at most
/// [`MAX_PROMPT_DOCUMENTS`], and each with a valid, unique name, content of
/// at most [`MAX_PROMPT_DOCUMENT_CHARS`] characters without NUL, sane image
/// paths and card texts, at most four starter prompts, and a valid, unique
/// original name. The first failure is the error.
pub fn validate_prompt_document_list(kind: &str, documents: &Vec<PromptDocument>) -> (r: Result<(), ApiError>)
    ensures
        result_is(r, document_list_error(kind@, documents@)),
{
    if documents.len() > MAX_PROMPT_DOCUMENTS {
        return Err(
            ApiError { status: PAYLOAD_TOO_LARGE, message: join3("at most 128 ", kind, " documents are allowed") },
        );
    }
    let mut i: usize = 0;
    while i < documents.len()
        invariant
            i <= documents.len() <= MAX_PROMPT_DOCUMENTS,
            first_document_error(kind@, documents@, 0) == first_document_error(kind@, documents@, i as int),
        decreases documents.len() - i,
    {
        match check_document(kind, documents, i) {
            Err(e) => return Err(e),
            Ok(_) => {},
        }
        i += 1;
    }
    Ok(())
}


/// The persona and identity documents of a configuration.
pub struct PromptDocuments {
    pub personas: Vec<PromptDocument>,
    pub identities: Vec<PromptDocument>,
}

/// The first of two possible errors.
pub open spec fn first_of(a: Option<(u16, Seq<char>)>, b: Option<(u16, Seq<char>)>) -> Option<(u16, Seq<char>)> {
    if a is Some {
        a
    } else {
        b
    }
}

/// The last position before `i` whose scope is `scope`, or -1.
pub open spec fn last_scope_before(scopes: Seq<Seq<char>>, i: int, scope: Seq<char>) -> int
    decreases i,
{
    if i <= 0 {
        -1
    } else if scopes[i - 1] == scope {
        i - 1
    } else {
        last_scope_before(scopes, i - 1, scope)
    }
}

/// The error a persona raises beyond the list checks: the reserved
/// `system-prompt.md` name in any ASCII case, or a persistent scope that an
/// earlier persona already maps to.
pub open spec fn persona_error(docs: Seq<PromptDocument>, scopes: Seq<Seq<char>>, i: int) -> Option<(u16, Seq<char>)> {
    let name = docs[i].name@;
    let scope = scopes[i];
    let j = last_scope_before(scopes, i, scope);
    if eq_ignore_ascii_case(name, "system-prompt.md"@) {
        Some((BAD_REQUEST, "system-prompt.md is reserved and cannot be used as a persona"@))
    } else if j >= 0 {
        Some((
            BAD_REQUEST,
            "persona names map to the same persistent scope: "@ + docs[j].name@ + " and "@ + name + " ("@ + scope
                + ")"@,
        ))
    } else {
        None
    }
}

/// The first persona error from position `i` on.
pub open spec fn first_persona_error(docs: Seq<PromptDocument>, scopes: Seq<Seq<char>>, i: int) -> Option<(u16, Seq<char>)>
    decreases docs.len() - i,
{
    if i < 0 || i >= docs.len() {
        None
    } else {
        first_of(persona_error(docs, scopes, i), first_persona_error(docs, scopes, i + 1))
    }
}

/// The first QQ conversation, from position `i` on, whose custom persona is
/// not among the documents.
pub open spec fn first_missing_route(routes: Seq<Option<String>>, docs: Seq<PromptDocument>, i: int) -> Option<(u16, Seq<char>)>
    decreases routes.len() - i,
{
    if i < 0 || i >= routes.len() {
        None
    } else {
        match routes[i] {
            Some(name) => if doc_index(docs, name@) < 0 {
                Some((BAD_REQUEST, "QQ conversation persona does not exist: "@ + name@))
            } else {
                first_missing_route(routes, docs, i + 1)
            },
            None => first_missing_route(routes, docs, i + 1),
        }
    }
}

/// The error a set of prompt documents raises against the configuration:
/// the persona list, the identity list, the personas' names and scopes, the
/// active persona, the QQ conversations' personas and the active identity,
/// in that order.
pub open spec fn prompt_documents_error(
    active_persona: Seq<char>,
    active_identity: Seq<char>,
    qq_personas: Seq<Option<String>>,
    personas: Seq<PromptDocument>,
    identities: Seq<PromptDocument>,
    scopes: Seq<Seq<char>>,
) -> Option<(u16, Seq<char>)> {
    first_of(
        document_list_error("persona"@, personas),
        first_of(
            document_list_error("identity"@, identities),
            first_of(
                first_persona_error(personas, scopes, 0),
                first_of(
                    if trim_seq(active_persona).len() > 0 && doc_index(personas, active_persona) < 0 {
                        Some((BAD_REQUEST, "the active persona does not exist"@))
                    } else {
                        None
                    },
                    first_of(
                        first_missing_route(qq_personas, personas, 0),
                        if trim_seq(active_identity).len() > 0 && doc_index(identities, active_identity) < 0 {
                            Some((BAD_REQUEST, "the active identity does not exist"@))
                        } else {
                            None
                        },
                    ),
                ),
            ),
        ),
    )
}

fn find_scope_before(scopes: &Vec<String>, i: usize) -> (r: Option<usize>)
    requires
        i < scopes.len(),
    ensures
        match r {
            Some(j) => j == last_scope_before(string_views(scopes@), i as int, scopes@[i as int]@) && j < i,
            None => last_scope_before(string_views(scopes@), i as int, scopes@[i as int]@) == -1,
        },
{
    let ghost views = string_views(scopes@);
    let mut j: usize = i;
    while j > 0
        invariant
            j <= i < scopes.len(),
            views == string_views(scopes@),
            views.len() == scopes@.len(),
            last_scope_before(views, i as int, views[i as int]) == last_scope_before(views, j as int, views[i as int]),
        decreases j,
    {
        assert(views[j - 1] == scopes@[j - 1]@);
        assert(views[i as int] == scopes@[i as int]@);
        if str_eq(scopes[j - 1].as_str(), scopes[i].as_str()) {
            return Some(j - 1);
        }
        j -= 1;
    }
    None
}

/// Checks the prompt documents against the configuration before a save:
/// both document lists, no persona named `system-prompt.md` (in any ASCII
/// case), no two personas mapping to one persistent scope (`scopes` holds
/// each persona's scope name, in order), and that the active persona, the
/// QQ conversations' custom personas and the active identity exist.
#[verifier::loop_isolation(false)]
pub fn validate_prompt_documents(
    active_persona: &str,
    active_identity: &str,
    qq_personas: &Vec<Option<String>>,
    prompts: &PromptDocuments,
    scopes: &Vec<String>,
) -> (r: Result<(), ApiError>)
    requires
        scopes.len() == prompts.personas.len(),
    ensures
        result_is(
            r,
            prompt_documents_error(
                active_persona@,
                active_identity@,
                qq_personas@,
                prompts.personas@,
                prompts.identities@,
                string_views(scopes@),
            ),
        ),
{
    let ghost views = string_views(scopes@);
    match validate_prompt_document_list("persona", &prompts.personas) {
        Err(e) => return Err(e),
        Ok(_) => {},
    }
    match validate_prompt_document_list("identity", &prompts.identities) {
        Err(e) => return Err(e),
        Ok(_) => {},
    }
    let personas = &prompts.personas;
    let reserved = chars_of("system-prompt.md");
    let mut i: usize = 0;
    while i < personas.len()
        invariant
            i <= personas.len() == scopes.len(),
            views == string_views(scopes@),
            reserved@ == "system-prompt.md"@,
            first_persona_error(personas@, views, 0) == first_persona_error(personas@, views, i as int),
        decreases personas.len() - i,
    {
        let name = personas[i].name.as_str();
        if ascii_case_eq(&chars_of(name), &reserved) {
            return Err(
                ApiError {
                    status: BAD_REQUEST,
                    message: "system-prompt.md is reserved and cannot be used as a persona".to_owned(),
                },
            );
        }
        assert(views[i as int] == scopes@[i as int]@);
        match find_scope_before(scopes, i) {
            Some(j) => {
                let mut m = chars_of("persona names map to the same persistent scope: ");
                extend_str(&mut m, personas[j].name.as_str());
                extend_str(&mut m, " and ");
                extend_str(&mut m, name);
                extend_str(&mut m, " (");
                extend_str(&mut m, scopes[i].as_str());
                extend_str(&mut m, ")");
                return Err(ApiError { status: BAD_REQUEST, message: string_of(&m) });
            },
            None => {},
        }
        i += 1;
    }
    if !trim_chars(&chars_of(active_persona)).is_empty() && find_doc(personas, active_persona).is_none() {
        return Err(ApiError { status: BAD_REQUEST, message: "the active persona does not exist".to_owned() });
    }
    let mut k: usize = 0;
    while k < qq_personas.len()
        invariant
            k <= qq_personas.len(),
            first_missing_route(qq_personas@, personas@, 0) == first_missing_route(qq_personas@, personas@, k as int),
        decreases qq_personas.len() - k,
    {
        match &qq_personas[k] {
            Some(name) => if find_doc(personas, name.as_str()).is_none() {
                let mut m = chars_of("QQ conversation persona does not exist: ");
                extend_str(&mut m, name.as_str());
                return Err(ApiError { status: BAD_REQUEST, message: string_of(&m) });
            },
            None => {},
        }
        k += 1;
    }
    if !trim_chars(&chars_of(active_identity)).is_empty() && find_doc(&prompts.identities, active_identity).is_none() {
        return Err(ApiError { status: BAD_REQUEST, message: "the active identity does not exist".to_owned() });
    }
    Ok(())
}


/// The name a persona document is renamed to by the last document whose
/// original name is `current` and differs from its name.
pub open spec fn last_rename(docs: Seq<PromptDocument>, current: Seq<char>) -> Option<Seq<char>>
    decreases docs.len(),
{
    if docs.len() == 0 {
        None
    } else {
        let d = docs.last();
        match opt_chars(d.original_name) {
            Some(o) => if o != d.name@ && o == current {
                Some(d.name@)
            } else {
                last_rename(docs.drop_last(), current)
            },
            None => last_rename(docs.drop_last(), current),
        }
    }
}

/// A QQ conversation's custom persona after the renames of a save.
pub open spec fn reconciled(route: Option<Seq<char>>, docs: Seq<PromptDocument>) -> Option<Seq<char>> {
    match route {
        Some(c) => match last_rename(docs, c) {
            Some(n) => Some(n),
            None => Some(c),
        },
        None => None,
    }
}

fn rename_of(docs: &Vec<PromptDocument>, current: &str) -> (r: Option<String>)
    ensures
        opt_chars(r) == last_rename(docs@, current@),
{
    let mut j: usize = docs.len();
    assert(docs@.take(docs.len() as int) =~= docs@);
    while j > 0
        invariant
            j <= docs.len(),
            last_rename(docs@, current@) == last_rename(docs@.take(j as int), current@),
        decreases j,
    {
        let ghost t = docs@.take(j as int);
        assert(t.last() == docs@[j - 1]);
        assert(t.drop_last() =~= docs@.take(j - 1));
        let d = &docs[j - 1];
        match &d.original_name {
            Some(o) => if !str_eq(o.as_str(), d.name.as_str()) && str_eq(o.as_str(), current) {
                return Some(d.name.clone());
            },
            None => {},
        }
        j -= 1;
    }
    None
}

/// Points each QQ conversation whose custom persona a save renames at the
/// new name; other conversations stay as they are.
pub fn reconcile_qq_persona_references(qq_personas: &mut Vec<Option<String>>, prompts: &PromptDocuments)
    ensures
        final(qq_personas)@.len() == old(qq_personas)@.len(),
        forall|i: int|
            0 <= i < old(qq_personas)@.len() ==> opt_chars(#[trigger] final(qq_personas)@[i]) == reconciled(
                opt_chars(old(qq_personas)@[i]),
                prompts.personas@,
            ),
{
    let ghost before = qq_personas@;
    let mut k: usize = 0;
    while k < qq_personas.len()
        invariant
            k <= qq_personas.len() == before.len(),
            forall|i: int|
                0 <= i < k ==> opt_chars(#[trigger] qq_personas@[i]) == reconciled(
                    opt_chars(before[i]),
                    prompts.personas@,
                ),
            forall|i: int| k <= i < before.len() ==> #[trigger] qq_personas@[i] == before[i],
        decreases qq_personas.len() - k,
    {
        let next = match &qq_personas[k] {
            Some(current) => rename_of(&prompts.personas, current.as_str()),
            None => None,
        };
        match next {
            Some(n) => {
                qq_personas.set(k, Some(n));
            },
            None => {},
        }
        k += 1;
    }
}

/// Whether a document of the next set stands for the document `name` of the
/// current set: it was loaded under that name, or it is new and has it.
pub open spec fn represents(d: PromptDocument, name: Seq<char>) -> bool {
    opt_chars(d.original_name) == Some(name) || (d.original_name is None && d.name@ == name)
}

/// The first document of `docs` that stands for `name`, or -1.
pub open spec fn represented_index(docs: Seq<PromptDocument>, name: Seq<char>) -> int
    decreases docs.len(),
{
    if docs.len() == 0 {
        -1
    } else if represents(docs[0], name) {
        0
    } else {
        let k = represented_index(docs.drop_first(), name);
        if k < 0 {
            -1
        } else {
            k + 1
        }
    }
}

/// What a save does to each current persona: renamed (to the new name) or
/// removed (to nothing); personas kept under their names are left out.
pub open spec fn document_changes(current: Seq<PromptDocument>, next: Seq<PromptDocument>) -> Seq<(Seq<char>, Option<Seq<char>>)>
    decreases current.len(),
{
    if current.len() == 0 {
        seq![]
    } else {
        let before = document_changes(current.drop_last(), next);
        let name = current.last().name@;
        let k = represented_index(next, name);
        if k < 0 {
            before.push((name, None))
        } else if next[k].name@ != name {
            before.push((name, Some(next[k].name@)))
        } else {
            before
        }
    }
}

/// The views of a list of changes.
pub open spec fn change_views(v: Seq<(String, Option<String>)>) -> Seq<(Seq<char>, Option<Seq<char>>)> {
    v.map_values(|c: (String, Option<String>)| (c.0@, opt_chars(c.1)))
}

fn find_represented(docs: &Vec<PromptDocument>, name: &str) -> (r: Option<usize>)
    ensures
        match r {
            Some(i) => represented_index(docs@, name@) == i && i < docs.len(),
            None => represented_index(docs@, name@) < 0,
        },
{
    let mut i: usize = 0;
    assert(docs@.skip(0) =~= docs@);
    while i < docs.len()
        invariant
            i <= docs.len(),
            represented_index(docs@, name@) == if represented_index(docs@.skip(i as int), name@) < 0 {
                -1
            } else {
                represented_index(docs@.skip(i as int), name@) + i
            },
        decreases docs.len() - i,
    {
        assert(docs@.skip(i as int)[0] == docs@[i as int]);
        let d = &docs[i];
        let hit = match &d.original_name {
            Some(o) => str_eq(o.as_str(), name),
            None => str_eq(d.name.as_str(), name),
        };
        if hit {
            return Some(i);
        }
        assert(docs@.skip(i as int).drop_first() =~= docs@.skip(i + 1));
        i += 1;
    }
    None
}

/// The persona renames and removals a save makes, in the order of the
/// current personas.
pub fn persona_document_changes(current: &PromptDocuments, next: &PromptDocuments) -> (r: Vec<(String, Option<String>)>)
    ensures
        change_views(r@) == document_changes(current.personas@, next.personas@),
{
    let cur = &current.personas;
    let nxt = &next.personas;
    let mut changes: Vec<(String, Option<String>)> = Vec::new();
    let mut i: usize = 0;
    while i < cur.len()
        invariant
            i <= cur.len(),
            change_views(changes@) == document_changes(cur@.take(i as int), nxt@),
        decreases cur.len() - i,
    {
        let ghost t = cur@.take(i + 1);
        assert(t.drop_last() =~= cur@.take(i as int));
        assert(t.last() == cur@[i as int]);
        let name = cur[i].name.as_str();
        match find_represented(nxt, name) {
            None => {
                changes.push((cur[i].name.clone(), None));
                assert(change_views(changes@) =~= document_changes(cur@.take(i as int), nxt@).push((name@, None)));
            },
            Some(k) => {
                if !str_eq(nxt[k].name.as_str(), name) {
                    changes.push((cur[i].name.clone(), Some(nxt[k].name.clone())));
                    assert(change_views(changes@) =~= document_changes(cur@.take(i as int), nxt@).push(
                        (name@, Some(nxt@[k as int].name@)),
                    ));
                }
            },
        }
        i += 1;
    }
    assert(cur@.take(cur.len() as int) =~= cur@);
    changes
}


/// Puts a (name, content) pair after the leading pairs whose names are not
/// above its name.
pub open spec fn insert_by_name(s: Seq<(Seq<char>, Seq<char>)>, x: (Seq<char>, Seq<char>)) -> Seq<(Seq<char>, Seq<char>)>
    decreases s.len(),
{
    if s.len() == 0 {
        seq![x]
    } else if lex_le(s[0].0, x.0) {
        seq![s[0]] + insert_by_name(s.drop_first(), x)
    } else {
        seq![x] + s
    }
}

/// The (name, content) pairs of the documents in a stable ascending order
/// of names.
pub open spec fn canonical_documents(docs: Seq<PromptDocument>) -> Seq<(Seq<char>, Seq<char>)>
    decreases docs.len(),
{
    if docs.len() == 0 {
        seq![]
    } else {
        insert_by_name(canonical_documents(docs.drop_last()), (docs.last().name@, docs.last().content@))
    }
}

/// The views of a list of string pairs.
pub open spec fn pair_views(v: Seq<(String, String)>) -> Seq<(Seq<char>, Seq<char>)> {
    v.map_values(|p: (String, String)| (p.0@, p.1@))
}

proof fn lemma_insert_by_name_at(s: Seq<(Seq<char>, Seq<char>)>, x: (Seq<char>, Seq<char>), j: int)
    requires
        0 <= j <= s.len(),
        forall|k: int| 0 <= k < j ==> lex_le(#[trigger] s[k].0, x.0),
        j == s.len() || !lex_le(s[j].0, x.0),
    ensures
        insert_by_name(s, x) == s.insert(j, x),
    decreases j,
{
    if j == 0 {
        if s.len() == 0 {
            assert(s.insert(0, x) =~= seq![x]);
        } else {
            assert(s.insert(0, x) =~= seq![x] + s);
        }
    } else {
        let t = s.drop_first();
        assert forall|k: int| 0 <= k < j - 1 implies lex_le(#[trigger] t[k].0, x.0) by {
            assert(t[k] == s[k + 1]);
        }
        lemma_insert_by_name_at(t, x, j - 1);
        assert(lex_le(s[0].0, x.0));
        assert(seq![s[0]] + t.insert(j - 1, x) =~= s.insert(j, x));
    }
}

/// The (name, content) pairs of the documents, sorted stably by name: the
/// form in which two document sets are compared.
pub fn canonical_prompt_documents(documents: &Vec<PromptDocument>) -> (r: Vec<(String, String)>)
    ensures
        pair_views(r@) == canonical_documents(documents@),
{
    let mut out: Vec<(String, String)> = Vec::new();
    let mut i: usize = 0;
    while i < documents.len()
        invariant
            i <= documents.len(),
            pair_views(out@) == canonical_documents(documents@.take(i as int)),
        decreases documents.len() - i,
    {
        let ghost t = documents@.take(i + 1);
        assert(t.drop_last() =~= documents@.take(i as int));
        assert(t.last() == documents@[i as int]);
        let d = &documents[i];
        let key = chars_of(d.name.as_str());
        let mut j: usize = 0;
        while j < out.len() && lex_le_chars(&chars_of(out[j].0.as_str()), &key)
            invariant
                j <= out.len(),
                key@ == d.name@,
                forall|k: int| 0 <= k < j ==> lex_le(#[trigger] pair_views(out@)[k].0, d.name@),
            decreases out.len() - j,
        {
            assert(pair_views(out@)[j as int] == (out@[j as int].0@, out@[j as int].1@));
            j += 1;
        }
        let ghost before = pair_views(out@);
        proof {
            if j < out.len() {
                assert(before[j as int] == (out@[j as int].0@, out@[j as int].1@));
            }
            lemma_insert_by_name_at(before, (d.name@, d.content@), j as int);
        }
        out.insert(j, (d.name.clone(), d.content.clone()));
        assert(pair_views(out@) =~= before.insert(j as int, (d.name@, d.content@)));
        i += 1;
    }
    assert(documents@.take(documents.len() as int) =~= documents@);
    out
}

fn same_pairs(a: &Vec<(String, String)>, b: &Vec<(String, String)>) -> (r: bool)
    ensures
        r == (pair_views(a@) == pair_views(b@)),
{
    if a.len() != b.len() {
        assert(pair_views(a@).len() != pair_views(b@).len());
        return false;
    }
    let mut i: usize = 0;
    while i < a.len()
        invariant
            i <= a.len() == b.len(),
            forall|k: int| 0 <= k < i ==> pair_views(a@)[k] == #[trigger] pair_views(b@)[k],
        decreases a.len() - i,
    {
        assert(pair_views(a@)[i as int] == (a@[i as int].0@, a@[i as int].1@));
        assert(pair_views(b@)[i as int] == (b@[i as int].0@, b@[i as int].1@));
        if !str_eq(a[i].0.as_str(), b[i].0.as_str()) || !str_eq(a[i].1.as_str(), b[i].1.as_str()) {
            return false;
        }
        i += 1;
    }
    assert(pair_views(a@) =~= pair_views(b@));
    true
}

/// Whether two sets of prompt documents differ: their personas' or their
/// identities' (name, content) pairs differ once each list is put in its
/// stable order of names.
pub open spec fn documents_changed(current: PromptDocuments, candidate: PromptDocuments) -> bool {
    canonical_documents(current.personas@) != canonical_documents(candidate.personas@)
        || canonical_documents(current.identities@) != canonical_documents(candidate.identities@)
}

/// Whether two sets of prompt documents differ in the names or contents of
/// their personas or identities, whatever the order in which they are
/// listed.
pub fn prompt_documents_changed(current: &PromptDocuments, candidate: &PromptDocuments) -> (r: bool)
    ensures
        r == documents_changed(*current, *candidate),
{
    let a = canonical_prompt_documents(&current.personas);
    let b = canonical_prompt_documents(&candidate.personas);
    if !same_pairs(&a, &b) {
        return true;
    }
    let c = canonical_prompt_documents(&current.identities);
    let d = canonical_prompt_documents(&candidate.identities);
    !same_pairs(&c, &d)
}


/// A planned move of one persona scope in the state store.
pub struct ScopeRename {
    pub from: String,
    pub to: String,
}

/// The views of a list of scope moves.
pub open spec fn rename_views(v: Seq<ScopeRename>) -> Seq<(Seq<char>, Seq<char>)> {
    v.map_values(|r: ScopeRename| (r.from@, r.to@))
}

/// The moves of a migration, in order: every old scope to its temporary
/// name, then every temporary name to its new scope. Going through fresh
/// temporary names lets two personas swap scopes.
pub open spec fn migration_plan(renames: Seq<(Seq<char>, Seq<char>)>, temporaries: Seq<Seq<char>>) -> Seq<(Seq<char>, Seq<char>)> {
    Seq::new(renames.len(), |k: int| (renames[k].0, temporaries[k])) + Seq::new(
        renames.len(),
        |k: int| (temporaries[k], renames[k].1),
    )
}

/// The same moves backwards: last first, each from its target to its source.
pub open spec fn undo_moves(done: Seq<(Seq<char>, Seq<char>)>) -> Seq<(Seq<char>, Seq<char>)> {
    Seq::new(done.len(), |k: int| (done[done.len() - 1 - k].1, done[done.len() - 1 - k].0))
}

/// The temporary scope name of a migration step.
pub open spec fn temporary_scope(token: Seq<char>) -> Seq<char> {
    "persona-migration-"@ + token
}

/// The temporary scope names a migration moves through, one per token.
pub fn temporary_scopes(tokens: &Vec<String>) -> (r: Vec<String>)
    ensures
        r@.len() == tokens@.len(),
        forall|k: int| 0 <= k < tokens@.len() ==> (#[trigger] r@[k])@ == temporary_scope(tokens@[k]@),
{
    let mut out: Vec<String> = Vec::new();
    let mut k: usize = 0;
    while k < tokens.len()
        invariant
            k <= tokens.len(),
            out@.len() == k,
            forall|j: int| 0 <= j < k ==> (#[trigger] out@[j])@ == temporary_scope(tokens@[j]@),
        decreases tokens.len() - k,
    {
        let mut v = chars_of("persona-migration-");
        extend_str(&mut v, tokens[k].as_str());
        out.push(string_of(&v));
        k += 1;
    }
    out
}

fn push_move(out: &mut Vec<ScopeRename>, from: &String, to: &String)
    ensures
        rename_views(final(out)@) == rename_views(old(out)@).push((from@, to@)),
{
    let ghost before = rename_views(out@);
    out.push(ScopeRename { from: from.clone(), to: to.clone() });
    assert(rename_views(out@) =~= before.push((from@, to@)));
}

/// The moves of a migration of persona scopes (`renames` as old and new
/// scope, `temporaries` one fresh name each): all old scopes to their
/// temporary names, then all temporary names to their new scopes.
pub fn migration_steps(renames: &Vec<(String, String)>, temporaries: &Vec<String>) -> (r: Vec<ScopeRename>)
    requires
        temporaries.len() == renames.len(),
    ensures
        rename_views(r@) == migration_plan(
            pair_views(renames@),
            string_views(temporaries@),
        ),
{
    let ghost rv = pair_views(renames@);
    let ghost tv = string_views(temporaries@);
    let ghost plan = migration_plan(rv, tv);
    let n = renames.len();
    let mut out: Vec<ScopeRename> = Vec::new();
    let mut k: usize = 0;
    while k < n
        invariant
            k <= n == renames.len() == temporaries.len(),
            rv == pair_views(renames@),
            tv == string_views(temporaries@),
            plan == migration_plan(rv, tv),
            rename_views(out@) == plan.take(k as int),
        decreases n - k,
    {
        push_move(&mut out, &renames[k].0, &temporaries[k]);
        assert(plan[k as int] == (rv[k as int].0, tv[k as int]));
        assert(plan.take(k + 1) =~= plan.take(k as int).push(plan[k as int]));
        k += 1;
    }
    let mut k: usize = 0;
    while k < n
        invariant
            k <= n == renames.len() == temporaries.len(),
            rv == pair_views(renames@),
            tv == string_views(temporaries@),
            plan == migration_plan(rv, tv),
            plan.len() == 2 * n,
            rename_views(out@) == plan.take(n + k),
        decreases n - k,
    {
        push_move(&mut out, &temporaries[k], &renames[k].1);
        assert(plan[n + k] == (tv[k as int], rv[k as int].1));
        assert(plan.take(n + k + 1) =~= plan.take(n + k).push(plan[n + k]));
        k += 1;
    }
    assert(plan.take(2 * n) =~= plan);
    out
}

/// The moves that put the store back when step `failed` of the migration
/// fails: the steps done before it undone in reverse order.
pub fn migration_rollback(steps: &Vec<ScopeRename>, failed: usize) -> (r: Vec<ScopeRename>)
    requires
        failed <= steps.len(),
    ensures
        rename_views(r@) == undo_moves(rename_views(steps@).take(failed as int)),
{
    let ghost done = rename_views(steps@).take(failed as int);
    let ghost undo = undo_moves(done);
    let mut out: Vec<ScopeRename> = Vec::new();
    let mut k: usize = failed;
    while k > 0
        invariant
            k <= failed <= steps.len(),
            done == rename_views(steps@).take(failed as int),
            undo == undo_moves(done),
            rename_views(out@) == undo.take(failed - k),
        decreases k,
    {
        assert(undo[failed - k] == (steps@[k - 1].to@, steps@[k - 1].from@));
        push_move(&mut out, &steps[k - 1].to, &steps[k - 1].from);
        assert(undo.take(failed - k + 1) =~= undo.take(failed - k).push(undo[failed - k]));
        k -= 1;
    }
    assert(undo.take(failed as int) =~= undo);
    out
}

/// A migration that fails while moving scope `c` to its temporary name
/// moves the temporary names of the scopes before it back, last first; one
/// that fails while moving temporary name `f` to its new scope first moves
/// the new scopes before it back to their temporary names, last first, and
/// then every temporary name back to its old scope, last first.
pub proof fn law_rollback_follows_the_phases(
    renames: Seq<(Seq<char>, Seq<char>)>,
    temporaries: Seq<Seq<char>>,
    failed: int,
)
    requires
        temporaries.len() == renames.len(),
        0 <= failed < 2 * renames.len(),
    ensures
        failed < renames.len() ==> undo_moves(migration_plan(renames, temporaries).take(failed)) == Seq::new(
            failed as nat,
            |k: int| (temporaries[failed - 1 - k], renames[failed - 1 - k].0),
        ),
        failed >= renames.len() ==> ({
            let n = renames.len() as int;
            let f = failed - n;
            undo_moves(migration_plan(renames, temporaries).take(failed)) == Seq::new(
                f as nat,
                |k: int| (renames[f - 1 - k].1, temporaries[f - 1 - k]),
            ) + Seq::new(n as nat, |k: int| (temporaries[n - 1 - k], renames[n - 1 - k].0))
        }),
{
    let plan = migration_plan(renames, temporaries);
    let n = renames.len() as int;
    if failed < n {
        assert(undo_moves(plan.take(failed)) =~= Seq::new(
            failed as nat,
            |k: int| (temporaries[failed - 1 - k], renames[failed - 1 - k].0),
        ));
    } else {
        let f = failed - n;
        assert(undo_moves(plan.take(failed)) =~= Seq::new(
            f as nat,
            |k: int| (renames[f - 1 - k].1, temporaries[f - 1 - k]),
        ) + Seq::new(n as nat, |k: int| (temporaries[n - 1 - k], renames[n - 1 - k].0)));
    }
}

/// A persona scope migration that is rolled back unless committed.
pub struct PersonaDbRenameGuard {
    renames: Vec<(String, String)>,
    committed: bool,
}

impl PersonaDbRenameGuard {
    /// The scope moves the guard made (old scope, new scope).
    pub closed spec fn renames_view(&self) -> Seq<(Seq<char>, Seq<char>)> {
        pair_views(self.renames@)
    }

    /// Whether the guard was committed.
    pub closed spec fn is_committed(&self) -> bool {
        self.committed
    }

    /// A guard over the scope renames of a save: for each change of a
    /// persona to a new name (`scopes` holds the old and the new name's
    /// scopes), the pair of scopes, where they differ. Removals move no
    /// scope.
    pub fn new(scopes: &Vec<(String, Option<String>)>) -> (r: Self)
        ensures
            !r.is_committed(),
            r.renames_view() == scope_renames(change_views(scopes@)),
    {
        let mut renames: Vec<(String, String)> = Vec::new();
        let mut k: usize = 0;
        while k < scopes.len()
            invariant
                k <= scopes.len(),
                pair_views(renames@) == scope_renames(
                    change_views(scopes@).take(k as int),
                ),
            decreases scopes.len() - k,
        {
            let ghost t = change_views(scopes@).take(k + 1);
            assert(t.drop_last() =~= change_views(scopes@).take(k as int));
            assert(t.last() == (scopes@[k as int].0@, opt_chars(scopes@[k as int].1)));
            let ghost before = pair_views(renames@);
            match &scopes[k].1 {
                Some(new_scope) => if !str_eq(scopes[k].0.as_str(), new_scope.as_str()) {
                    renames.push((scopes[k].0.clone(), new_scope.clone()));
                    assert(pair_views(renames@) =~= before.push(
                        (scopes@[k as int].0@, new_scope@),
                    ));
                },
                None => {},
            }
            k += 1;
        }
        assert(change_views(scopes@).take(scopes.len() as int) =~= change_views(scopes@));
        PersonaDbRenameGuard { renames, committed: false }
    }

    /// The scope moves the migration makes.
    pub fn renames(&self) -> (r: &Vec<(String, String)>)
        ensures
            pair_views(r@) == self.renames_view(),
    {
        &self.renames
    }

    /// Keeps the migration.
    pub fn commit(&mut self)
        ensures
            final(self).is_committed(),
            final(self).renames_view() == old(self).renames_view(),
    {
        self.committed = true;
    }

    /// The moves that undo the migration when the guard is dropped
    /// uncommitted: each rename backwards, in the same order; none once
    /// committed.
    pub fn rollback_renames(&self) -> (r: Vec<(String, String)>)
        ensures
            pair_views(r@) == (if self.is_committed() {
                Seq::empty()
            } else {
                swapped_pairs(self.renames_view())
            }),
    {
        let mut out: Vec<(String, String)> = Vec::new();
        if self.committed {
            assert(pair_views(out@) =~= Seq::empty());
            return out;
        }
        let ghost want = swapped_pairs(pair_views(self.renames@));
        let mut k: usize = 0;
        while k < self.renames.len()
            invariant
                k <= self.renames.len(),
                want == swapped_pairs(pair_views(self.renames@)),
                want.len() == self.renames.len(),
                pair_views(out@) == want.take(k as int),
            decreases self.renames.len() - k,
        {
            let ghost before = pair_views(out@);
            out.push((self.renames[k].1.clone(), self.renames[k].0.clone()));
            assert(want[k as int] == (self.renames@[k as int].1@, self.renames@[k as int].0@));
            assert(pair_views(out@) =~= before.push(want[k as int]));
            assert(want.take(k + 1) =~= want.take(k as int).push(want[k as int]));
            k += 1;
        }
        assert(want.take(want.len() as int) =~= want);
        out
    }
}

/// Each pair with its two sides swapped, in the same order.
pub open spec fn swapped_pairs(v: Seq<(Seq<char>, Seq<char>)>) -> Seq<(Seq<char>, Seq<char>)> {
    Seq::new(v.len(), |k: int| (v[k].1, v[k].0))
}

/// The scope renames of a save's changes, given as old scope and new scope
/// (none for a removal): the pairs of different scopes, in order.
pub open spec fn scope_renames(changes: Seq<(Seq<char>, Option<Seq<char>>)>) -> Seq<(Seq<char>, Seq<char>)>
    decreases changes.len(),
{
    if changes.len() == 0 {
        seq![]
    } else {
        let before = scope_renames(changes.drop_last());
        let c = changes.last();
        match c.1 {
            Some(n) => if n != c.0 {
                before.push((c.0, n))
            } else {
                before
            },
            None => before,
        }
    }
}


/// Whether a directory entry is loaded as a prompt document: a file whose
/// name ends in `.md`, other than `system-prompt.md` (in any ASCII case)
/// among the personas.
pub open spec fn is_prompt_file(name: Seq<char>, is_file: bool, personas: bool) -> bool {
    is_file && has_suffix(name, ".md"@) && !(personas && eq_ignore_ascii_case(name, "system-prompt.md"@))
}

/// The names of the entries that are loaded, in directory order.
pub open spec fn prompt_file_names(entries: Seq<(Seq<char>, bool)>, personas: bool) -> Seq<Seq<char>>
    decreases entries.len(),
{
    if entries.len() == 0 {
        seq![]
    } else {
        let before = prompt_file_names(entries.drop_last(), personas);
        let e = entries.last();
        if is_prompt_file(e.0, e.1, personas) {
            before.push(e.0)
        } else {
            before
        }
    }
}

/// The views of directory entries (name, whether it is a file).
pub open spec fn entry_views(v: Seq<(String, bool)>) -> Seq<(Seq<char>, bool)> {
    v.map_values(|e: (String, bool)| (e.0@, e.1))
}

/// The prompt documents a directory holds, by name in ascending order:
/// `entries` lists the directory (name, whether it is a file), `personas`
/// whether it is the persona directory.
pub fn prompt_document_files(entries: &Vec<(String, bool)>, personas: bool) -> (r: Vec<String>)
    ensures
        vstd::relations::sorted_by(string_views(r@), |a: Seq<char>, b: Seq<char>| lex_le(a, b)),
        string_views(r@).to_multiset() == prompt_file_names(entry_views(entries@), personas).to_multiset(),
{
    let reserved = chars_of("system-prompt.md");
    let md = chars_of(".md");
    let mut names: Vec<Vec<char>> = Vec::new();
    let mut i: usize = 0;
    while i < entries.len()
        invariant
            i <= entries.len(),
            reserved@ == "system-prompt.md"@,
            md@ == ".md"@,
            char_views(names@) == prompt_file_names(entry_views(entries@).take(i as int), personas),
        decreases entries.len() - i,
    {
        let ghost t = entry_views(entries@).take(i + 1);
        assert(t.drop_last() =~= entry_views(entries@).take(i as int));
        assert(t.last() == (entries@[i as int].0@, entries@[i as int].1));
        let name = chars_of(entries[i].0.as_str());
        let keep = entries[i].1 && ends_with(&name, &md) && !(personas && ascii_case_eq(&name, &reserved));
        if keep {
            let ghost before = char_views(names@);
            names.push(name);
            assert(char_views(names@) =~= before.push(entries@[i as int].0@));
        }
        i += 1;
    }
    assert(entry_views(entries@).take(entries.len() as int) =~= entry_views(entries@));
    let sorted = sort_names(names);
    let mut out: Vec<String> = Vec::new();
    let mut k: usize = 0;
    while k < sorted.len()
        invariant
            k <= sorted.len(),
            string_views(out@) == char_views(sorted@).take(k as int),
        decreases sorted.len() - k,
    {
        let ghost before = string_views(out@);
        out.push(string_of(&sorted[k]));
        assert(string_views(out@) =~= before.push(char_views(sorted@)[k as int]));
        assert(char_views(sorted@).take(k + 1) =~= char_views(sorted@).take(k as int).push(
            char_views(sorted@)[k as int],
        ));
        k += 1;
    }
    assert(char_views(sorted@).take(sorted.len() as int) =~= char_views(sorted@));
    out
}


/// The (name, content) pairs of documents, in their order.
pub open spec fn doc_pairs(docs: Seq<PromptDocument>) -> Seq<(Seq<char>, Seq<char>)> {
    docs.map_values(|d: PromptDocument| (d.name@, d.content@))
}

/// Pairs in ascending order of names.
pub open spec fn sorted_by_name(p: Seq<(Seq<char>, Seq<char>)>) -> bool {
    forall|i: int, j: int| 0 <= i < j < p.len() ==> lex_le(#[trigger] p[i].0, #[trigger] p[j].0)
}

/// No two pairs share a name.
pub open spec fn distinct_names(p: Seq<(Seq<char>, Seq<char>)>) -> bool {
    forall|i: int, j: int| 0 <= i < j < p.len() ==> (#[trigger] p[i]).0 != (#[trigger] p[j]).0
}

/// Where [`insert_by_name`] puts a pair.
pub open spec fn insert_point(s: Seq<(Seq<char>, Seq<char>)>, x: (Seq<char>, Seq<char>)) -> int
    decreases s.len(),
{
    if s.len() == 0 {
        0
    } else if lex_le(s[0].0, x.0) {
        1 + insert_point(s.drop_first(), x)
    } else {
        0
    }
}

proof fn lemma_insert_point(s: Seq<(Seq<char>, Seq<char>)>, x: (Seq<char>, Seq<char>))
    ensures
        0 <= insert_point(s, x) <= s.len(),
        forall|k: int| 0 <= k < insert_point(s, x) ==> lex_le(#[trigger] s[k].0, x.0),
        insert_point(s, x) == s.len() || !lex_le(s[insert_point(s, x)].0, x.0),
        insert_by_name(s, x) == s.insert(insert_point(s, x), x),
    decreases s.len(),
{
    if s.len() > 0 && lex_le(s[0].0, x.0) {
        let t = s.drop_first();
        lemma_insert_point(t, x);
        assert forall|k: int| 0 <= k < insert_point(s, x) implies lex_le(#[trigger] s[k].0, x.0) by {
            if k > 0 {
                assert(s[k] == t[k - 1]);
            }
        }
        if insert_point(s, x) < s.len() {
            assert(s[insert_point(s, x)] == t[insert_point(t, x)]);
        }
    }
    lemma_insert_by_name_at(s, x, insert_point(s, x));
}

proof fn lemma_insert_sorted(s: Seq<(Seq<char>, Seq<char>)>, x: (Seq<char>, Seq<char>))
    requires
        sorted_by_name(s),
    ensures
        sorted_by_name(insert_by_name(s, x)),
        insert_by_name(s, x).to_multiset() == s.to_multiset().insert(x),
{
    lemma_insert_point(s, x);
    let j = insert_point(s, x);
    let r = s.insert(j, x);
    vstd::seq_lib::to_multiset_insert(s, j, x);
    assert forall|p: int, q: int| 0 <= p < q < r.len() implies lex_le(#[trigger] r[p].0, #[trigger] r[q].0) by {
        if q < j {
            assert(r[p] == s[p] && r[q] == s[q]);
        } else if q == j {
            assert(r[p] == s[p]);
        } else if p < j {
            assert(r[p] == s[p] && r[q] == s[q - 1]);
            lemma_lex_total(s[j].0, x.0);
            lemma_lex_trans(s[p].0, x.0, s[j].0);
            if j < q - 1 {
                lemma_lex_trans(s[p].0, s[j].0, s[q - 1].0);
            }
        } else if p == j {
            assert(r[q] == s[q - 1]);
            lemma_lex_total(s[j].0, x.0);
            if j < q - 1 {
                lemma_lex_trans(x.0, s[j].0, s[q - 1].0);
            }
        } else {
            assert(r[p] == s[p - 1] && r[q] == s[q - 1]);
        }
    }
}

/// The canonical form of a document list is sorted by name and holds
/// exactly the list's (name, content) pairs; with distinct names in the
/// list, it has distinct names too.
pub proof fn lemma_canonical(docs: Seq<PromptDocument>)
    ensures
        sorted_by_name(canonical_documents(docs)),
        canonical_documents(docs).to_multiset() == doc_pairs(docs).to_multiset(),
        distinct_names(doc_pairs(docs)) ==> distinct_names(canonical_documents(docs)),
    decreases docs.len(),
{
    if docs.len() == 0 {
        assert(doc_pairs(docs) =~= Seq::<(Seq<char>, Seq<char>)>::empty());
    } else {
        let t = docs.drop_last();
        let x = (docs.last().name@, docs.last().content@);
        let c = canonical_documents(t);
        lemma_canonical(t);
        lemma_insert_sorted(c, x);
        assert(doc_pairs(docs) =~= doc_pairs(t).push(x));
        vstd::seq_lib::to_multiset_build(doc_pairs(t), x);
        if distinct_names(doc_pairs(docs)) {
            let pt = doc_pairs(t);
            assert(distinct_names(pt)) by {
                assert forall|i: int, j: int| 0 <= i < j < pt.len() implies (#[trigger] pt[i]).0 != (#[trigger] pt[j]).0 by {
                    assert(pt[i] == doc_pairs(docs)[i] && pt[j] == doc_pairs(docs)[j]);
                }
            }
            lemma_insert_point(c, x);
            let j = insert_point(c, x);
            let r = c.insert(j, x);
            assert forall|k: int| 0 <= k < c.len() implies (#[trigger] c[k]).0 != x.0 by {
                vstd::seq_lib::to_multiset_contains(c, c[k]);
                assert(c.contains(c[k]));
                vstd::seq_lib::to_multiset_contains(pt, c[k]);
                let m = choose|m: int| 0 <= m < pt.len() && pt[m] == c[k];
                assert(doc_pairs(docs)[m] == pt[m]);
                assert(doc_pairs(docs)[docs.len() - 1] == x);
            }
            assert forall|p: int, q: int| 0 <= p < q < r.len() implies (#[trigger] r[p]).0 != (#[trigger] r[q]).0 by {
                if q < j {
                    assert(r[p] == c[p] && r[q] == c[q]);
                } else if q == j {
                    assert(r[p] == c[p]);
                } else if p < j {
                    assert(r[p] == c[p] && r[q] == c[q - 1]);
                } else if p == j {
                    assert(r[q] == c[q - 1]);
                } else {
                    assert(r[p] == c[p - 1] && r[q] == c[q - 1]);
                }
            }
        }
    }
}

proof fn lemma_sorted_unique(p: Seq<(Seq<char>, Seq<char>)>, q: Seq<(Seq<char>, Seq<char>)>)
    requires
        sorted_by_name(p),
        sorted_by_name(q),
        distinct_names(q),
        p.to_multiset() == q.to_multiset(),
    ensures
        p == q,
    decreases p.len(),
{
    vstd::seq_lib::to_multiset_len(p);
    vstd::seq_lib::to_multiset_len(q);
    if p.len() == 0 {
        assert(p =~= q);
    } else {
        vstd::seq_lib::to_multiset_contains(p, p[0]);
        vstd::seq_lib::to_multiset_contains(q, p[0]);
        vstd::seq_lib::to_multiset_contains(q, q[0]);
        vstd::seq_lib::to_multiset_contains(p, q[0]);
        assert(p.contains(p[0]));
        assert(q.contains(q[0]));
        let j = choose|j: int| 0 <= j < q.len() && q[j] == p[0];
        let i = choose|i: int| 0 <= i < p.len() && p[i] == q[0];
        if i > 0 {
            assert(lex_le(p[0].0, p[i].0));
        } else {
            lemma_lex_total(p[0].0, p[0].0);
        }
        if j > 0 {
            assert(lex_le(q[0].0, q[j].0));
        } else {
            lemma_lex_total(q[0].0, q[0].0);
        }
        lemma_lex_antisym(p[0].0, q[0].0);
        if j != 0 {
            assert(q[0].0 != q[j].0);
        }
        assert(p[0] == q[0]);
        let p1 = p.drop_first();
        let q1 = q.drop_first();
        vstd::seq_lib::to_multiset_remove(p, 0);
        vstd::seq_lib::to_multiset_remove(q, 0);
        assert(p.remove(0) =~= p1);
        assert(q.remove(0) =~= q1);
        assert(sorted_by_name(p1)) by {
            assert forall|a: int, b: int| 0 <= a < b < p1.len() implies lex_le(#[trigger] p1[a].0, #[trigger] p1[b].0) by {
                assert(p1[a] == p[a + 1] && p1[b] == p[b + 1]);
            }
        }
        assert(sorted_by_name(q1)) by {
            assert forall|a: int, b: int| 0 <= a < b < q1.len() implies lex_le(#[trigger] q1[a].0, #[trigger] q1[b].0) by {
                assert(q1[a] == q[a + 1] && q1[b] == q[b + 1]);
            }
        }
        assert(distinct_names(q1)) by {
            assert forall|a: int, b: int| 0 <= a < b < q1.len() implies (#[trigger] q1[a]).0 != (#[trigger] q1[b]).0 by {
                assert(q1[a] == q[a + 1] && q1[b] == q[b + 1]);
            }
        }
        lemma_sorted_unique(p1, q1);
        assert(p =~= seq![p[0]] + p1);
        assert(q =~= seq![q[0]] + q1);
    }
}

/// Listing the same documents in another order is no change: two lists with
/// the same (name, content) pairs, each name once, have the same canonical
/// form, so [`prompt_documents_changed`] reports no change between them.
pub proof fn law_order_does_not_matter(a: Seq<PromptDocument>, b: Seq<PromptDocument>)
    requires
        doc_pairs(a).to_multiset() == doc_pairs(b).to_multiset(),
        distinct_names(doc_pairs(b)),
    ensures
        canonical_documents(a) == canonical_documents(b),
{
    lemma_canonical(a);
    lemma_canonical(b);
    lemma_sorted_unique(canonical_documents(a), canonical_documents(b));
}


/// The canonical form of a list depends on its (name, content) pairs alone.
pub proof fn lemma_canonical_of_pairs(a: Seq<PromptDocument>, b: Seq<PromptDocument>)
    requires
        doc_pairs(a) == doc_pairs(b),
    ensures
        canonical_documents(a) == canonical_documents(b),
    decreases a.len(),
{
    assert(doc_pairs(a).len() == a.len() && doc_pairs(b).len() == b.len());
    if a.len() > 0 {
        assert(doc_pairs(a.drop_last()) =~= doc_pairs(a).drop_last());
        assert(doc_pairs(b.drop_last()) =~= doc_pairs(b).drop_last());
        lemma_canonical_of_pairs(a.drop_last(), b.drop_last());
        assert(doc_pairs(a)[a.len() - 1] == doc_pairs(b)[b.len() - 1]);
    }
}

/// Whether one set of documents changed against another does not depend on
/// which of the two is the current one.
pub proof fn law_changed_is_symmetric(c: PromptDocuments, d: PromptDocuments)
    ensures
        documents_changed(c, d) == documents_changed(d, c),
{
}

/// A document added, removed or edited is a change: when the personas', or
/// the identities', (name, content) pairs are not the same collection, the
/// two sets are reported changed.
pub proof fn law_edits_are_changes(c: PromptDocuments, d: PromptDocuments)
    requires
        doc_pairs(c.personas@).to_multiset() != doc_pairs(d.personas@).to_multiset()
            || doc_pairs(c.identities@).to_multiset() != doc_pairs(d.identities@).to_multiset(),
    ensures
        documents_changed(c, d),
{
    lemma_canonical(c.personas@);
    lemma_canonical(d.personas@);
    lemma_canonical(c.identities@);
    lemma_canonical(d.identities@);
}

/// Only names and contents count: two sets whose personas and identities
/// have the same (name, content) pairs in the same order are unchanged,
/// whatever their avatars, boards, placeholders or starter prompts; and with
/// each name once, listing them in another order is no change either.
pub proof fn law_only_names_and_contents_count(c: PromptDocuments, d: PromptDocuments)
    requires
        doc_pairs(c.personas@).to_multiset() == doc_pairs(d.personas@).to_multiset(),
        doc_pairs(c.identities@).to_multiset() == doc_pairs(d.identities@).to_multiset(),
        (doc_pairs(c.personas@) == doc_pairs(d.personas@)) || distinct_names(doc_pairs(d.personas@)),
        (doc_pairs(c.identities@) == doc_pairs(d.identities@)) || distinct_names(doc_pairs(d.identities@)),
    ensures
        !documents_changed(c, d),
{
    if doc_pairs(c.personas@) == doc_pairs(d.personas@) {
        lemma_canonical_of_pairs(c.personas@, d.personas@);
    } else {
        law_order_does_not_matter(c.personas@, d.personas@);
    }
    if doc_pairs(c.identities@) == doc_pairs(d.identities@) {
        lemma_canonical_of_pairs(c.identities@, d.identities@);
    } else {
        law_order_does_not_matter(c.identities@, d.identities@);
    }
}

proof fn lemma_no_document_error(kind: Seq<char>, docs: Seq<PromptDocument>, i: int)
    requires
        0 <= i,
        first_document_error(kind, docs, i) is None,
    ensures
        forall|j: int| i <= j < docs.len() ==> (#[trigger] document_error(kind, docs, j)) is None,
    decreases docs.len() - i,
{
    if i < docs.len() {
        lemma_no_document_error(kind, docs, i + 1);
    }
}

/// A list of documents that passes its checks has valid names, each name
/// once — so the order of its documents does not matter to
/// [`prompt_documents_changed`].
pub proof fn law_accepted_documents_have_distinct_names(kind: Seq<char>, docs: Seq<PromptDocument>)
    requires
        document_list_error(kind, docs) is None,
    ensures
        distinct_names(doc_pairs(docs)),
        forall|i: int| 0 <= i < docs.len() ==> is_valid_document_name(#[trigger] docs[i].name@),
{
    lemma_no_document_error(kind, docs, 0);
    let p = doc_pairs(docs);
    assert forall|i: int, j: int| 0 <= i < j < p.len() implies (#[trigger] p[i]).0 != (#[trigger] p[j]).0 by {
        assert(document_error(kind, docs, j) is None);
        assert(docs[i] == docs[i]);
        assert(p[i].0 == docs[i].name@ && p[j].0 == docs[j].name@);
        if p[i].0 == p[j].0 {
            assert(name_before(docs, j, docs[j].name@));
        }
    }
    assert forall|i: int| 0 <= i < docs.len() implies is_valid_document_name(#[trigger] docs[i].name@) by {
        assert(document_error(kind, docs, i) is None);
    }
}

} // verus!
