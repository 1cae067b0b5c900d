//! The shapes sent to the WebUI and the checks on what it sends: redaction of
//! internal assistant text, the label of an artifact, whether a meme's caption
//! is hidden, whether a tool call succeeded, and the validation of model
//! selections.
use crate::api::{api_error_is, ApiError, BAD_REQUEST, PAYLOAD_TOO_LARGE};
use crate::path::{extension, extension_seq};
use crate::sessions::AgentMode;
use crate::persona::opt_chars;
use crate::text::{
    any_control, chars_of, collapse_whitespace, collapse_ws_seq, contains, contains_seq,
    eq_str, extend_chars, extend_str, has_control, has_prefix, replace_all, replace_chars,
    replace_str, starts_with, str_eq, string_of, string_views, take_chars, trim_chars,
    trim_seq, trim_start_chars, trim_start_seq,
};
use vstd::prelude::*;

verus! {

/// The composer placeholder: "给 <persona> 发消息".
pub fn default_composer_placeholder(persona_name: &str) -> (r: String)
    ensures
        r@ == "给 "@ + persona_name@ + " 发消息"@,
{
    let mut v = chars_of("给 ");
    extend_str(&mut v, persona_name);
    extend_str(&mut v, " 发消息");
    string_of(&v)
}

/// What `serde_json` reads from a tool's output: `None` when it is not JSON;
/// otherwise the boolean values of its top-level `success` and `ok` fields
/// (`None` for a field that is missing or not a boolean).
pub uninterp spec fn json_outcome_flags(output: Seq<char>) -> Option<(Option<bool>, Option<bool>)>;

/// Reads the `success` and `ok` flags of a JSON tool output with
/// `serde_json::from_str`. Trusted: the result is named
/// [`json_outcome_flags`].
#[verifier::external_body]
fn outcome_flags(output: &str) -> (r: Option<(Option<bool>, Option<bool>)>)
    ensures
        r == json_outcome_flags(output@),
{
    match serde_json::from_str::<serde_json::Value>(output) {
        Ok(value) => Some((
            value.get("success").and_then(serde_json::Value::as_bool),
            value.get("ok").and_then(serde_json::Value::as_bool),
        )),
        Err(_) => None,
    }
}

/// A tool's business result failed: its output is JSON whose `success` or
/// `ok` is `false`.
pub open spec fn business_failure(flags: Option<(Option<bool>, Option<bool>)>) -> bool {
    match flags {
        Some((success, ok)) => success == Some(false) || ok == Some(false),
        None => false,
    }
}

/// Whether a tool call succeeded, read from its stored output: a hard
/// failure's output starts with `tool error:` (after leading whitespace); a
/// business failure is JSON with `success` or `ok` false.
pub open spec fn call_succeeded(output: Seq<char>, flags: Option<(Option<bool>, Option<bool>)>) -> bool {
    !has_prefix(trim_start_seq(output), "tool error:"@) && !business_failure(flags)
}

/// [`call_succeeded`] given the flags the JSON reading gave.
pub fn tool_call_outcome(output: &str, flags: Option<(Option<bool>, Option<bool>)>) -> (r: bool)
    ensures
        r == call_succeeded(output@, flags),
{
    let t = trim_start_chars(&chars_of(output));
    if starts_with(&t, &chars_of("tool error:")) {
        return false;
    }
    match flags {
        Some((success, ok)) => !(matches!(success, Some(false)) || matches!(ok, Some(false))),
        None => true,
    }
}

pub fn tool_call_succeeded(output: &str) -> (r: bool)
    ensures
        r == call_succeeded(output@, json_outcome_flags(output@)),
{
    let flags = outcome_flags(output);
    tool_call_outcome(output, flags)
}

/// One model endpoint the user may pick.
pub struct ModelChoice {
    pub provider_id: String,
    pub provider_name: String,
    pub model: String,
}

/// A model endpoint as the model picker shows it.
pub struct SafeModel {
    pub provider_id: String,
    pub provider_name: String,
    pub model: String,
    pub active: bool,
}

pub open spec fn pair_views(v: Seq<(String, String)>) -> Seq<(Seq<char>, Seq<char>)> {
    v.map_values(|p: (String, String)| (p.0@, p.1@))
}

/// Whether the pair is listed.
pub fn pair_listed_pub(pairs: &Vec<(String, String)>, a: &str, b: &str) -> (r: bool)
    ensures
        r == pair_views(pairs@).contains((a@, b@)),
{
    pair_listed(pairs, a, b)
}

fn pair_listed(pairs: &Vec<(String, String)>, a: &str, b: &str) -> (r: bool)
    ensures
        r == pair_views(pairs@).contains((a@, b@)),
{
    let mut i: usize = 0;
    while i < pairs.len()
        invariant
            i <= pairs.len(),
            forall|k: int| 0 <= k < i ==> pair_views(pairs@)[k] != (a@, b@),
        decreases pairs.len() - i,
    {
        assert(pair_views(pairs@)[i as int] == (pairs@[i as int].0@, pairs@[i as int].1@));
        if str_eq(pairs[i].0.as_str(), a) && str_eq(pairs[i].1.as_str(), b) {
            return true;
        }
        i += 1;
    }
    false
}

/// The model picker: every choice, in order, marked active when its
/// provider/model pair is in the active pool.
pub fn safe_models(choices: &Vec<ModelChoice>, active: &Vec<(String, String)>) -> (r: Vec<SafeModel>)
    ensures
        r@.len() == choices@.len(),
        forall|i: int|
            0 <= i < r@.len() ==> {
                &&& (#[trigger] r@[i]).provider_id@ == choices@[i].provider_id@
                &&& r@[i].provider_name@ == choices@[i].provider_name@
                &&& r@[i].model@ == choices@[i].model@
                &&& r@[i].active == pair_views(active@).contains(
                    (choices@[i].provider_id@, choices@[i].model@),
                )
            },
{
    let mut out: Vec<SafeModel> = Vec::new();
    let mut i: usize = 0;
    while i < choices.len()
        invariant
            i <= choices.len(),
            out@.len() == i,
            forall|k: int|
                0 <= k < i ==> {
                    &&& (#[trigger] out@[k]).provider_id@ == choices@[k].provider_id@
                    &&& out@[k].provider_name@ == choices@[k].provider_name@
                    &&& out@[k].model@ == choices@[k].model@
                    &&& out@[k].active == pair_views(active@).contains(
                        (choices@[k].provider_id@, choices@[k].model@),
                    )
                },
        decreases choices.len() - i,
    {
        let c = &choices[i];
        let m = SafeModel {
            active: pair_listed(active, c.provider_id.as_str(), c.model.as_str()),
            provider_id: c.provider_id.clone(),
            provider_name: c.provider_name.clone(),
            model: c.model.clone(),
        };
        out.push(m);
        i += 1;
    }
    out
}

/// The multimodal model picker: the same shape over the multimodal choices
/// and pool.
pub fn safe_multimodal_models(choices: &Vec<ModelChoice>, active: &Vec<(String, String)>) -> (r: Vec<SafeModel>)
    ensures
        r@.len() == choices@.len(),
        forall|i: int|
            0 <= i < r@.len() ==> {
                &&& (#[trigger] r@[i]).provider_id@ == choices@[i].provider_id@
                &&& r@[i].provider_name@ == choices@[i].provider_name@
                &&& r@[i].model@ == choices@[i].model@
                &&& r@[i].active == pair_views(active@).contains(
                    (choices@[i].provider_id@, choices@[i].model@),
                )
            },
{
    safe_models(choices, active)
}

/// The UTF-8 length of one character.
pub open spec fn utf8_len_char(c: char) -> nat {
    if (c as u32) < 0x80 {
        1
    } else if (c as u32) < 0x800 {
        2
    } else if (c as u32) < 0x10000 {
        3
    } else {
        4
    }
}

/// The UTF-8 length of a text (`str::len`).
pub open spec fn utf8_len(s: Seq<char>) -> nat
    decreases s.len(),
{
    if s.len() == 0 {
        0
    } else {
        utf8_len(s.drop_last()) + utf8_len_char(s.last())
    }
}

/// `char::to_ascii_uppercase`.
pub open spec fn upper_char(c: char) -> char {
    if 'a' <= c && c <= 'z' {
        ((c as u32 - 32) as u8) as char
    } else {
        c
    }
}

pub open spec fn ascii_upper(s: Seq<char>) -> Seq<char> {
    s.map_values(|c: char| upper_char(c))
}

/// The badge of an artifact: its extension in capitals, with `MARKDOWN` as
/// `MD` and `HTM` as `HTML`; an extension of more than 6 bytes, or none, is
/// `FILE`.
pub open spec fn type_label_of(source_key: Seq<char>) -> Seq<char> {
    let e = ascii_upper(
        match extension_seq(source_key) {
            Some(e) => e,
            None => Seq::empty(),
        },
    );
    if e == "MARKDOWN"@ {
        "MD"@
    } else if e == "HTML"@ || e == "HTM"@ {
        "HTML"@
    } else if e == "JSONL"@ {
        "JSONL"@
    } else if e == "JSON"@ {
        "JSON"@
    } else if e == "PDF"@ {
        "PDF"@
    } else if utf8_len(e) <= 6 && e.len() > 0 {
        e
    } else {
        "FILE"@
    }
}

fn utf8_width(c: char) -> (n: usize)
    ensures
        n == utf8_len_char(c),
{
    let v = c as u32;
    if v < 0x80 {
        1
    } else if v < 0x800 {
        2
    } else if v < 0x10000 {
        3
    } else {
        4
    }
}

#[verifier::loop_isolation(false)]
pub fn artifact_type_label(source_key: &str) -> (r: String)
    ensures
        r@ == type_label_of(source_key@),
{
    let ext = match extension(&chars_of(source_key)) {
        Some(e) => e,
        None => Vec::new(),
    };
    let mut up: Vec<char> = Vec::new();
    let mut bytes: usize = 0;
    let mut i: usize = 0;
    while i < ext.len()
        invariant
            i <= ext.len(),
            up@ == ascii_upper(ext@.take(i as int)),
            (bytes <= 6 && bytes == utf8_len(up@)) || (bytes == 7 && utf8_len(up@) > 6),
        decreases ext.len() - i,
    {
        let c = ext[i];
        let u = if 'a' <= c && c <= 'z' {
            ((c as u32 - 32) as u8) as char
        } else {
            c
        };
        let ghost before = up@;
        up.push(u);
        assert(up@ =~= ascii_upper(ext@.take(i + 1)));
        assert(up@.drop_last() =~= before);
        let w = utf8_width(u);
        bytes = if bytes + w > 6 {
            7
        } else {
            bytes + w
        };
        i += 1;
    }
    assert(ext@.take(ext.len() as int) =~= ext@);
    proof {
        reveal_strlit("MD");
        reveal_strlit("HTML");
        reveal_strlit("JSONL");
        reveal_strlit("JSON");
        reveal_strlit("PDF");
        reveal_strlit("FILE");
    }
    if eq_str(&up, "MARKDOWN") {
        "MD".to_owned()
    } else if eq_str(&up, "HTML") || eq_str(&up, "HTM") {
        "HTML".to_owned()
    } else if eq_str(&up, "JSONL") {
        "JSONL".to_owned()
    } else if eq_str(&up, "JSON") {
        "JSON".to_owned()
    } else if eq_str(&up, "PDF") {
        "PDF".to_owned()
    } else if bytes <= 6 && up.len() > 0 {
        string_of(&up)
    } else {
        "FILE".to_owned()
    }
}

/// How long an image description is before it is cut in the meme report.
pub const MAX_DESCRIPTION_CHARS: usize = 120;

/// The description as the meme report writes it: whitespace collapsed, cut to
/// 120 characters with `…` when longer, and `&`, `<`, `>` escaped.
pub open spec fn report_description(alt: Seq<char>) -> Seq<char> {
    let d = collapse_ws_seq(alt);
    let compact = if d.len() > MAX_DESCRIPTION_CHARS {
        d.take(MAX_DESCRIPTION_CHARS as int).push('…')
    } else {
        d
    };
    replace_all(replace_all(replace_all(compact, "&"@, "&amp;"@), "<"@, "&lt;"@), ">"@, "&gt;"@)
}

/// A meme's caption is hidden when one of the turn's tool reports is the
/// sent-meme report of this very description.
pub open spec fn caption_hidden(alt: Seq<char>, reports: Seq<Seq<char>>) -> bool {
    collapse_ws_seq(alt).len() > 0 && exists|i: int|
        0 <= i < reports.len() && has_prefix(#[trigger] reports[i], "<sent_meme>"@) && contains_seq(
            reports[i],
            "description="@ + report_description(alt) + "</sent_meme>"@,
        )
}

#[verifier::loop_isolation(false)]
pub fn meme_asset_caption_hidden(alt: &str, reports: &Vec<String>) -> (r: bool)
    ensures
        r == caption_hidden(alt@, string_views(reports@)),
{
    let d = collapse_whitespace(&chars_of(alt));
    if d.len() == 0 {
        return false;
    }
    let mut compact = take_chars(&d, MAX_DESCRIPTION_CHARS);
    if d.len() > MAX_DESCRIPTION_CHARS {
        compact.push('…');
    }
    proof {
        reveal_strlit("&");
        reveal_strlit("<");
        reveal_strlit(">");
    }
    let a = replace_chars(&compact, &chars_of("&"), &chars_of("&amp;"));
    let b = replace_chars(&a, &chars_of("<"), &chars_of("&lt;"));
    let escaped = replace_chars(&b, &chars_of(">"), &chars_of("&gt;"));
    let mut marker = chars_of("description=");
    extend_chars(&mut marker, &escaped);
    extend_str(&mut marker, "</sent_meme>");
    let ghost views = string_views(reports@);
    let head = chars_of("<sent_meme>");
    let mut i: usize = 0;
    while i < reports.len()
        invariant
            i <= reports.len(),
            forall|k: int|
                0 <= k < i ==> !(has_prefix(#[trigger] views[k], "<sent_meme>"@) && contains_seq(
                    views[k],
                    "description="@ + report_description(alt@) + "</sent_meme>"@,
                )),
        decreases reports.len() - i,
    {
        let rep = chars_of(reports[i].as_str());
        assert(views[i as int] == rep@);
        if starts_with(&rep, &head) && contains(&rep, &marker) {
            return true;
        }
        i += 1;
    }
    false
}

/// Assistant text with the internal pending placeholder and interruption
/// marker removed. `pending` and `interrupted` are those two texts.
pub open spec fn redacted(value: Seq<char>, pending: Seq<char>, interrupted: Seq<char>) -> Seq<char> {
    replace_all(replace_all(value, pending, Seq::empty()), interrupted, Seq::empty())
}

pub fn redact_internal_assistant_text(value: &str, pending: &str, interrupted: &str) -> (r: String)
    ensures
        r@ == redacted(value@, pending@, interrupted@),
{
    let v = chars_of(value);
    let p = chars_of(pending);
    let it = chars_of(interrupted);
    let empty: Vec<char> = Vec::new();
    let a = if p.len() > 0 {
        replace_chars(&v, &p, &empty)
    } else {
        v
    };
    let b = if it.len() > 0 {
        replace_chars(&a, &it, &empty)
    } else {
        a
    };
    assert(empty@ =~= Seq::<char>::empty());
    string_of(&b)
}

/// How a short text field is checked: trimmed; empty is refused; longer than
/// `max_chars` characters or holding a control character is invalid.
pub open spec fn short_field_outcome(value: Seq<char>, max_chars: nat) -> Result<Seq<char>, u8> {
    let t = trim_seq(value);
    if t.len() == 0 {
        Err(0u8)
    } else if t.len() > max_chars || has_control(t) {
        Err(1u8)
    } else {
        Ok(t)
    }
}

/// The trimmed field, or `400 <field> cannot be empty` / `400 <field> is
/// invalid`.
pub fn validate_short_field(value: &str, field: &str, max_chars: usize) -> (r: Result<String, ApiError>)
    ensures
        match (r, short_field_outcome(value@, max_chars as nat)) {
            (Ok(v), Ok(t)) => v@ == t,
            (Err(e), Err(0u8)) => api_error_is(e, BAD_REQUEST, field@ + " cannot be empty"@),
            (Err(e), Err(1u8)) => api_error_is(e, BAD_REQUEST, field@ + " is invalid"@),
            _ => false,
        },
{
    let t = trim_chars(&chars_of(value));
    if t.len() == 0 {
        let mut m = chars_of(field);
        extend_str(&mut m, " cannot be empty");
        return Err(ApiError { status: BAD_REQUEST, message: string_of(&m) });
    }
    if t.len() > max_chars || any_control(&t) {
        let mut m = chars_of(field);
        extend_str(&mut m, " is invalid");
        return Err(ApiError { status: BAD_REQUEST, message: string_of(&m) });
    }
    Ok(string_of(&t))
}

/// The outcome of checking one provider/model pair: the checked pair, or the
/// error of the first field that fails.
pub open spec fn pair_outcome(provider_id: Seq<char>, model: Seq<char>) -> Result<(Seq<char>, Seq<char>), (u8, Seq<char>)> {
    match short_field_outcome(provider_id, 200) {
        Err(k) => Err((k, "provider_id"@)),
        Ok(p) => match short_field_outcome(model, 500) {
            Err(k) => Err((k, "model"@)),
            Ok(m) => Ok((p, m)),
        },
    }
}

/// The error message of a failed field check.
pub open spec fn field_message(k: u8, field: Seq<char>) -> Seq<char> {
    if k == 0 {
        field + " cannot be empty"@
    } else {
        field + " is invalid"@
    }
}

/// The outcome of checking a model selection from the `i`-th pair on, given
/// the checked pairs before it: each pair checked, a repeated pair refused.
pub open spec fn selection_from(
    pairs: Seq<(Seq<char>, Seq<char>)>,
    i: int,
    seen: Seq<(Seq<char>, Seq<char>)>,
) -> Result<Seq<(Seq<char>, Seq<char>)>, (u16, Seq<char>)>
    decreases pairs.len() - i,
{
    if i < 0 || i >= pairs.len() {
        Ok(seen)
    } else {
        match pair_outcome(pairs[i].0, pairs[i].1) {
            Err((k, f)) => Err((BAD_REQUEST, field_message(k, f))),
            Ok(p) => if seen.contains(p) {
                Err((BAD_REQUEST, "duplicate provider/model selection"@))
            } else {
                selection_from(pairs, i + 1, seen.push(p))
            },
        }
    }
}

/// The outcome of a model selection: at least one and at most 64 endpoints,
/// each checked, none twice.
pub open spec fn selection_outcome(pairs: Seq<(Seq<char>, Seq<char>)>) -> Result<Seq<(Seq<char>, Seq<char>)>, (u16, Seq<char>)> {
    if pairs.len() == 0 {
        Err((BAD_REQUEST, "at least one model endpoint must remain active"@))
    } else if pairs.len() > 64 {
        Err((PAYLOAD_TOO_LARGE, "at most 64 model endpoints can be active"@))
    } else {
        selection_from(pairs, 0, Seq::empty())
    }
}

fn seen_contains(seen: &Vec<(String, String)>, p: &String, m: &String) -> (r: bool)
    ensures
        r == pair_views(seen@).contains((p@, m@)),
{
    pair_listed(seen, p.as_str(), m.as_str())
}

#[verifier::loop_isolation(false)]
pub fn validate_model_selection(models: Vec<(String, String)>) -> (r: Result<Vec<(String, String)>, ApiError>)
    ensures
        match (r, selection_outcome(pair_views(models@))) {
            (Ok(v), Ok(s)) => pair_views(v@) == s,
            (Err(e), Err((status, message))) => e.status == status && e.message@ == message,
            _ => false,
        },
{
    let ghost pairs = pair_views(models@);
    if models.len() == 0 {
        return Err(ApiError::new(BAD_REQUEST, "at least one model endpoint must remain active"));
    }
    if models.len() > 64 {
        return Err(ApiError::new(PAYLOAD_TOO_LARGE, "at most 64 model endpoints can be active"));
    }
    let mut validated: Vec<(String, String)> = Vec::new();
    let mut i: usize = 0;
    assert(pair_views(validated@) =~= Seq::<(Seq<char>, Seq<char>)>::empty());
    while i < models.len()
        invariant
            i <= models.len(),
            selection_outcome(pairs) == selection_from(pairs, i as int, pair_views(validated@)),
        decreases models.len() - i,
    {
        assert(pairs[i as int] == (models@[i as int].0@, models@[i as int].1@));
        let p = match validate_short_field(models[i].0.as_str(), "provider_id", 200) {
            Ok(p) => p,
            Err(e) => return Err(e),
        };
        let m = match validate_short_field(models[i].1.as_str(), "model", 500) {
            Ok(m) => m,
            Err(e) => return Err(e),
        };
        if seen_contains(&validated, &p, &m) {
            return Err(ApiError::new(BAD_REQUEST, "duplicate provider/model selection"));
        }
        let ghost before = pair_views(validated@);
        validated.push((p, m));
        assert(pair_views(validated@) =~= before.push((p@, m@)));
        i += 1;
    }
    Ok(validated)
}

/// One requested change of the thinking variant of a model.
pub struct ThinkingVariantUpdate {
    pub provider_id: String,
    pub model: String,
    pub selected: Option<String>,
}

pub open spec fn update_view(u: ThinkingVariantUpdate) -> (Seq<char>, Seq<char>, Option<Seq<char>>) {
    (
        u.provider_id@,
        u.model@,
        match u.selected {
            Some(s) => Some(s@),
            None => None,
        },
    )
}

pub open spec fn updates_view(v: Seq<ThinkingVariantUpdate>) -> Seq<(Seq<char>, Seq<char>, Option<Seq<char>>)> {
    v.map_values(|u: ThinkingVariantUpdate| update_view(u))
}

/// At most this many thinking variants can be changed at once.
pub const MAX_THINKING_VARIANT_UPDATES: usize = 64;

/// The outcome of checking the updates from the `i`-th on: each field
/// checked in order (the selected variant, when given, as a field of at most
/// 200 characters), a repeated provider/model pair refused.
pub open spec fn updates_from(
    ups: Seq<(Seq<char>, Seq<char>, Option<Seq<char>>)>,
    i: int,
    seen: Seq<(Seq<char>, Seq<char>, Option<Seq<char>>)>,
) -> Result<Seq<(Seq<char>, Seq<char>, Option<Seq<char>>)>, (u16, Seq<char>)>
    decreases ups.len() - i,
{
    if i < 0 || i >= ups.len() {
        Ok(seen)
    } else {
        match pair_outcome(ups[i].0, ups[i].1) {
            Err((k, f)) => Err((BAD_REQUEST, field_message(k, f))),
            Ok((p, m)) => {
                let sel = match ups[i].2 {
                    None => Ok(None),
                    Some(s) => match short_field_outcome(s, 200) {
                        Ok(t) => Ok(Some(t)),
                        Err(k) => Err(k),
                    },
                };
                match sel {
                    Err(k) => Err((BAD_REQUEST, field_message(k, "selected"@))),
                    Ok(sv) => if exists|j: int| 0 <= j < seen.len() && #[trigger] seen[j].0 == p && seen[j].1 == m {
                        Err((BAD_REQUEST, "duplicate provider/model thinking variant update"@))
                    } else {
                        updates_from(ups, i + 1, seen.push((p, m, sv)))
                    },
                }
            },
        }
    }
}

pub open spec fn thinking_updates_outcome(ups: Seq<(Seq<char>, Seq<char>, Option<Seq<char>>)>) -> Result<Seq<(Seq<char>, Seq<char>, Option<Seq<char>>)>, (u16, Seq<char>)> {
    if ups.len() == 0 {
        Err((BAD_REQUEST, "at least one thinking variant update is required"@))
    } else if ups.len() > MAX_THINKING_VARIANT_UPDATES {
        Err((PAYLOAD_TOO_LARGE, "at most 64 thinking variants can be updated"@))
    } else {
        updates_from(ups, 0, Seq::empty())
    }
}

fn seen_update(seen: &Vec<ThinkingVariantUpdate>, p: &String, m: &String) -> (r: bool)
    ensures
        r == exists|j: int| 0 <= j < seen@.len() && #[trigger] updates_view(seen@)[j].0 == p@ && updates_view(seen@)[j].1 == m@,
{
    let mut i: usize = 0;
    while i < seen.len()
        invariant
            i <= seen.len(),
            forall|k: int| 0 <= k < i ==> !(#[trigger] updates_view(seen@)[k].0 == p@ && updates_view(seen@)[k].1 == m@),
        decreases seen.len() - i,
    {
        assert(updates_view(seen@)[i as int] == update_view(seen@[i as int]));
        if str_eq(seen[i].provider_id.as_str(), p.as_str()) && str_eq(seen[i].model.as_str(), m.as_str()) {
            assert(updates_view(seen@)[i as int].0 == p@ && updates_view(seen@)[i as int].1 == m@);
            return true;
        }
        i += 1;
    }
    false
}

#[verifier::loop_isolation(false)]
pub fn validate_thinking_variant_updates(updates: Vec<ThinkingVariantUpdate>) -> (r: Result<Vec<ThinkingVariantUpdate>, ApiError>)
    ensures
        match (r, thinking_updates_outcome(updates_view(updates@))) {
            (Ok(v), Ok(s)) => updates_view(v@) == s,
            (Err(e), Err((status, message))) => e.status == status && e.message@ == message,
            _ => false,
        },
{
    let ghost ups = updates_view(updates@);
    if updates.len() == 0 {
        return Err(ApiError::new(BAD_REQUEST, "at least one thinking variant update is required"));
    }
    if updates.len() > MAX_THINKING_VARIANT_UPDATES {
        return Err(ApiError::new(PAYLOAD_TOO_LARGE, "at most 64 thinking variants can be updated"));
    }
    let mut validated: Vec<ThinkingVariantUpdate> = Vec::new();
    let mut i: usize = 0;
    assert(updates_view(validated@) =~= Seq::<(Seq<char>, Seq<char>, Option<Seq<char>>)>::empty());
    while i < updates.len()
        invariant
            i <= updates.len(),
            validated@.len() == updates_view(validated@).len(),
            thinking_updates_outcome(ups) == updates_from(ups, i as int, updates_view(validated@)),
        decreases updates.len() - i,
    {
        let u = &updates[i];
        assert(ups[i as int] == update_view(updates@[i as int]));
        let p = match validate_short_field(u.provider_id.as_str(), "provider_id", 200) {
            Ok(p) => p,
            Err(e) => return Err(e),
        };
        let m = match validate_short_field(u.model.as_str(), "model", 500) {
            Ok(m) => m,
            Err(e) => return Err(e),
        };
        let selected = match &u.selected {
            None => None,
            Some(s) => match validate_short_field(s.as_str(), "selected", 200) {
                Ok(t) => Some(t),
                Err(e) => return Err(e),
            },
        };
        if seen_update(&validated, &p, &m) {
            return Err(ApiError::new(BAD_REQUEST, "duplicate provider/model thinking variant update"));
        }
        let ghost before = updates_view(validated@);
        let item = ThinkingVariantUpdate { provider_id: p, model: m, selected };
        validated.push(item);
        assert(updates_view(validated@) =~= before.push(update_view(item)));
        i += 1;
    }
    Ok(validated)
}

/// The mode a stored mode name stands for: `normal`, and the retired `plan`
/// and `chat`, are Normal; `dev` is Dev; anything else is refused.
pub open spec fn mode_of(name: Seq<char>) -> Option<AgentMode> {
    if name == "normal"@ || name == "plan"@ || name == "chat"@ {
        Some(AgentMode::Normal)
    } else if name == "dev"@ {
        Some(AgentMode::Dev)
    } else {
        None
    }
}

pub fn parse_mode(mode: &str) -> (r: Result<AgentMode, ApiError>)
    ensures
        match r {
            Ok(m) => mode_of(mode@) == Some(m),
            Err(e) => mode_of(mode@) is None && api_error_is(e, BAD_REQUEST, "mode must be normal or dev"@),
        },
{
    if str_eq(mode, "normal") || str_eq(mode, "plan") || str_eq(mode, "chat") {
        Ok(AgentMode::Normal)
    } else if str_eq(mode, "dev") {
        Ok(AgentMode::Dev)
    } else {
        Err(ApiError::new(BAD_REQUEST, "mode must be normal or dev"))
    }
}

pub fn mode_name(mode: AgentMode) -> (r: &'static str)
    ensures
        r@ == match mode {
            AgentMode::Normal => "normal"@,
            AgentMode::Dev => "dev"@,
        },
{
    match mode {
        AgentMode::Normal => "normal",
        AgentMode::Dev => "dev",
    }
}

/// The tool behind an event name: `use_meme:…`, `load_skill:…` and
/// `load_tools:…` events are those three tools; other names are tools.
pub open spec fn real_tool_of(event: Seq<char>) -> Seq<char> {
    if has_prefix(event, "use_meme:"@) {
        "use_meme"@
    } else if has_prefix(event, "load_skill:"@) {
        "load_skill"@
    } else if has_prefix(event, "load_tools:"@) {
        "load_tools"@
    } else {
        event
    }
}

pub fn real_tool_name(event_name: &str) -> (r: &str)
    ensures
        r@ == real_tool_of(event_name@),
{
    let v = chars_of(event_name);
    if starts_with(&v, &chars_of("use_meme:")) {
        "use_meme"
    } else if starts_with(&v, &chars_of("load_skill:")) {
        "load_skill"
    } else if starts_with(&v, &chars_of("load_tools:")) {
        "load_tools"
    } else {
        event_name
    }
}

/// A stored image of a turn.
pub struct ImageAsset {
    pub asset_id: String,
    pub mime: String,
    pub width: u32,
    pub height: u32,
    pub alt: String,
}

/// An image as the WebUI gets it.
pub struct SafeImageAsset {
    pub id: String,
    pub url: String,
    pub mime: String,
    pub width: u32,
    pub height: u32,
    pub alt: String,
    pub hide_caption: bool,
}

/// The WebUI's form of an image: its id, its URL under `/api/assets/`,
/// its type, size and description, and whether its caption is hidden.
pub open spec fn safe_image_of(r: SafeImageAsset, asset: ImageAsset, hide_caption: bool) -> bool {
    &&& r.id@ == asset.asset_id@
    &&& r.url@ == "/api/assets/"@ + asset.asset_id@
    &&& r.mime@ == asset.mime@
    &&& r.width == asset.width
    &&& r.height == asset.height
    &&& r.alt@ == asset.alt@
    &&& r.hide_caption == hide_caption
}

/// The WebUI's form of an artifact: its id, its URL under
/// `/api/artifacts/`, its file name, type, kind, badge, size and time.
pub open spec fn safe_artifact_of(r: SafeArtifactAsset, asset: ArtifactAsset) -> bool {
    &&& r.id@ == asset.asset_id@
    &&& r.url@ == "/api/artifacts/"@ + asset.asset_id@
    &&& r.name@ == asset.file_name@
    &&& r.mime@ == asset.mime@
    &&& r.kind@ == asset.kind@
    &&& r.type_label@ == type_label_of(asset.source_key@)
    &&& r.size == asset.size_bytes
    &&& r.updated_at@ == asset.updated_at@
}

impl SafeImageAsset {
    /// The image with its URL under `/api/assets/`.
    pub fn from_asset(asset: ImageAsset, hide_caption: bool) -> (r: SafeImageAsset)
        ensures
            r.id@ == asset.asset_id@,
            r.url@ == "/api/assets/"@ + asset.asset_id@,
            r.mime@ == asset.mime@,
            r.width == asset.width,
            r.height == asset.height,
            r.alt@ == asset.alt@,
            r.hide_caption == hide_caption,
    {
        let mut url = chars_of("/api/assets/");
        extend_str(&mut url, asset.asset_id.as_str());
        SafeImageAsset {
            url: string_of(&url),
            id: asset.asset_id,
            mime: asset.mime,
            width: asset.width,
            height: asset.height,
            alt: asset.alt,
            hide_caption,
        }
    }
}

/// A stored artifact of a turn.
pub struct ArtifactAsset {
    pub asset_id: String,
    pub file_name: String,
    pub mime: String,
    pub kind: String,
    pub source_key: String,
    pub size_bytes: u64,
    pub updated_at: String,
}

/// An artifact as the WebUI gets it.
pub struct SafeArtifactAsset {
    pub id: String,
    pub url: String,
    pub name: String,
    pub mime: String,
    pub kind: String,
    pub type_label: String,
    pub size: u64,
    pub updated_at: String,
}

impl SafeArtifactAsset {
    /// The artifact with its URL under `/api/artifacts/` and its badge.
    pub fn from_asset(asset: ArtifactAsset) -> (r: SafeArtifactAsset)
        ensures
            r.id@ == asset.asset_id@,
            r.url@ == "/api/artifacts/"@ + asset.asset_id@,
            r.name@ == asset.file_name@,
            r.mime@ == asset.mime@,
            r.kind@ == asset.kind@,
            r.type_label@ == type_label_of(asset.source_key@),
            r.size == asset.size_bytes,
            r.updated_at@ == asset.updated_at@,
    {
        let mut url = chars_of("/api/artifacts/");
        extend_str(&mut url, asset.asset_id.as_str());
        let type_label = artifact_type_label(asset.source_key.as_str());
        SafeArtifactAsset {
            url: string_of(&url),
            id: asset.asset_id,
            name: asset.file_name,
            mime: asset.mime,
            kind: asset.kind,
            type_label,
            size: asset.size_bytes,
            updated_at: asset.updated_at,
        }
    }
}

/// A file a user attached to a prompt.
pub struct UserAttachment {
    pub attachment_id: String,
    pub file_name: String,
    pub mime: String,
    pub kind: String,
    pub size_bytes: u64,
    pub width: Option<u32>,
    pub height: Option<u32>,
}

/// An attachment as the WebUI gets it.
pub struct SafeUserAttachment {
    pub url: String,
    pub id: String,
    pub name: String,
    pub mime: String,
    pub kind: String,
    pub size: u64,
    pub width: Option<u32>,
    pub height: Option<u32>,
}

/// `r` shows `a`: under its URL in `/api/attachments/`, with its name,
/// type, kind, size and dimensions.
pub open spec fn safe_attachment_of(r: SafeUserAttachment, a: UserAttachment) -> bool {
    &&& r.url@ == "/api/attachments/"@ + a.attachment_id@
    &&& r.id@ == a.attachment_id@
    &&& r.name@ == a.file_name@
    &&& r.mime@ == a.mime@
    &&& r.kind@ == a.kind@
    &&& r.size == a.size_bytes
    &&& r.width == a.width
    &&& r.height == a.height
}

impl SafeUserAttachment {
    pub fn from_attachment(a: UserAttachment) -> (r: SafeUserAttachment)
        ensures
            safe_attachment_of(r, a),
    {
        let mut url = chars_of("/api/attachments/");
        extend_str(&mut url, a.attachment_id.as_str());
        SafeUserAttachment {
            url: string_of(&url),
            id: a.attachment_id,
            name: a.file_name,
            mime: a.mime,
            kind: a.kind,
            size: a.size_bytes,
            width: a.width,
            height: a.height,
        }
    }
}

/// Every attachment shown, in order.
pub open spec fn safe_attachments_of(r: Seq<SafeUserAttachment>, a: Seq<UserAttachment>) -> bool {
    r.len() == a.len() && forall|i: int| 0 <= i < r.len() ==> safe_attachment_of(#[trigger] r[i], a[i])
}

fn safe_attachments(attachments: Vec<UserAttachment>) -> (r: Vec<SafeUserAttachment>)
    ensures
        safe_attachments_of(r@, attachments@),
{
    let ghost input = attachments@;
    let mut rest = attachments;
    let mut out: Vec<SafeUserAttachment> = Vec::new();
    let n = rest.len();
    while rest.len() > 0
        invariant
            out@.len() + rest@.len() == n,
            n == input.len(),
            rest@ == input.skip(out@.len() as int),
            forall|i: int| 0 <= i < out@.len() ==> safe_attachment_of(#[trigger] out@[i], input[i]),
        decreases rest.len(),
    {
        let a = rest.remove(0);
        assert(a == input[out@.len() as int]);
        let k = out.len();
        out.push(SafeUserAttachment::from_attachment(a));
        assert(input.skip(out@.len() as int) =~= input.skip(k as int).drop_first());
    }
    out
}

/// A tool call of a stored round; `rest` carries its arguments, times and
/// sub-trace as they are.
pub struct ToolCall<X> {
    pub id: String,
    pub name: String,
    pub output: String,
    pub rest: X,
}

/// A tool call as the WebUI gets it: with its readable name and whether it
/// succeeded.
pub struct SafeToolCall<X> {
    pub display_name: String,
    pub ok: bool,
    pub id: String,
    pub name: String,
    pub output: String,
    pub rest: X,
}

impl<X> SafeToolCall<X> {
    /// The call shown under `display_name` (the tool's readable name), its
    /// success read from its output.
    pub fn from_call(call: ToolCall<X>, display_name: String) -> (r: SafeToolCall<X>)
        ensures
            r.display_name@ == display_name@,
            r.ok == call_succeeded(call.output@, json_outcome_flags(call.output@)),
            r.id@ == call.id@,
            r.name@ == call.name@,
            r.output@ == call.output@,
            r.rest == call.rest,
    {
        let ok = tool_call_succeeded(call.output.as_str());
        SafeToolCall { display_name, ok, id: call.id, name: call.name, output: call.output, rest: call.rest }
    }
}

/// A prompt queued into a running turn.
pub struct QueuedPrompt {
    pub prompt_id: String,
    pub display_content: String,
    pub submitted_at: String,
    pub uploaded_attachments: Vec<UserAttachment>,
}

/// A queued prompt as the WebUI gets it.
pub struct SafeQueuedPrompt {
    pub id: String,
    pub content: String,
    pub submitted_at: String,
    pub attachments: Vec<SafeUserAttachment>,
}

impl SafeQueuedPrompt {
    /// The prompt as it was shown when sent, with its attachments.
    pub fn from_prompt(p: QueuedPrompt) -> (r: SafeQueuedPrompt)
        ensures
            r.id@ == p.prompt_id@,
            r.content@ == p.display_content@,
            r.submitted_at@ == p.submitted_at@,
            safe_attachments_of(r.attachments@, p.uploaded_attachments@),
    {
        SafeQueuedPrompt {
            id: p.prompt_id,
            content: p.display_content,
            submitted_at: p.submitted_at,
            attachments: safe_attachments(p.uploaded_attachments),
        }
    }
}

/// A follow-up the user sent during a turn, with what the assistant had
/// said just before it.
pub struct TurnFollowup {
    pub prompt_id: String,
    pub display_content: String,
    pub submitted_at: String,
    pub preceding_assistant_content: Option<String>,
    pub preceding_assistant_reasoning: Option<String>,
    pub preceding_assistant_provider_id: Option<String>,
    pub preceding_assistant_model: Option<String>,
    pub uploaded_attachments: Vec<UserAttachment>,
}

/// A follow-up as the WebUI gets it.
pub struct SafeFollowup {
    pub id: String,
    pub content: String,
    pub submitted_at: String,
    pub preceding_assistant_content: Option<String>,
    pub preceding_assistant_reasoning: Option<String>,
    pub provider_id: Option<String>,
    pub model: Option<String>,
    pub attachments: Vec<SafeUserAttachment>,
}

pub open spec fn redacted_opt(o: Option<String>, pending: Seq<char>, interrupted: Seq<char>) -> Option<Seq<char>> {
    match o {
        Some(s) => Some(redacted(s@, pending, interrupted)),
        None => None,
    }
}

fn redact_opt(o: Option<String>, pending: &str, interrupted: &str) -> (r: Option<String>)
    ensures
        opt_chars(r) == redacted_opt(o, pending@, interrupted@),
{
    match o {
        Some(s) => Some(redact_internal_assistant_text(s.as_str(), pending, interrupted)),
        None => None,
    }
}

impl SafeFollowup {
    /// The follow-up with the daemon's placeholder texts (`pending` and
    /// `interrupted`) removed from what the assistant had said before it.
    pub fn from_followup(f: TurnFollowup, pending: &str, interrupted: &str) -> (r: SafeFollowup)
        ensures
            r.id@ == f.prompt_id@,
            r.content@ == f.display_content@,
            r.submitted_at@ == f.submitted_at@,
            opt_chars(r.preceding_assistant_content) == redacted_opt(f.preceding_assistant_content, pending@, interrupted@),
            opt_chars(r.preceding_assistant_reasoning) == redacted_opt(
                f.preceding_assistant_reasoning,
                pending@,
                interrupted@,
            ),
            opt_chars(r.provider_id) == opt_chars(f.preceding_assistant_provider_id),
            opt_chars(r.model) == opt_chars(f.preceding_assistant_model),
            safe_attachments_of(r.attachments@, f.uploaded_attachments@),
    {
        SafeFollowup {
            id: f.prompt_id,
            content: f.display_content,
            submitted_at: f.submitted_at,
            preceding_assistant_content: redact_opt(f.preceding_assistant_content, pending, interrupted),
            preceding_assistant_reasoning: redact_opt(f.preceding_assistant_reasoning, pending, interrupted),
            provider_id: f.preceding_assistant_provider_id,
            model: f.preceding_assistant_model,
            attachments: safe_attachments(f.uploaded_attachments),
        }
    }
}

/// Which input of a turn a redo would replay.
pub enum RedoInputKind {
    Initial,
    Followup,
}

pub fn redo_input_kind_name(kind: &RedoInputKind) -> (r: &'static str)
    ensures
        r@ == (match kind {
            RedoInputKind::Initial => "initial"@,
            RedoInputKind::Followup => "followup"@,
        }),
{
    match kind {
        RedoInputKind::Initial => "initial",
        RedoInputKind::Followup => "followup",
    }
}

/// The state of a turn.
pub enum TurnStatus {
    Running,
    Completed,
    Interrupted,
}

pub open spec fn status_label(s: TurnStatus) -> Seq<char> {
    match s {
        TurnStatus::Running => "running"@,
        TurnStatus::Completed => "completed"@,
        TurnStatus::Interrupted => "interrupted"@,
    }
}

/// A stored turn. `X` carries the parts the WebUI gets converted elsewhere
/// (question exchanges, tool flow, follow-ups, attachments).
pub struct Turn<X> {
    pub turn_id: String,
    pub seq: i64,
    pub status: TurnStatus,
    pub hidden: bool,
    pub display_content: String,
    pub assistant_content: String,
    pub assistant_reasoning: Option<String>,
    pub assistant_provider_id: Option<String>,
    pub assistant_model: Option<String>,
    pub user_timestamp: String,
    pub assistant_timestamp: Option<String>,
    pub token_total: u64,
    pub token_prompt: u64,
    pub token_cache_read: u64,
    pub token_usage_estimated: bool,
    pub tool_reports: Vec<String>,
    pub revision: i64,
    pub rest: X,
}

/// A turn as the WebUI gets it.
pub struct SafeTurn<X> {
    pub id: String,
    pub seq: i64,
    pub status: &'static str,
    pub active_context: bool,
    pub user_content: String,
    pub assistant_content: String,
    pub assistant_reasoning: Option<String>,
    pub provider_id: Option<String>,
    pub model: Option<String>,
    pub user_timestamp: String,
    pub assistant_timestamp: Option<String>,
    pub token_total: u64,
    pub token_prompt: u64,
    pub token_cache_read: u64,
    pub token_usage_estimated: bool,
    pub generation_tokens: u64,
    pub generation_ms: u64,
    pub token_context_end: Option<u64>,
    pub assets: Vec<SafeImageAsset>,
    pub artifacts: Vec<SafeArtifactAsset>,
    pub revision: i64,
    pub rest: X,
}

fn safe_images(assets: Vec<ImageAsset>, reports: &Vec<String>) -> (r: Vec<SafeImageAsset>)
    ensures
        r@.len() == assets@.len(),
        forall|i: int|
            0 <= i < r@.len() ==> safe_image_of(
                #[trigger] r@[i],
                assets@[i],
                caption_hidden(assets@[i].alt@, string_views(reports@)),
            ),
{
    let ghost input = assets@;
    let mut rest = assets;
    let mut out: Vec<SafeImageAsset> = Vec::new();
    let n = rest.len();
    while rest.len() > 0
        invariant
            out@.len() + rest@.len() == n,
            n == input.len(),
            rest@ == input.skip(out@.len() as int),
            forall|i: int|
                0 <= i < out@.len() ==> safe_image_of(
                    #[trigger] out@[i],
                    input[i],
                    caption_hidden(input[i].alt@, string_views(reports@)),
                ),
        decreases rest.len(),
    {
        let a = rest.remove(0);
        assert(a == input[out@.len() as int]);
        let hide = meme_asset_caption_hidden(a.alt.as_str(), reports);
        let k = out.len();
        out.push(SafeImageAsset::from_asset(a, hide));
        assert(input.skip(out@.len() as int) =~= input.skip(k as int).drop_first());
    }
    out
}

fn safe_artifacts(artifacts: Vec<ArtifactAsset>) -> (r: Vec<SafeArtifactAsset>)
    ensures
        r@.len() == artifacts@.len(),
        forall|i: int| 0 <= i < r@.len() ==> safe_artifact_of(#[trigger] r@[i], artifacts@[i]),
{
    let ghost input = artifacts@;
    let mut rest = artifacts;
    let mut out: Vec<SafeArtifactAsset> = Vec::new();
    let n = rest.len();
    while rest.len() > 0
        invariant
            out@.len() + rest@.len() == n,
            n == input.len(),
            rest@ == input.skip(out@.len() as int),
            forall|i: int| 0 <= i < out@.len() ==> safe_artifact_of(#[trigger] out@[i], input[i]),
        decreases rest.len(),
    {
        let a = rest.remove(0);
        assert(a == input[out@.len() as int]);
        let k = out.len();
        out.push(SafeArtifactAsset::from_asset(a));
        assert(input.skip(out@.len() as int) =~= input.skip(k as int).drop_first());
    }
    out
}

pub open spec fn opt_redacted(o: Option<String>, pending: Seq<char>, interrupted: Seq<char>) -> Option<Seq<char>> {
    match o {
        Some(s) => Some(redacted(s@, pending, interrupted)),
        None => None,
    }
}

impl<X> SafeTurn<X> {
    /// The WebUI's view of a stored turn: internal assistant text redacted
    /// (`pending` and `interrupted` are the internal placeholder and marker),
    /// hidden turns out of the active context, each image's caption hidden
    /// when the turn's meme report already shows it, no speed or context
    /// samples yet.
    pub fn from_turn(
        turn: Turn<X>,
        assets: Vec<ImageAsset>,
        artifacts: Vec<ArtifactAsset>,
        pending: &str,
        interrupted: &str,
    ) -> (r: SafeTurn<X>)
        ensures
            r.id@ == turn.turn_id@,
            r.seq == turn.seq,
            r.status@ == status_label(turn.status),
            r.active_context == !turn.hidden,
            r.user_content@ == turn.display_content@,
            r.assistant_content@ == redacted(turn.assistant_content@, pending@, interrupted@),
            match r.assistant_reasoning {
                Some(x) => opt_redacted(turn.assistant_reasoning, pending@, interrupted@) == Some(x@),
                None => turn.assistant_reasoning is None,
            },
            r.provider_id == turn.assistant_provider_id,
            r.model == turn.assistant_model,
            r.user_timestamp@ == turn.user_timestamp@,
            r.assistant_timestamp == turn.assistant_timestamp,
            r.token_total == turn.token_total,
            r.token_prompt == turn.token_prompt,
            r.token_cache_read == turn.token_cache_read,
            r.token_usage_estimated == turn.token_usage_estimated,
            r.generation_tokens == 0,
            r.generation_ms == 0,
            r.token_context_end is None,
            r.assets@.len() == assets@.len(),
            forall|i: int|
                0 <= i < r.assets@.len() ==> safe_image_of(
                    #[trigger] r.assets@[i],
                    assets@[i],
                    caption_hidden(assets@[i].alt@, string_views(turn.tool_reports@)),
                ),
            r.artifacts@.len() == artifacts@.len(),
            forall|i: int| 0 <= i < r.artifacts@.len() ==> safe_artifact_of(#[trigger] r.artifacts@[i], artifacts@[i]),
            r.revision == turn.revision,
            r.rest == turn.rest,
    {
        let images = safe_images(assets, &turn.tool_reports);
        let arts = safe_artifacts(artifacts);
        let status = match turn.status {
            TurnStatus::Running => "running",
            TurnStatus::Completed => "completed",
            TurnStatus::Interrupted => "interrupted",
        };
        proof {
            reveal_strlit("running");
            reveal_strlit("completed");
            reveal_strlit("interrupted");
        }
        let assistant_content = redact_internal_assistant_text(turn.assistant_content.as_str(), pending, interrupted);
        let assistant_reasoning = match &turn.assistant_reasoning {
            Some(x) => Some(redact_internal_assistant_text(x.as_str(), pending, interrupted)),
            None => None,
        };
        SafeTurn {
            id: turn.turn_id,
            seq: turn.seq,
            status,
            active_context: !turn.hidden,
            user_content: turn.display_content,
            assistant_content,
            assistant_reasoning,
            provider_id: turn.assistant_provider_id,
            model: turn.assistant_model,
            user_timestamp: turn.user_timestamp,
            assistant_timestamp: turn.assistant_timestamp,
            token_total: turn.token_total,
            token_prompt: turn.token_prompt,
            token_cache_read: turn.token_cache_read,
            token_usage_estimated: turn.token_usage_estimated,
            generation_tokens: 0,
            generation_ms: 0,
            token_context_end: None,
            assets: images,
            artifacts: arts,
            revision: turn.revision,
            rest: turn.rest,
        }
    }
}

/// The per-turn samples stored beside the turns: output speed (tokens,
/// milliseconds) and the context size at the turn's end, by turn id.
pub struct TurnSamples {
    pub generation: Vec<(String, (u64, u64))>,
    pub context_end: Vec<(String, u64)>,
}

/// The first sample recorded for a turn id.
pub open spec fn sample_for<V>(s: Seq<(String, V)>, id: Seq<char>) -> Option<V>
    decreases s.len(),
{
    if s.len() == 0 {
        None
    } else if s[0].0@ == id {
        Some(s[0].1)
    } else {
        sample_for(s.drop_first(), id)
    }
}

fn find_sample<V: Copy>(s: &Vec<(String, V)>, id: &str) -> (r: Option<V>)
    ensures
        r == sample_for(s@, id@),
{
    let mut i: usize = 0;
    assert(s@.skip(0) =~= s@);
    while i < s.len()
        invariant
            i <= s.len(),
            sample_for(s@, id@) == sample_for(s@.skip(i as int), id@),
        decreases s.len() - i,
    {
        assert(s@.skip(i as int)[0] == s@[i as int]);
        assert(s@.skip(i as int).drop_first() =~= s@.skip(i + 1));
        if str_eq(s[i].0.as_str(), id) {
            return Some(s[i].1);
        }
        i += 1;
    }
    None
}

impl TurnSamples {
    /// Fills a turn's speed sample (kept when none was recorded) and its
    /// context-end sample.
    pub fn apply<X>(&self, safe: &mut SafeTurn<X>)
        ensures
            (final(safe).generation_tokens, final(safe).generation_ms) == match sample_for(
                self.generation@,
                old(safe).id@,
            ) {
                Some(g) => g,
                None => (old(safe).generation_tokens, old(safe).generation_ms),
            },
            final(safe).token_context_end == sample_for(self.context_end@, old(safe).id@),
            *final(safe) == (SafeTurn {
                generation_tokens: final(safe).generation_tokens,
                generation_ms: final(safe).generation_ms,
                token_context_end: final(safe).token_context_end,
                ..*old(safe)
            }),
    {
        match find_sample(&self.generation, safe.id.as_str()) {
            Some((tokens, millis)) => {
                safe.generation_tokens = tokens;
                safe.generation_ms = millis;
            },
            None => {},
        }
        safe.token_context_end = find_sample(&self.context_end, safe.id.as_str());
    }
}

} // verus!
