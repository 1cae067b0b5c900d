//! The settings page's rules for a configuration candidate: which candidates
//! are refused and why, which changes must interrupt running turns, and how
//! the display settings are shown.
use crate::api::{ApiError, BAD_REQUEST};
use crate::persona::{document_changes, persona_document_changes, PromptDocuments};
use crate::text::{chars_eq, chars_of, extend_str, str_eq, string_of, trim_chars, trim_seq};
use vstd::prelude::*;

verus! {

/// Some provider id before position `i` is, trimmed, the trimmed id at `i`.
pub open spec fn duplicate_before(ids: Seq<String>, i: int) -> bool {
    exists|j: int| 0 <= j < i && trim_seq((#[trigger] ids[j])@) == trim_seq(ids[i]@)
}

/// The first provider id, from position `i` on, that repeats an earlier id.
pub open spec fn first_duplicate_id(ids: Seq<String>, i: int) -> Option<int>
    decreases ids.len() - i,
{
    if i < 0 || i >= ids.len() {
        None
    } else if duplicate_before(ids, i) {
        Some(i)
    } else {
        first_duplicate_id(ids, i + 1)
    }
}

/// A multimodal choice that repeats an earlier one or is not on offer.
pub open spec fn bad_multimodal(active: Seq<(String, String)>, choices: Seq<(String, String)>, i: int) -> bool {
    (exists|j: int| 0 <= j < i && (#[trigger] active[j]).0@ == active[i].0@ && active[j].1@ == active[i].1@)
        || !(exists|c: int| 0 <= c < choices.len() && (#[trigger] choices[c]).0@ == active[i].0@ && choices[c].1@ == active[i].1@)
}

/// The first bad multimodal choice from position `i` on.
pub open spec fn first_bad_multimodal(active: Seq<(String, String)>, choices: Seq<(String, String)>, i: int) -> Option<int>
    decreases active.len() - i,
{
    if i < 0 || i >= active.len() {
        None
    } else if bad_multimodal(active, choices, i) {
        Some(i)
    } else {
        first_bad_multimodal(active, choices, i + 1)
    }
}

/// The status and message a configuration candidate is refused with:
/// the configuration's own validation (`validation`), then repeated provider
/// ids, then the active provider models (`active_models`, when set), then
/// the active multimodal models against the choices on offer.
pub open spec fn candidate_error(
    validation: Result<(), String>,
    provider_ids: Seq<String>,
    active_models: Option<Result<(), String>>,
    multimodal: Option<Seq<(String, String)>>,
    choices: Seq<(String, String)>,
) -> Option<(u16, Seq<char>)> {
    match validation {
        Err(m) => Some((BAD_REQUEST, "invalid configuration: "@ + m@)),
        Ok(_) => match first_duplicate_id(provider_ids, 0) {
            Some(i) => Some((BAD_REQUEST, "duplicate provider id: "@ + provider_ids[i]@)),
            None => match active_models {
                Some(Err(m)) => Some((BAD_REQUEST, m@)),
                _ => match multimodal {
                    Some(active) => match first_bad_multimodal(active, choices, 0) {
                        Some(i) => Some(
                            (
                                BAD_REQUEST,
                                "invalid multimodal provider/model: "@ + active[i].0@ + " / "@ + active[i].1@,
                            ),
                        ),
                        None => None,
                    },
                    None => None,
                },
            },
        },
    }
}

fn has_duplicate_before(ids: &Vec<String>, i: usize) -> (r: bool)
    requires
        i < ids.len(),
    ensures
        r == duplicate_before(ids@, i as int),
{
    let t = trim_chars(&chars_of(ids[i].as_str()));
    let mut j: usize = 0;
    while j < i
        invariant
            j <= i < ids.len(),
            t@ == trim_seq(ids@[i as int]@),
            forall|k: int| 0 <= k < j ==> trim_seq((#[trigger] ids@[k])@) != trim_seq(ids@[i as int]@),
        decreases i - j,
    {
        if chars_eq(&trim_chars(&chars_of(ids[j].as_str())), &t) {
            return true;
        }
        j += 1;
    }
    false
}

#[verifier::loop_isolation(false)]
fn is_bad_multimodal(active: &Vec<(String, String)>, choices: &Vec<(String, String)>, i: usize) -> (r: bool)
    requires
        i < active.len(),
    ensures
        r == bad_multimodal(active@, choices@, i as int),
{
    let p = active[i].0.as_str();
    let m = active[i].1.as_str();
    let mut j: usize = 0;
    while j < i
        invariant
            j <= i < active.len(),
            p@ == active@[i as int].0@,
            m@ == active@[i as int].1@,
            forall|k: int| 0 <= k < j ==> !((#[trigger] active@[k]).0@ == p@ && active@[k].1@ == m@),
        decreases i - j,
    {
        if str_eq(active[j].0.as_str(), p) && str_eq(active[j].1.as_str(), m) {
            return true;
        }
        j += 1;
    }
    let mut c: usize = 0;
    while c < choices.len()
        invariant
            c <= choices.len(),
            p@ == active@[i as int].0@,
            m@ == active@[i as int].1@,
            forall|k: int| 0 <= k < c ==> !((#[trigger] choices@[k]).0@ == p@ && choices@[k].1@ == m@),
        decreases choices.len() - c,
    {
        if str_eq(choices[c].0.as_str(), p) && str_eq(choices[c].1.as_str(), m) {
            assert(choices@[c as int].0@ == active@[i as int].0@ && choices@[c as int].1@ == active@[i as int].1@);
            return false;
        }
        c += 1;
    }
    true
}

/// Checks a configuration candidate before it is saved. `validation` is
/// the configuration's own check (its message already made safe to show),
/// `active_models` the check of the active provider models when the
/// candidate sets them, `multimodal` the active multimodal models when set,
/// and `choices` the multimodal models on offer.
#[verifier::loop_isolation(false)]
pub fn validate_config_candidate(
    validation: Result<(), String>,
    provider_ids: &Vec<String>,
    active_models: Option<Result<(), String>>,
    multimodal: Option<&Vec<(String, String)>>,
    choices: &Vec<(String, String)>,
) -> (r: Result<(), ApiError>)
    ensures
        crate::persona::result_is(
            r,
            candidate_error(
                validation,
                provider_ids@,
                active_models,
                match multimodal {
                    Some(v) => Some(v@),
                    None => None,
                },
                choices@,
            ),
        ),
{
    match validation {
        Err(m) => {
            let mut v = chars_of("invalid configuration: ");
            extend_str(&mut v, m.as_str());
            return Err(ApiError { status: BAD_REQUEST, message: string_of(&v) });
        },
        Ok(_) => {},
    }
    let mut i: usize = 0;
    while i < provider_ids.len()
        invariant
            i <= provider_ids.len(),
            first_duplicate_id(provider_ids@, 0) == first_duplicate_id(provider_ids@, i as int),
        decreases provider_ids.len() - i,
    {
        if has_duplicate_before(provider_ids, i) {
            let mut v = chars_of("duplicate provider id: ");
            extend_str(&mut v, provider_ids[i].as_str());
            return Err(ApiError { status: BAD_REQUEST, message: string_of(&v) });
        }
        i += 1;
    }
    match active_models {
        Some(Err(m)) => return Err(ApiError { status: BAD_REQUEST, message: m }),
        _ => {},
    }
    match multimodal {
        Some(active) => {
            let mut k: usize = 0;
            while k < active.len()
                invariant
                    k <= active.len(),
                    first_bad_multimodal(active@, choices@, 0) == first_bad_multimodal(active@, choices@, k as int),
                decreases active.len() - k,
            {
                if is_bad_multimodal(active, choices, k) {
                    let mut v = chars_of("invalid multimodal provider/model: ");
                    extend_str(&mut v, active[k].0.as_str());
                    extend_str(&mut v, " / ");
                    extend_str(&mut v, active[k].1.as_str());
                    return Err(ApiError { status: BAD_REQUEST, message: string_of(&v) });
                }
                k += 1;
            }
        },
        None => {},
    }
    Ok(())
}

/// Whether applying a configuration must interrupt running turns: when the
/// current prompt documents could not be read (`previous` is `None`), when
/// the save renames or removes a persona, or when the active persona scope
/// changes. Everything else applies while turns run.
pub fn config_change_requires_interrupt(
    previous: Option<&PromptDocuments>,
    next: &PromptDocuments,
    current_scope: &str,
    next_scope: &str,
) -> (r: bool)
    ensures
        r == match previous {
            None => true,
            Some(p) => document_changes(p.personas@, next.personas@).len() > 0 || current_scope@ != next_scope@,
        },
{
    match previous {
        None => true,
        Some(p) => {
            let changes = persona_document_changes(p, next);
            assert(crate::persona::change_views(changes@).len() == changes@.len());
            if changes.len() > 0 {
                return true;
            }
            !str_eq(current_scope, next_scope)
        },
    }
}

/// The display settings as the WebUI reads them.
pub struct WebDisplayConfig {
    pub reasoning: String,
    pub tool_calls: String,
    pub readable_tool_names: bool,
    pub command_output_lines: usize,
    pub mixed_model_endpoint_display: String,
    pub show_mixed_model_endpoint: bool,
}

/// The display settings for the WebUI: the configured values, and whether
/// to show the mixed-model endpoint, which needs more than one provider
/// model to choose from and the `interactive` or `all` display mode.
pub fn web_display_config(
    reasoning: &str,
    tool_calls: &str,
    readable_tool_names: bool,
    command_output_lines: usize,
    mixed_model_endpoint_display: &str,
    model_choices: usize,
) -> (r: WebDisplayConfig)
    ensures
        r.reasoning@ == reasoning@,
        r.tool_calls@ == tool_calls@,
        r.readable_tool_names == readable_tool_names,
        r.command_output_lines == command_output_lines,
        r.mixed_model_endpoint_display@ == mixed_model_endpoint_display@,
        r.show_mixed_model_endpoint == (model_choices > 1 && (mixed_model_endpoint_display@ == "interactive"@
            || mixed_model_endpoint_display@ == "all"@)),
{
    let shown = model_choices > 1 && (str_eq(mixed_model_endpoint_display, "interactive") || str_eq(
        mixed_model_endpoint_display,
        "all",
    ));
    WebDisplayConfig {
        reasoning: reasoning.to_owned(),
        tool_calls: tool_calls.to_owned(),
        readable_tool_names,
        command_output_lines,
        mixed_model_endpoint_display: mixed_model_endpoint_display.to_owned(),
        show_mixed_model_endpoint: shown,
    }
}

} // verus!
