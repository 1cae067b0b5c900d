//! The provider-catalog endpoints behind "fetch the model list" and "fill
//! from the catalog": which key a draft provider is tried with, when a fetch
//! is refused, where the list comes from, and how the ids and labels are
//! cleaned up.
use vstd::prelude::*;
use crate::api::{api_error_is, ApiError, BAD_GATEWAY, BAD_REQUEST};
use crate::goal::{decimal, decimal_string};
use crate::persona::{configured, opt_chars};
use crate::text::{chars_of, extend_chars, extend_str, str_eq, string_of, trim_seq, trimmed};

verus! {

/// A configured provider, as far as the key lookup reads it.
pub struct ProviderKey {
    pub id: String,
    pub api_key: Option<String>,
}

/// Whether `i` is the first provider of `current` whose id is `id`.
pub open spec fn is_first_with_id(current: Seq<ProviderKey>, id: Seq<char>, i: int) -> bool {
    &&& 0 <= i < current.len()
    &&& current[i].id@ == id
    &&& forall|j: int| 0 <= j < i ==> current[j].id@ != id
}

/// Whether no provider of `current` has the id `id`.
pub open spec fn no_provider_with_id(current: Seq<ProviderKey>, id: Seq<char>) -> bool {
    forall|j: int| 0 <= j < current.len() ==> current[j].id@ != id
}

/// The key a draft provider is tried with. The WebUI only ever sees masked
/// keys, so a draft whose key is absent or blank borrows the key of the
/// first configured provider with the same id (none when there is no such
/// provider); a draft with a key of its own keeps it.
pub fn effective_api_key(draft_key: &Option<String>, draft_id: &str, current: &Vec<ProviderKey>) -> (r: Option<String>)
    ensures
        configured(*draft_key) is Some ==> opt_chars(r) == opt_chars(*draft_key),
        configured(*draft_key) is None ==> forall|i: int|
            is_first_with_id(current@, draft_id@, i) ==> opt_chars(r) == opt_chars(#[trigger] current@[i].api_key),
        configured(*draft_key) is None && no_provider_with_id(current@, draft_id@) ==> r is None,
{
    if let Some(k) = draft_key {
        if trimmed(k.as_str()).len() > 0 {
            return Some(k.clone());
        }
    }
    let mut i: usize = 0;
    while i < current.len()
        invariant
            0 <= i <= current.len(),
            configured(*draft_key) is None,
            forall|j: int| 0 <= j < i ==> current@[j].id@ != draft_id@,
        decreases current.len() - i,
    {
        if str_eq(current[i].id.as_str(), draft_id) {
            let r = match &current[i].api_key {
                Some(k) => Some(k.clone()),
                None => None,
            };
            proof {
                assert forall|n: int| is_first_with_id(current@, draft_id@, n) implies opt_chars(r)
                    == opt_chars(#[trigger] current@[n].api_key) by {
                    assert(n == i as int);
                }
            }
            return r;
        }
        i += 1;
    }
    proof {
        assert forall|n: int| is_first_with_id(current@, draft_id@, n) implies opt_chars(None::<String>)
            == opt_chars(#[trigger] current@[n].api_key) by {
            assert(current@[n].id@ != draft_id@);
        }
    }
    None
}

/// A fetch is refused for an HTTP provider without a base URL: there is
/// nothing to ask. A built-in command-line provider asks its own CLI.
pub open spec fn fetch_refused(fetch: bool, builtin_cli: bool, base_url: Seq<char>) -> bool {
    fetch && !builtin_cli && trim_seq(base_url).len() == 0
}

/// Where the model list comes from: the CLI or the HTTP `/models` endpoint
/// when fetching, the names the form sent otherwise.
pub open spec fn source_name(fetch: bool, builtin_cli: bool) -> Seq<char> {
    if !fetch {
        "catalog"@
    } else if builtin_cli {
        "cli"@
    } else {
        "http"@
    }
}

pub fn models_source(fetch: bool, builtin_cli: bool) -> (r: &'static str)
    ensures
        r@ == source_name(fetch, builtin_cli),
{
    if !fetch {
        "catalog"
    } else if builtin_cli {
        "cli"
    } else {
        "http"
    }
}

/// What a model-list request is answered with before any model is listed:
/// the key to try the provider with and where the list comes from.
pub struct ModelsPlan {
    pub api_key: Option<String>,
    pub source: &'static str,
}

/// Plans a model-list request for a draft provider: refused with 400 when a
/// fetch has no base URL to ask, else the borrowed or own key and the
/// source of the list.
pub fn plan_provider_models(
    draft_key: &Option<String>,
    draft_id: &str,
    base_url: &str,
    builtin_cli: bool,
    fetch: bool,
    current: &Vec<ProviderKey>,
) -> (r: Result<ModelsPlan, ApiError>)
    ensures
        r is Err <==> fetch_refused(fetch, builtin_cli, base_url@),
        r matches Err(e) ==> api_error_is(e, BAD_REQUEST, "provider base_url is required to fetch models"@),
        r matches Ok(plan) ==> {
            &&& plan.source@ == source_name(fetch, builtin_cli)
            &&& configured(*draft_key) is Some ==> opt_chars(plan.api_key) == opt_chars(*draft_key)
            &&& configured(*draft_key) is None ==> forall|i: int|
                is_first_with_id(current@, draft_id@, i) ==> opt_chars(plan.api_key)
                    == opt_chars(#[trigger] current@[i].api_key)
            &&& configured(*draft_key) is None && no_provider_with_id(current@, draft_id@)
                ==> plan.api_key is None
        },
{
    let api_key = effective_api_key(draft_key, draft_id, current);
    if fetch && !builtin_cli && trimmed(base_url).len() == 0 {
        return Err(ApiError::new(BAD_REQUEST, "provider base_url is required to fetch models"));
    }
    Ok(ModelsPlan { api_key, source: models_source(fetch, builtin_cli) })
}

/// The model ids worth describing: each trimmed, the blank ones dropped,
/// in their order.
pub open spec fn clean_ids(ids: Seq<String>) -> Seq<Seq<char>>
    decreases ids.len(),
{
    if ids.len() == 0 {
        seq![]
    } else {
        let rest = clean_ids(ids.drop_last());
        let t = trim_seq(ids.last()@);
        if t.len() > 0 {
            rest.push(t)
        } else {
            rest
        }
    }
}

pub fn clean_model_ids(ids: &Vec<String>) -> (r: Vec<String>)
    ensures
        r@.len() == clean_ids(ids@).len(),
        forall|i: int| 0 <= i < r@.len() ==> #[trigger] r@[i]@ == clean_ids(ids@)[i],
{
    let mut out: Vec<String> = Vec::new();
    let mut i: usize = 0;
    while i < ids.len()
        invariant
            0 <= i <= ids.len(),
            out@.len() == clean_ids(ids@.take(i as int)).len(),
            forall|k: int| 0 <= k < out@.len() ==> #[trigger] out@[k]@ == clean_ids(ids@.take(i as int))[k],
        decreases ids.len() - i,
    {
        let t = trimmed(ids[i].as_str());
        proof {
            let next = ids@.take(i as int + 1);
            assert(next.drop_last() =~= ids@.take(i as int));
            assert(next.last() == ids@[i as int]);
        }
        if t.len() > 0 {
            out.push(string_of(&t));
        }
        i += 1;
    }
    proof {
        assert(ids@.take(ids@.len() as int) =~= ids@);
    }
    out
}

/// The context window a described model ends up with: its own when it is
/// known and positive, else the one remembered from the last fetch, else
/// what it had.
pub open spec fn filled_window(window: Option<u64>, remembered: Option<u64>) -> Option<u64> {
    if window matches Some(w) && w > 0 {
        window
    } else if remembered is Some {
        remembered
    } else {
        window
    }
}

pub fn fill_context_window(window: Option<u64>, remembered: Option<u64>) -> (r: Option<u64>)
    ensures
        r == filled_window(window, remembered),
{
    match window {
        Some(w) if w > 0 => window,
        _ => match remembered {
            Some(x) => Some(x),
            None => window,
        },
    }
}

/// The label of a cline provider id among the candidates: `id · N 个模型`,
/// or the bare id when its model count is zero.
pub open spec fn cline_label(id: Seq<char>, count: u64) -> Seq<char> {
    if count > 0 {
        id + " · "@ + decimal(count as nat) + " 个模型"@
    } else {
        id
    }
}

pub fn cline_candidate_label(id: &str, count: u64) -> (r: String)
    ensures
        r@ == cline_label(id@, count),
{
    if count > 0 {
        let mut v = chars_of(id);
        extend_str(&mut v, " · ");
        extend_chars(&mut v, &decimal_string(count));
        extend_str(&mut v, " 个模型");
        string_of(&v)
    } else {
        id.to_string()
    }
}

/// A draft provider that does not parse: 400 `invalid provider: …`.
pub fn invalid_provider(detail: &str) -> (e: ApiError)
    ensures
        api_error_is(e, BAD_REQUEST, "invalid provider: "@ + detail@),
{
    let mut v = chars_of("invalid provider: ");
    extend_str(&mut v, detail);
    ApiError { status: BAD_REQUEST, message: string_of(&v) }
}

/// A provider that could not list its models: 502 `failed to list models: …`.
pub fn list_models_failed(detail: &str) -> (e: ApiError)
    ensures
        api_error_is(e, BAD_GATEWAY, "failed to list models: "@ + detail@),
{
    let mut v = chars_of("failed to list models: ");
    extend_str(&mut v, detail);
    ApiError { status: BAD_GATEWAY, message: string_of(&v) }
}

} // verus!
