//! Saving the settings form without ever sending a secret back: the form
//! carries masked secrets, and says per secret field whether it was set to a
//! new value or cleared. Every other secret keeps its saved value, and a
//! mutation of a field nobody knows is refused.
use crate::api::{api_error_is, ApiError, BAD_REQUEST};
use crate::goal::{decimal, decimal_string};
use crate::persona::opt_chars;
use crate::providers::ProviderKey;
use crate::text::{chars_of, extend_chars, extend_str, str_eq, string_of, string_views, lemma_string_views_push};
use vstd::prelude::*;

verus! {

/// What the form says about one secret field.
pub enum SecretMutation {
    /// A new value, still to be normalized.
    Replace(String),
    Clear,
}

/// What becomes of one secret in a save.
pub enum SecretStep {
    /// The new value, once normalized.
    Normalize(String),
    Clear,
    /// The saved value, unchanged.
    Keep(Option<String>),
}

/// The first position, from `i` on, of a mutation for `key`.
pub open spec fn first_key_from(mutations: Seq<(String, SecretMutation)>, key: Seq<char>, i: int) -> Option<int>
    decreases mutations.len() - i,
{
    if i < 0 || i >= mutations.len() {
        None
    } else if mutations[i].0@ == key {
        Some(i)
    } else {
        first_key_from(mutations, key, i + 1)
    }
}

/// The mutation the form sent for `key`, if any.
pub open spec fn mutation_of(mutations: Seq<(String, SecretMutation)>, key: Seq<char>) -> Option<SecretMutation> {
    match first_key_from(mutations, key, 0) {
        Some(i) => Some(mutations[i].1),
        None => None,
    }
}

/// Whether `step` is what a secret with `mutation` and saved value
/// `existing` becomes: a set value is normalized, a cleared one dropped, an
/// untouched one kept.
pub open spec fn step_for(step: SecretStep, mutation: Option<SecretMutation>, existing: Option<Seq<char>>) -> bool {
    match mutation {
        Some(SecretMutation::Replace(v)) => step matches SecretStep::Normalize(w) && w@ == v@,
        Some(SecretMutation::Clear) => step is Clear,
        None => step matches SecretStep::Keep(e) && opt_chars(e) == existing,
    }
}

fn first_key_index(mutations: &Vec<(String, SecretMutation)>, key: &str) -> (r: Option<usize>)
    ensures
        match r {
            Some(i) => i < mutations.len() && first_key_from(mutations@, key@, 0) == Some(i as int),
            None => first_key_from(mutations@, key@, 0) is None,
        },
{
    let mut i: usize = 0;
    while i < mutations.len()
        invariant
            0 <= i <= mutations.len(),
            first_key_from(mutations@, key@, 0) == first_key_from(mutations@, key@, i as int),
        decreases mutations.len() - i,
    {
        if str_eq(mutations[i].0.as_str(), key) {
            return Some(i);
        }
        i += 1;
    }
    None
}

/// The step of the secret stored under `key`, whose saved value is
/// `existing`.
pub fn secret_step(mutations: &Vec<(String, SecretMutation)>, key: &str, existing: &Option<String>) -> (r: SecretStep)
    ensures
        step_for(r, mutation_of(mutations@, key@), opt_chars(*existing)),
{
    match first_key_index(mutations, key) {
        Some(i) => match &mutations[i].1 {
            SecretMutation::Replace(v) => SecretStep::Normalize(v.clone()),
            SecretMutation::Clear => SecretStep::Clear,
        },
        None => SecretStep::Keep(
            match existing {
                Some(s) => Some(s.clone()),
                None => None,
            },
        ),
    }
}

/// The field name of the key of the provider at `index`.
pub open spec fn provider_secret_key(index: nat) -> Seq<char> {
    "providers."@ + decimal(index) + ".api_key"@
}

pub fn provider_secret_field(index: u64) -> (r: String)
    ensures
        r@ == provider_secret_key(index as nat),
{
    let mut v = chars_of("providers.");
    extend_chars(&mut v, &decimal_string(index));
    extend_str(&mut v, ".api_key");
    string_of(&v)
}

/// The field name of a connector's token.
pub open spec fn connector_secret_key(platform: Seq<char>) -> Seq<char> {
    "platforms.connectors."@ + platform + ".token"@
}

pub fn connector_secret_field(platform: &str) -> (r: String)
    ensures
        r@ == connector_secret_key(platform@),
{
    let mut v = chars_of("platforms.connectors.");
    extend_str(&mut v, platform);
    extend_str(&mut v, ".token");
    string_of(&v)
}

/// The saved key of a provider: that of the first saved provider with the
/// same id, none when there is none.
pub open spec fn saved_key(current: Seq<ProviderKey>, id: Seq<char>, i: int) -> Option<Seq<char>>
    decreases current.len() - i,
{
    if i < 0 || i >= current.len() {
        None
    } else if current[i].id@ == id {
        opt_chars(current[i].api_key)
    } else {
        saved_key(current, id, i + 1)
    }
}

fn saved_key_of(current: &Vec<ProviderKey>, id: &str) -> (r: Option<String>)
    ensures
        opt_chars(r) == saved_key(current@, id@, 0),
{
    let mut i: usize = 0;
    while i < current.len()
        invariant
            0 <= i <= current.len(),
            saved_key(current@, id@, 0) == saved_key(current@, id@, i as int),
        decreases current.len() - i,
    {
        if str_eq(current[i].id.as_str(), id) {
            return match &current[i].api_key {
                Some(k) => Some(k.clone()),
                None => None,
            };
        }
        i += 1;
    }
    None
}

/// The steps of the candidate's provider keys, in provider order: each
/// under `providers.N.api_key`, its saved value being the key of the saved
/// provider with the same id (a renamed or new provider has none).
pub fn provider_secret_steps(
    candidate: &Vec<ProviderKey>,
    current: &Vec<ProviderKey>,
    mutations: &Vec<(String, SecretMutation)>,
) -> (r: Vec<(String, SecretStep)>)
    ensures
        r@.len() == candidate@.len(),
        forall|i: int|
            0 <= i < r@.len() ==> {
                &&& (#[trigger] r@[i]).0@ == provider_secret_key(i as nat)
                &&& step_for(
                    r@[i].1,
                    mutation_of(mutations@, provider_secret_key(i as nat)),
                    saved_key(current@, candidate@[i].id@, 0),
                )
            },
{
    let mut out: Vec<(String, SecretStep)> = Vec::new();
    let mut i: usize = 0;
    while i < candidate.len()
        invariant
            0 <= i <= candidate.len(),
            out@.len() == i,
            forall|k: int|
                0 <= k < i ==> {
                    &&& (#[trigger] out@[k]).0@ == provider_secret_key(k as nat)
                    &&& step_for(
                        out@[k].1,
                        mutation_of(mutations@, provider_secret_key(k as nat)),
                        saved_key(current@, candidate@[k].id@, 0),
                    )
                },
        decreases candidate.len() - i,
    {
        let key = provider_secret_field(i as u64);
        let existing = saved_key_of(current, candidate[i].id.as_str());
        let step = secret_step(mutations, key.as_str(), &existing);
        out.push((key, step));
        i += 1;
    }
    out
}

/// Whether `key` is one of the recognized fields.
pub open spec fn recognized_key(recognized: Seq<String>, key: Seq<char>) -> bool {
    exists|j: int| 0 <= j < recognized.len() && (#[trigger] recognized[j])@ == key
}

/// The first mutation, from `i` on, of a field nobody recognized.
pub open spec fn first_unknown_from(
    mutations: Seq<(String, SecretMutation)>,
    recognized: Seq<String>,
    i: int,
) -> Option<int>
    decreases mutations.len() - i,
{
    if i < 0 || i >= mutations.len() {
        None
    } else if !recognized_key(recognized, mutations[i].0@) {
        Some(i)
    } else {
        first_unknown_from(mutations, recognized, i + 1)
    }
}

fn is_recognized(recognized: &Vec<String>, key: &str) -> (r: bool)
    ensures
        r == recognized_key(recognized@, key@),
{
    let mut j: usize = 0;
    while j < recognized.len()
        invariant
            0 <= j <= recognized.len(),
            forall|k: int| 0 <= k < j ==> (#[trigger] recognized@[k])@ != key@,
        decreases recognized.len() - j,
    {
        if str_eq(recognized[j].as_str(), key) {
            return true;
        }
        j += 1;
    }
    false
}

/// Refuses a save that mutates a secret field nobody recognized: 400
/// `unknown secret field: …`, naming the first such field in the order the
/// mutations are given.
pub fn check_secret_fields(mutations: &Vec<(String, SecretMutation)>, recognized: &Vec<String>) -> (r: Result<(), ApiError>)
    ensures
        r is Ok <==> first_unknown_from(mutations@, recognized@, 0) is None,
        r matches Err(e) ==> api_error_is(
            e,
            BAD_REQUEST,
            "unknown secret field: "@ + mutations@[first_unknown_from(mutations@, recognized@, 0).unwrap()].0@,
        ),
{
    let mut i: usize = 0;
    while i < mutations.len()
        invariant
            0 <= i <= mutations.len(),
            first_unknown_from(mutations@, recognized@, 0) == first_unknown_from(mutations@, recognized@, i as int),
        decreases mutations.len() - i,
    {
        if !is_recognized(recognized, mutations[i].0.as_str()) {
            let mut v = chars_of("unknown secret field: ");
            extend_str(&mut v, mutations[i].0.as_str());
            return Err(ApiError { status: BAD_REQUEST, message: string_of(&v) });
        }
        i += 1;
    }
    Ok(())
}


/// The field of the exchange-rate plugin's key.
pub const EXCHANGE_RATE_KEY: &'static str = "plugins.exchange_rate.api_key";

/// The field of the QQ (OneBot) access token.
pub const QQ_TOKEN_KEY: &'static str = "platforms.qq.access_token";

/// The value a plain-text secret (one stored as a string, where empty means
/// unset: the exchange-rate key, the QQ token, a connector's token) takes:
/// the normalized new value (empty when normalizing left nothing), empty
/// when cleared, the saved value when untouched.
pub open spec fn string_secret_of(step: SecretStep, normalized: Option<Seq<char>>) -> Seq<char> {
    match step {
        SecretStep::Normalize(_) => match normalized {
            Some(v) => v,
            None => Seq::empty(),
        },
        SecretStep::Clear => Seq::empty(),
        SecretStep::Keep(e) => match e {
            Some(v) => v@,
            None => Seq::empty(),
        },
    }
}

pub fn string_secret(step: &SecretStep, normalized: &Option<String>) -> (r: String)
    ensures
        r@ == string_secret_of(*step, opt_chars(*normalized)),
{
    match step {
        SecretStep::Normalize(_) => match normalized {
            Some(v) => v.clone(),
            None => String::new(),
        },
        SecretStep::Clear => String::new(),
        SecretStep::Keep(e) => match e {
            Some(v) => v.clone(),
            None => String::new(),
        },
    }
}

/// The secret fields a save recognizes: each provider's key, the
/// exchange-rate key, the QQ token, each connector's token, and the fields
/// the secret lists and quota providers recognize (`more`), in that order.
pub open spec fn recognized_fields(providers: nat, connectors: Seq<String>, more: Seq<String>) -> Seq<Seq<char>> {
    Seq::new(providers, |i: int| provider_secret_key(i as nat)) + seq![EXCHANGE_RATE_KEY@, QQ_TOKEN_KEY@]
        + Seq::new(connectors.len(), |i: int| connector_secret_key(connectors[i]@)) + string_views(more)
}

pub fn recognized_secret_fields(providers: usize, connectors: &Vec<String>, more: &Vec<String>) -> (r: Vec<String>)
    ensures
        string_views(r@) == recognized_fields(providers as nat, connectors@, more@),
{
    let mut out: Vec<String> = Vec::new();
    let mut i: usize = 0;
    while i < providers
        invariant
            i <= providers,
            string_views(out@) == Seq::new(i as nat, |k: int| provider_secret_key(k as nat)),
        decreases providers - i,
    {
        let ghost raw = out@;
        let f = provider_secret_field(i as u64);
        out.push(f);
        proof {
            lemma_string_views_push(raw, f);
        }
        assert(string_views(out@) =~= Seq::new((i + 1) as nat, |k: int| provider_secret_key(k as nat)));
        i += 1;
    }
    let ghost a = string_views(out@);
    let ghost raw0 = out@;
    let e = EXCHANGE_RATE_KEY.to_owned();
    out.push(e);
    let ghost raw1 = out@;
    let q = QQ_TOKEN_KEY.to_owned();
    out.push(q);
    proof {
        lemma_string_views_push(raw0, e);
        lemma_string_views_push(raw1, q);
    }
    let ghost b = string_views(out@);
    assert(b =~= a + seq![EXCHANGE_RATE_KEY@, QQ_TOKEN_KEY@]);
    let mut j: usize = 0;
    while j < connectors.len()
        invariant
            j <= connectors.len(),
            string_views(out@) == b + Seq::new(j as nat, |k: int| connector_secret_key(connectors@[k]@)),
        decreases connectors.len() - j,
    {
        let ghost raw = out@;
        let f = connector_secret_field(connectors[j].as_str());
        out.push(f);
        proof {
            lemma_string_views_push(raw, f);
        }
        assert(string_views(out@) =~= b + Seq::new((j + 1) as nat, |k: int| connector_secret_key(connectors@[k]@)));
        j += 1;
    }
    let ghost c = string_views(out@);
    let mut k: usize = 0;
    while k < more.len()
        invariant
            k <= more.len(),
            string_views(out@) == c + string_views(more@).take(k as int),
        decreases more.len() - k,
    {
        let ghost raw = out@;
        let f = more[k].clone();
        out.push(f);
        proof {
            lemma_string_views_push(raw, f);
        }
        assert(string_views(out@) =~= c + string_views(more@).take(k + 1));
        k += 1;
    }
    assert(string_views(more@).take(more.len() as int) =~= string_views(more@));
    assert(string_views(out@) =~= recognized_fields(providers as nat, connectors@, more@));
    out
}

} // verus!
