use gqy_web::providers::ProviderKey;
use gqy_web::secrets::{
    check_secret_fields, connector_secret_field, provider_secret_field, provider_secret_steps,
    recognized_secret_fields, secret_step, string_secret, SecretMutation, SecretStep,
};

fn key(id: &str, api_key: Option<&str>) -> ProviderKey {
    ProviderKey { id: id.to_string(), api_key: api_key.map(|k| k.to_string()) }
}

#[test]
fn secret_field_names_follow_the_form() {
    assert_eq!(provider_secret_field(0), "providers.0.api_key");
    assert_eq!(provider_secret_field(12), "providers.12.api_key");
    assert_eq!(connector_secret_field("telegram"), "platforms.connectors.telegram.token");
}

#[test]
fn untouched_secrets_keep_their_saved_value() {
    let mutations = vec![
        ("providers.1.api_key".to_string(), SecretMutation::Replace(" sk-new ".to_string())),
        ("providers.2.api_key".to_string(), SecretMutation::Clear),
    ];
    let candidate = vec![key("openai", None), key("deepseek", None), key("kimi", None), key("fresh", None)];
    let current = vec![key("openai", Some("sk-old")), key("kimi", Some("sk-kimi"))];
    let steps = provider_secret_steps(&candidate, &current, &mutations);
    assert_eq!(steps.len(), 4);
    assert_eq!(steps[0].0, "providers.0.api_key");
    assert!(matches!(&steps[0].1, SecretStep::Keep(Some(k)) if k == "sk-old"));
    assert!(matches!(&steps[1].1, SecretStep::Normalize(v) if v == " sk-new "));
    assert!(matches!(&steps[2].1, SecretStep::Clear));
    assert!(matches!(&steps[3].1, SecretStep::Keep(None)));
}

#[test]
fn a_single_secret_follows_its_mutation() {
    let mutations = vec![("plugins.exchange_rate.api_key".to_string(), SecretMutation::Clear)];
    let saved = Some("abc".to_string());
    assert!(matches!(secret_step(&mutations, "plugins.exchange_rate.api_key", &saved), SecretStep::Clear));
    assert!(matches!(
        secret_step(&mutations, "platforms.qq.access_token", &saved),
        SecretStep::Keep(Some(ref k)) if k == "abc"
    ));
}

#[test]
fn an_unknown_secret_field_is_refused() {
    let recognized = vec!["providers.0.api_key".to_string(), "platforms.qq.access_token".to_string()];
    let ok = vec![("providers.0.api_key".to_string(), SecretMutation::Clear)];
    assert!(check_secret_fields(&ok, &recognized).is_ok());
    let bad = vec![
        ("providers.0.api_key".to_string(), SecretMutation::Clear),
        ("providers.7.api_key".to_string(), SecretMutation::Replace("x".to_string())),
    ];
    let err = check_secret_fields(&bad, &recognized).err().unwrap();
    assert_eq!(err.status, 400);
    assert_eq!(err.message, "unknown secret field: providers.7.api_key");
}

#[test]
fn a_cleared_plain_secret_becomes_empty() {
    let mutations = vec![
        ("plugins.exchange_rate.api_key".to_string(), SecretMutation::Clear),
        ("platforms.qq.access_token".to_string(), SecretMutation::Replace(" tok ".to_string())),
    ];
    let saved = Some("old".to_string());
    let cleared = secret_step(&mutations, "plugins.exchange_rate.api_key", &saved);
    assert_eq!(string_secret(&cleared, &None), "");
    let set = secret_step(&mutations, "platforms.qq.access_token", &saved);
    assert_eq!(string_secret(&set, &Some("tok".to_string())), "tok");
    assert_eq!(string_secret(&set, &None), "");
    let kept = secret_step(&mutations, "platforms.connectors.tg.token", &saved);
    assert_eq!(string_secret(&kept, &None), "old");
}

#[test]
fn the_recognized_secret_fields_are_listed_in_order() {
    let fields = recognized_secret_fields(2, &vec!["tg".to_string()], &vec!["plugins.web.exa_api_keys.0".to_string()]);
    assert_eq!(
        fields,
        vec![
            "providers.0.api_key",
            "providers.1.api_key",
            "plugins.exchange_rate.api_key",
            "platforms.qq.access_token",
            "platforms.connectors.tg.token",
            "plugins.web.exa_api_keys.0",
        ]
    );
}
