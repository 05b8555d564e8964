use azure_openai_cli::config::{resolve_provider_name, resolve_setting, ProviderConfig};

#[test]
fn provider_config_holds_validated_settings() {
    let pc = ProviderConfig::Azure {
        endpoint: "https://unit.openai.azure.com".to_string(),
        api_key: "k".to_string(),
        engine: "gpt".to_string(),
    };
    let ProviderConfig::Azure { endpoint, api_key, engine } = pc.clone();
    assert_eq!(endpoint, "https://unit.openai.azure.com");
    assert_eq!(api_key, "k");
    assert_eq!(engine, "gpt");
}

#[test]
fn env_nonempty_wins_over_persisted() {
    let r = resolve_setting(
        &Some("https://env.example".to_string()),
        &Some("https://persisted.example".to_string()),
        "<default>",
    );
    assert_eq!(r, "https://env.example");
}

#[test]
fn env_empty_falls_through_to_persisted() {
    let r = resolve_setting(
        &Some(String::new()),
        &Some("https://persisted.example".to_string()),
        "<default>",
    );
    assert_eq!(r, "https://persisted.example");
}

#[test]
fn env_unset_takes_persisted() {
    let r = resolve_setting(&None, &Some("persisted-key".to_string()), "<default>");
    assert_eq!(r, "persisted-key");
}

#[test]
fn both_absent_takes_default_placeholder() {
    let r = resolve_setting(&None, &None, "<your-api-key>");
    assert_eq!(r, "<your-api-key>");
}

#[test]
fn clearing_env_takes_effect_without_restart() {
    let persisted = Some("persisted-value".to_string());
    let with_env = resolve_setting(&Some("env-value".to_string()), &persisted, "<default>");
    assert_eq!(with_env, "env-value");
    // The resolver is stateless: the very next call with the variable
    // cleared falls back to the persisted value.
    let cleared = resolve_setting(&None, &persisted, "<default>");
    assert_eq!(cleared, "persisted-value");
}

#[test]
fn provider_name_env_wins() {
    let r = resolve_provider_name(&Some("azure".to_string()), &Some("other".to_string()));
    assert_eq!(r, Some("azure".to_string()));
}

#[test]
fn provider_name_falls_back_to_persisted() {
    let r = resolve_provider_name(&None, &Some("azure".to_string()));
    assert_eq!(r, Some("azure".to_string()));
}

#[test]
fn provider_name_absent_is_none() {
    let r = resolve_provider_name(&None, &None);
    assert_eq!(r, None);
}

#[test]
fn provider_name_takes_env_even_when_empty() {
    // The provider-name resolution has no non-empty requirement: an env
    // value wins as soon as the variable is set at all.
    let r = resolve_provider_name(&Some(String::new()), &Some("azure".to_string()));
    assert_eq!(r, Some(String::new()));
}
