use azure_openai_cli::azure::ChatRequest;
use azure_openai_cli::config::Config;
use azure_openai_cli::provider::{
    construct_provider, plan_invocation, ConfigError, EnvSettings, ProviderError, ProviderHandle,
};

fn empty_env() -> EnvSettings {
    EnvSettings { provider: None, endpoint: None, api_key: None, deployment: None }
}

fn empty_config() -> Config {
    Config { provider: None, azure_endpoint: None, azure_api_key: None, azure_deployment: None }
}

#[test]
fn unknown_provider_is_distinct_failure() {
    let r = construct_provider("openai", &empty_env(), &empty_config());
    assert_eq!(r.unwrap_err(), ConfigError::UnsupportedProvider("openai".to_string()));
}

#[test]
fn missing_deployment_fails_all_or_nothing() {
    let mut env = empty_env();
    env.endpoint = Some("https://unit.openai.azure.com".to_string());
    env.api_key = Some("k".to_string());
    let r = construct_provider("azure", &env, &empty_config());
    assert_eq!(r.unwrap_err(), ConfigError::MissingConfig("deployment".to_string()));
}

#[test]
fn missing_endpoint_is_reported_first() {
    let r = construct_provider("azure", &empty_env(), &empty_config());
    assert_eq!(r.unwrap_err(), ConfigError::MissingConfig("endpoint".to_string()));
}

#[test]
fn missing_api_key_is_reported_second() {
    let mut env = empty_env();
    env.endpoint = Some("https://unit.openai.azure.com".to_string());
    let r = construct_provider("azure", &env, &empty_config());
    assert_eq!(r.unwrap_err(), ConfigError::MissingConfig("api_key".to_string()));
}

#[test]
fn construction_succeeds_with_all_settings() {
    let mut env = empty_env();
    env.endpoint = Some("https://unit.openai.azure.com".to_string());
    env.api_key = Some("k".to_string());
    env.deployment = Some("gpt".to_string());
    let ProviderHandle::Azure(p) =
        construct_provider("azure", &env, &empty_config()).unwrap();
    assert_eq!(p.endpoint, "https://unit.openai.azure.com");
    assert_eq!(p.api_key, "k");
    assert_eq!(p.deployment, "gpt");
}

#[test]
fn lookup_is_case_insensitive() {
    let mut env = empty_env();
    env.endpoint = Some("https://unit.openai.azure.com".to_string());
    env.api_key = Some("k".to_string());
    env.deployment = Some("gpt".to_string());
    assert!(construct_provider("AZURE", &env, &empty_config()).is_ok());
    assert!(construct_provider("Azure", &env, &empty_config()).is_ok());
    assert!(construct_provider("azure ", &env, &empty_config()).is_err());
}

#[test]
fn persisted_settings_construct_too() {
    let config = Config {
        provider: None,
        azure_endpoint: Some("https://persisted.openai.azure.com".to_string()),
        azure_api_key: Some("pk".to_string()),
        azure_deployment: Some("dep".to_string()),
    };
    let ProviderHandle::Azure(p) =
        construct_provider("azure", &empty_env(), &config).unwrap();
    assert_eq!(p.endpoint, "https://persisted.openai.azure.com");
    assert_eq!(p.api_key, "pk");
    assert_eq!(p.deployment, "dep");
}

#[test]
fn config_error_messages() {
    let unsupported = ConfigError::UnsupportedProvider("openai".to_string());
    assert_eq!(unsupported.message(), "Unsupported provider: openai");
    let missing = ConfigError::MissingConfig("deployment".to_string());
    assert_eq!(missing.message(), "Missing config: deployment");
}

#[test]
fn provider_error_messages() {
    let failed = ProviderError::RequestFailed("connection refused".to_string());
    assert_eq!(failed.message(), "Request failed: connection refused");
    let http = ProviderError::HttpError(401, "{\"error\":\"invalid key\"}".to_string());
    assert_eq!(http.message(), "Error: 401 - {\"error\":\"invalid key\"}");
}

#[test]
fn plan_invocation_defaults_to_azure() {
    let mut env = empty_env();
    env.endpoint = Some("https://unit.openai.azure.com/".to_string());
    env.api_key = Some("k".to_string());
    env.deployment = Some("gpt".to_string());
    let req = ChatRequest::new("Hello".to_string(), None, None);
    let (_, request) = plan_invocation(&env, &empty_config(), &req).unwrap();
    assert_eq!(
        request.url,
        "https://unit.openai.azure.com/openai/deployments/gpt/chat/completions?api-version=2024-02-15-preview"
    );
    assert_eq!(request.api_key, "k");
}

#[test]
fn plan_invocation_rejects_unknown_persisted_provider() {
    let mut config = empty_config();
    config.provider = Some("openai".to_string());
    let req = ChatRequest::new("Hello".to_string(), None, None);
    let r = plan_invocation(&empty_env(), &config, &req);
    assert_eq!(r.unwrap_err(), ConfigError::UnsupportedProvider("openai".to_string()));
}

#[test]
fn plan_invocation_reports_unconfigured_state() {
    let req = ChatRequest::new("Hello".to_string(), None, None);
    let r = plan_invocation(&empty_env(), &empty_config(), &req);
    assert_eq!(r.unwrap_err(), ConfigError::MissingConfig("endpoint".to_string()));
}

#[test]
fn env_provider_name_wins_in_plan() {
    let mut env = empty_env();
    env.provider = Some("openai".to_string());
    let mut config = empty_config();
    config.provider = Some("azure".to_string());
    let req = ChatRequest::new("Hello".to_string(), None, None);
    let r = plan_invocation(&env, &config, &req);
    assert_eq!(r.unwrap_err(), ConfigError::UnsupportedProvider("openai".to_string()));
}
