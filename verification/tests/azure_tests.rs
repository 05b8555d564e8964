use azure_openai_cli::azure::{AzureOpenAIProvider, ChatRequest};
use azure_openai_cli::config::Config;
use azure_openai_cli::provider::ProviderError;
use azure_openai_cli::sse::StreamEvent;

fn provider() -> AzureOpenAIProvider {
    AzureOpenAIProvider {
        endpoint: "https://unit.openai.azure.com".to_string(),
        api_key: "k".to_string(),
        deployment: "gpt".to_string(),
    }
}

#[test]
fn url_joins_the_fixed_parts() {
    assert_eq!(
        provider().build_url(),
        "https://unit.openai.azure.com/openai/deployments/gpt/chat/completions?api-version=2024-02-15-preview"
    );
}

#[test]
fn url_trims_trailing_slashes() {
    let p = AzureOpenAIProvider {
        endpoint: "https://unit.openai.azure.com///".to_string(),
        api_key: "k".to_string(),
        deployment: "gpt".to_string(),
    };
    assert_eq!(
        p.build_url(),
        "https://unit.openai.azure.com/openai/deployments/gpt/chat/completions?api-version=2024-02-15-preview"
    );
}

#[test]
fn body_places_defaults() {
    let req = ChatRequest::new("Hello".to_string(), None, None);
    let body = provider().build_body(&req);
    let body = String::from_utf8(body).unwrap();
    assert_eq!(
        body,
        "{\"messages\":[{\"role\":\"user\",\"content\":\"Hello\"}],\"stream\":true,\"max_tokens\":256,\"temperature\":0.7}"
    );
}

#[test]
fn body_places_explicit_parameters() {
    let req = ChatRequest::new("Hi".to_string(), Some(100), Some(12));
    let body = String::from_utf8(provider().build_body(&req)).unwrap();
    assert!(body.contains("\"max_tokens\":100"));
    assert!(body.contains("\"temperature\":1.2"));
}

#[test]
fn body_escapes_the_prompt() {
    let req = ChatRequest::new("say \"hi\"\n\tback\\now\u{1}".to_string(), None, None);
    let body = String::from_utf8(provider().build_body(&req)).unwrap();
    assert!(body.contains("\"content\":\"say \\\"hi\\\"\\n\\tback\\\\now\\u0001\""));
    // The body must still be valid JSON carrying the original prompt.
    let v: serde_json::Value = serde_json::from_str(&body).unwrap();
    assert_eq!(
        v["messages"][0]["content"].as_str().unwrap(),
        "say \"hi\"\n\tback\\now\u{1}"
    );
}

#[test]
fn body_keeps_multibyte_text() {
    let req = ChatRequest::new("héllo ∆".to_string(), None, None);
    let body = String::from_utf8(provider().build_body(&req)).unwrap();
    let v: serde_json::Value = serde_json::from_str(&body).unwrap();
    assert_eq!(v["messages"][0]["content"].as_str().unwrap(), "héllo ∆");
}

#[test]
fn request_carries_the_key_outside_the_url() {
    let req = ChatRequest::new("Hello".to_string(), None, None);
    let r = provider().build_request(&req);
    assert_eq!(r.api_key, "k");
    assert!(!r.url.contains("k="));
    assert_eq!(r.url, provider().build_url());
}

#[test]
fn http_failure_surfaces_verbatim() {
    let r = provider().process_response(401, b"{\"error\":\"invalid key\"}");
    assert_eq!(
        r.unwrap_err(),
        ProviderError::HttpError(401, "{\"error\":\"invalid key\"}".to_string())
    );
}

#[test]
fn http_failure_body_is_decoded_lossily() {
    let r = provider().process_response(500, b"bad \xff byte");
    match r.unwrap_err() {
        ProviderError::HttpError(status, body) => {
            assert_eq!(status, 500);
            assert_eq!(body, "bad \u{fffd} byte");
        }
        other => panic!("unexpected failure: {:?}", other),
    }
}

#[test]
fn success_status_decodes_the_stream() {
    let body = "data: {\"choices\":[{\"delta\":{\"content\":\"Hi\"}}]}\ndata: [DONE]\n";
    let events = provider().process_response(200, body.as_bytes()).unwrap();
    assert_eq!(
        events,
        vec![StreamEvent::Delta("Hi".to_string()), StreamEvent::Done]
    );
}

#[test]
fn from_config_needs_every_field() {
    let full = Config {
        provider: None,
        azure_endpoint: Some("https://unit.openai.azure.com".to_string()),
        azure_api_key: Some("k".to_string()),
        azure_deployment: Some("gpt".to_string()),
    };
    let p = AzureOpenAIProvider::from_config(&full).unwrap();
    assert_eq!(p.endpoint, "https://unit.openai.azure.com");
    assert_eq!(p.api_key, "k");
    assert_eq!(p.deployment, "gpt");

    let partial = Config {
        provider: None,
        azure_endpoint: Some("https://unit.openai.azure.com".to_string()),
        azure_api_key: Some("k".to_string()),
        azure_deployment: None,
    };
    assert!(AzureOpenAIProvider::from_config(&partial).is_none());
}
