//! The provider registry and its error taxonomy.
//!
//! A provider is looked up by name, case-insensitively.  Construction is
//! all-or-nothing: every required setting must resolve to a present,
//! non-placeholder value, or construction fails naming the first missing
//! field.  An unrecognised name and incomplete credentials stay
//! distinguishable failures — a user with a typo and a user with missing
//! credentials need different remediation.

use crate::azure::{
    body_spec, lossy_of, url_spec, AzureOpenAIProvider, ChatRequest, HttpRequest,
};
use crate::config::{
    provider_name_spec, resolve_provider_name, resolve_spec, resolve_setting, Config,
};
use crate::sse::{events_view, sse_events, StreamEvent};
use vstd::utf8::encode_utf8;
use vstd::prelude::*;

verus! {

/// A construction-time failure: the requested provider is not registered,
/// or one of its required settings did not resolve.
#[derive(Debug, PartialEq, Eq)]
pub enum ConfigError {
    /// The requested provider name, which no registered provider matches.
    UnsupportedProvider(String),
    /// The name of the first required setting that did not resolve.
    MissingConfig(String),
}

/// A completion-time failure: the transport failed outright, or the
/// backend answered with a non-success status.
#[derive(Debug, PartialEq, Eq)]
pub enum ProviderError {
    /// The transport-level detail of a request that never got an answer.
    RequestFailed(String),
    /// The HTTP status and the response body, verbatim, of a failed call.
    HttpError(u16, String),
}

/// The outcome the orchestrator reports to its caller: the completion text
/// was already streamed, or a single descriptive failure message remains
/// to be written to an error stream.
#[derive(Debug, PartialEq, Eq)]
pub enum ExitOutcome {
    Success,
    Failure(String),
}

/// The decimal digit `d`, as a character.
pub open spec fn digit_char(d: int) -> char {
    "0123456789"@[d]
}

/// The decimal rendering of `n`, most significant digit first, no sign and
/// no leading zero.
pub open spec fn dec_chars(n: u32) -> Seq<char>
    decreases n,
{
    if n < 10 {
        seq![digit_char(n as int)]
    } else {
        dec_chars(n / 10).push(digit_char((n % 10) as int))
    }
}

/// Append the decimal rendering of `n`.
pub fn append_dec(out: &mut String, n: u32)
    ensures
        final(out)@ == old(out)@ + dec_chars(n),
    decreases n,
{
    if n >= 10 {
        append_dec(out, n / 10);
    }
    let d = (n % 10) as usize;
    let digits = "0123456789";
    proof {
        reveal_strlit("0123456789");
    }
    let ds = digits.substring_char(d, d + 1);
    proof {
        assert(ds@ =~= seq![digit_char(d as int)]);
    }
    out.append(ds);
    proof {
        if n < 10 {
            assert(old(out)@ + dec_chars(n) =~= old(out)@ + ds@);
        } else {
            assert((old(out)@ + dec_chars(n / 10)) + ds@ =~= old(out)@ + dec_chars(n));
        }
    }
}

impl ConfigError {
    /// The single descriptive message this failure surfaces as.
    pub fn message(&self) -> (r: String)
        ensures
            (match self {
                ConfigError::UnsupportedProvider(n) => r@ == "Unsupported provider: "@ + n@,
                ConfigError::MissingConfig(f) => r@ == "Missing config: "@ + f@,
            }),
    {
        let mut s = String::new();
        match self {
            ConfigError::UnsupportedProvider(n) => {
                s.append("Unsupported provider: ");
                s.append(n.as_str());
                proof {
                    assert((Seq::<char>::empty() + "Unsupported provider: "@) + n@
                        =~= "Unsupported provider: "@ + n@);
                }
            },
            ConfigError::MissingConfig(f) => {
                s.append("Missing config: ");
                s.append(f.as_str());
                proof {
                    assert((Seq::<char>::empty() + "Missing config: "@) + f@ =~= "Missing config: "@
                        + f@);
                }
            },
        }
        s
    }
}

impl ProviderError {
    /// The single descriptive message this failure surfaces as.
    pub fn message(&self) -> (r: String)
        ensures
            (match self {
                ProviderError::RequestFailed(d) => r@ == "Request failed: "@ + d@,
                ProviderError::HttpError(status, body) => r@ == "Error: "@ + dec_chars(
                    status as u32,
                ) + " - "@ + body@,
            }),
    {
        let mut s = String::new();
        match self {
            ProviderError::RequestFailed(d) => {
                s.append("Request failed: ");
                s.append(d.as_str());
                proof {
                    assert((Seq::<char>::empty() + "Request failed: "@) + d@ =~= "Request failed: "@
                        + d@);
                }
            },
            ProviderError::HttpError(status, body) => {
                s.append("Error: ");
                append_dec(&mut s, *status as u32);
                s.append(" - ");
                s.append(body.as_str());
                proof {
                    assert((((Seq::<char>::empty() + "Error: "@) + dec_chars(*status as u32))
                        + " - "@) + body@ =~= "Error: "@ + dec_chars(*status as u32) + " - "@
                        + body@);
                }
            },
        }
        s
    }
}

/// Whether `s` names the Azure provider, compared case-insensitively.
pub open spec fn is_azure_name(s: Seq<char>) -> bool {
    s.len() == 5 && (s[0] == 'a' || s[0] == 'A') && (s[1] == 'z' || s[1] == 'Z') && (s[2] == 'u'
        || s[2] == 'U') && (s[3] == 'r' || s[3] == 'R') && (s[4] == 'e' || s[4] == 'E')
}

/// Case-insensitive lookup of the one registered provider name.
fn name_is_azure(name: &str) -> (r: bool)
    ensures
        r == is_azure_name(name@),
{
    let n = name.unicode_len();
    if n != 5 {
        return false;
    }
    let c0 = name.get_char(0);
    let c1 = name.get_char(1);
    let c2 = name.get_char(2);
    let c3 = name.get_char(3);
    let c4 = name.get_char(4);
    (c0 == 'a' || c0 == 'A') && (c1 == 'z' || c1 == 'Z') && (c2 == 'u' || c2 == 'U') && (c3 == 'r'
        || c3 == 'R') && (c4 == 'e' || c4 == 'E')
}

/// The settings read from the process environment, one per setting of
/// [`Config`]; `None` where the variable is unset.
pub struct EnvSettings {
    pub provider: Option<String>,
    pub endpoint: Option<String>,
    pub api_key: Option<String>,
    pub deployment: Option<String>,
}

/// The endpoint default: a placeholder that signals "unconfigured".
pub open spec fn endpoint_placeholder() -> Seq<char> {
    "https://<your-endpoint>.openai.azure.com"@
}

/// The API-key default: a placeholder that signals "unconfigured".
pub open spec fn api_key_placeholder() -> Seq<char> {
    "<your-api-key>"@
}

/// The deployment default: a placeholder that signals "unconfigured".
pub open spec fn deployment_placeholder() -> Seq<char> {
    "<your-deployment>"@
}

/// The endpoint in effect: environment, else persisted, else placeholder.
pub open spec fn resolved_endpoint(env: EnvSettings, config: Config) -> Seq<char> {
    resolve_spec(env.endpoint.deep_view(), config.azure_endpoint.deep_view(), endpoint_placeholder())
}

/// The API key in effect: environment, else persisted, else placeholder.
pub open spec fn resolved_api_key(env: EnvSettings, config: Config) -> Seq<char> {
    resolve_spec(env.api_key.deep_view(), config.azure_api_key.deep_view(), api_key_placeholder())
}

/// The deployment in effect: environment, else persisted, else placeholder.
pub open spec fn resolved_deployment(env: EnvSettings, config: Config) -> Seq<char> {
    resolve_spec(
        env.deployment.deep_view(),
        config.azure_deployment.deep_view(),
        deployment_placeholder(),
    )
}

/// The provider name in effect: environment, else persisted, else the
/// built-in default `azure`.
pub open spec fn effective_provider_name(env: EnvSettings, config: Config) -> Seq<char> {
    match provider_name_spec(env.provider.deep_view(), config.provider.deep_view()) {
        Some(n) => n,
        None => "azure"@,
    }
}

/// A constructed provider: a closed set of variants, dispatched through
/// one interface.  Adding a vendor means adding a variant, never touching
/// call sites.
#[derive(Debug)]
pub enum ProviderHandle {
    Azure(AzureOpenAIProvider),
}

/// Construct the provider `name` names, validating all of its required
/// settings at once.  Lookup is case-insensitive.  Construction is
/// all-or-nothing: each required setting must resolve past its placeholder,
/// else the first missing one is reported — never a partial handle.
pub fn construct_provider(name: &str, env: &EnvSettings, config: &Config) -> (r: Result<
    ProviderHandle,
    ConfigError,
>)
    ensures
        r is Ok <==> is_azure_name(name@) && resolved_endpoint(*env, *config)
            != endpoint_placeholder() && resolved_api_key(*env, *config) != api_key_placeholder()
            && resolved_deployment(*env, *config) != deployment_placeholder(),
        r is Ok ==> r->Ok_0->Azure_0.endpoint@ == resolved_endpoint(*env, *config)
            && r->Ok_0->Azure_0.api_key@ == resolved_api_key(*env, *config)
            && r->Ok_0->Azure_0.deployment@ == resolved_deployment(*env, *config),
        !is_azure_name(name@) ==> r is Err && r->Err_0 is UnsupportedProvider
            && r->Err_0->UnsupportedProvider_0@ == name@,
        is_azure_name(name@) && resolved_endpoint(*env, *config) == endpoint_placeholder() ==> r
            is Err && r->Err_0 is MissingConfig && r->Err_0->MissingConfig_0@ == "endpoint"@,
        is_azure_name(name@) && resolved_endpoint(*env, *config) != endpoint_placeholder()
            && resolved_api_key(*env, *config) == api_key_placeholder() ==> r is Err
            && r->Err_0 is MissingConfig && r->Err_0->MissingConfig_0@ == "api_key"@,
        is_azure_name(name@) && resolved_endpoint(*env, *config) != endpoint_placeholder()
            && resolved_api_key(*env, *config) != api_key_placeholder() && resolved_deployment(
            *env,
            *config,
        ) == deployment_placeholder() ==> r is Err && r->Err_0 is MissingConfig
            && r->Err_0->MissingConfig_0@ == "deployment"@,
{
    if !name_is_azure(name) {
        return Err(ConfigError::UnsupportedProvider(name.to_owned()));
    }
    let endpoint = resolve_setting(
        &env.endpoint,
        &config.azure_endpoint,
        "https://<your-endpoint>.openai.azure.com",
    );
    if endpoint == "https://<your-endpoint>.openai.azure.com".to_owned() {
        return Err(ConfigError::MissingConfig("endpoint".to_owned()));
    }
    let api_key = resolve_setting(&env.api_key, &config.azure_api_key, "<your-api-key>");
    if api_key == "<your-api-key>".to_owned() {
        return Err(ConfigError::MissingConfig("api_key".to_owned()));
    }
    let deployment = resolve_setting(
        &env.deployment,
        &config.azure_deployment,
        "<your-deployment>",
    );
    if deployment == "<your-deployment>".to_owned() {
        return Err(ConfigError::MissingConfig("deployment".to_owned()));
    }
    Ok(ProviderHandle::Azure(AzureOpenAIProvider { endpoint, api_key, deployment }))
}

impl ProviderHandle {
    /// Build the one HTTP request a completion call through this handle
    /// sends.
    pub fn build_request(&self, req: &ChatRequest) -> (r: HttpRequest)
        requires
            req.wf(),
        ensures
            (match self {
                ProviderHandle::Azure(p) => r.url@ == url_spec(p.endpoint@, p.deployment@)
                    && r.api_key@ == p.api_key@ && r.body@ == body_spec(
                    encode_utf8(req.prompt@),
                    req.effective_max_tokens(),
                    req.effective_temperature_tenths(),
                ),
            }),
    {
        match self {
            ProviderHandle::Azure(p) => p.build_request(req),
        }
    }

    /// Turn the raw response of this handle's one request into events, or
    /// into the verbatim HTTP failure.
    pub fn process_response(&self, status: u16, body: &[u8]) -> (r: Result<
        Vec<StreamEvent>,
        ProviderError,
    >)
        ensures
            200 <= status < 300 <==> r is Ok,
            r is Ok ==> events_view(r->Ok_0@) == sse_events(body@),
            r is Err ==> r->Err_0 is HttpError && r->Err_0->HttpError_0 == status
                && r->Err_0->HttpError_1@ == lossy_of(body@),
            r is Err && (forall|k: int| 0 <= k < body@.len() ==> body@[k] < 128)
                ==> r->Err_0->HttpError_1@ == body@.map_values(|b: u8| b as char),
    {
        match self {
            ProviderHandle::Azure(p) => p.process_response(status, body),
        }
    }
}

/// Resolve the provider name (environment, else persisted, else `azure`),
/// construct that provider, and build its request: everything of one
/// invocation up to the network call, which the caller performs with the
/// returned request before handing the raw response to
/// [`ProviderHandle::process_response`].
pub fn plan_invocation(env: &EnvSettings, config: &Config, req: &ChatRequest) -> (r: Result<
    (ProviderHandle, HttpRequest),
    ConfigError,
>)
    requires
        req.wf(),
    ensures
        r is Ok <==> is_azure_name(effective_provider_name(*env, *config)) && resolved_endpoint(
            *env,
            *config,
        ) != endpoint_placeholder() && resolved_api_key(*env, *config) != api_key_placeholder()
            && resolved_deployment(*env, *config) != deployment_placeholder(),
        r is Ok ==> r->Ok_0.0->Azure_0.endpoint@ == resolved_endpoint(*env, *config)
            && r->Ok_0.0->Azure_0.api_key@ == resolved_api_key(*env, *config)
            && r->Ok_0.0->Azure_0.deployment@ == resolved_deployment(*env, *config),
        r is Ok ==> r->Ok_0.1.url@ == url_spec(
            resolved_endpoint(*env, *config),
            resolved_deployment(*env, *config),
        ) && r->Ok_0.1.api_key@ == resolved_api_key(*env, *config) && r->Ok_0.1.body@ == body_spec(
            encode_utf8(req.prompt@),
            req.effective_max_tokens(),
            req.effective_temperature_tenths(),
        ),
        !is_azure_name(effective_provider_name(*env, *config)) ==> r is Err
            && r->Err_0 is UnsupportedProvider && r->Err_0->UnsupportedProvider_0@
            == effective_provider_name(*env, *config),
        r is Err && r->Err_0 is MissingConfig ==> is_azure_name(
            effective_provider_name(*env, *config),
        ),
        is_azure_name(effective_provider_name(*env, *config)) && resolved_endpoint(*env, *config)
            == endpoint_placeholder() ==> r is Err && r->Err_0 is MissingConfig
            && r->Err_0->MissingConfig_0@ == "endpoint"@,
        is_azure_name(effective_provider_name(*env, *config)) && resolved_endpoint(*env, *config)
            != endpoint_placeholder() && resolved_api_key(*env, *config) == api_key_placeholder()
            ==> r is Err && r->Err_0 is MissingConfig && r->Err_0->MissingConfig_0@ == "api_key"@,
        is_azure_name(effective_provider_name(*env, *config)) && resolved_endpoint(*env, *config)
            != endpoint_placeholder() && resolved_api_key(*env, *config) != api_key_placeholder()
            && resolved_deployment(*env, *config) == deployment_placeholder() ==> r is Err
            && r->Err_0 is MissingConfig && r->Err_0->MissingConfig_0@ == "deployment"@,
{
    let name = match resolve_provider_name(&env.provider, &config.provider) {
        Some(n) => n,
        None => "azure".to_owned(),
    };
    match construct_provider(name.as_str(), env, config) {
        Err(e) => Err(e),
        Ok(handle) => {
            let request = handle.build_request(req);
            Ok((handle, request))
        },
    }
}

} // verus!
