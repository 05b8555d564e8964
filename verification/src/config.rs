//! Persisted settings and the configuration resolver.
//!
//! A [`Config`] is the flat, persisted key/value record: four independently
//! optional string settings.  Absence of a key is distinct from an empty
//! string, and nothing is validated at load time.
//!
//! [`resolve_setting`] merges one setting from three sources with a fixed
//! precedence: an environment variable set to a non-empty value always wins
//! over a persisted value, which always wins over the caller-supplied
//! default placeholder.  The placeholder is a deliberately invalid-looking
//! value whose presence downstream signals "unconfigured"; it is never a
//! usable credential.

use vstd::prelude::*;

verus! {

/// Validated provider settings, as persisted in one tagged record.
#[derive(Debug, Clone)]
pub enum ProviderConfig {
    Azure { endpoint: String, api_key: String, engine: String },
}

/// The persisted configuration record: every field independently optional.
#[derive(Debug)]
pub struct Config {
    pub provider: Option<String>,
    pub azure_endpoint: Option<String>,
    pub azure_api_key: Option<String>,
    pub azure_deployment: Option<String>,
}

/// The value [`resolve_setting`] returns, stated over character sequences.
pub open spec fn resolve_spec(
    env_value: Option<Seq<char>>,
    persisted: Option<Seq<char>>,
    default: Seq<char>,
) -> Seq<char> {
    if env_value is Some && env_value->0.len() > 0 {
        env_value->0
    } else if persisted is Some {
        persisted->0
    } else {
        default
    }
}

/// Merge one setting from its three sources.  Highest precedence first: the
/// environment variable if set and non-empty, then the persisted value if
/// present, then the default placeholder.  Total: it never fails.
pub fn resolve_setting(
    env_value: &Option<String>,
    persisted: &Option<String>,
    default: &str,
) -> (r: String)
    ensures
        r@ == resolve_spec(env_value.deep_view(), persisted.deep_view(), default@),
{
    match env_value {
        Some(v) if !v.as_str().is_empty() => v.clone(),
        _ => match persisted {
            Some(p) => p.clone(),
            None => default.to_owned(),
        },
    }
}

/// The value [`resolve_provider_name`] returns.  Weaker than
/// [`resolve_spec`]: the environment value if set (even empty), else the
/// persisted value, else nothing — an unset provider is a genuine absence
/// of choice, not a placeholder situation.
pub open spec fn provider_name_spec(
    env_value: Option<Seq<char>>,
    persisted: Option<Seq<char>>,
) -> Option<Seq<char>> {
    if env_value is Some {
        env_value
    } else {
        persisted
    }
}

/// Resolve the provider name: environment variable, else persisted value,
/// else none.  No default is supplied.
pub fn resolve_provider_name(
    env_value: &Option<String>,
    persisted: &Option<String>,
) -> (r: Option<String>)
    ensures
        r.deep_view() == provider_name_spec(env_value.deep_view(), persisted.deep_view()),
{
    match env_value {
        Some(v) => Some(v.clone()),
        None => match persisted {
            Some(p) => Some(p.clone()),
            None => None,
        },
    }
}

/// Precedence law: a non-empty environment value always wins; with the
/// environment variable cleared, the persisted value takes effect at the
/// very next resolution (the resolver is stateless); with both absent, the
/// default placeholder is returned.
pub proof fn lemma_resolve_precedence(
    env_value: Option<Seq<char>>,
    persisted: Option<Seq<char>>,
    default: Seq<char>,
)
    ensures
        env_value is Some && env_value->0.len() > 0 ==> resolve_spec(
            env_value,
            persisted,
            default,
        ) == env_value->0,
        persisted is Some ==> resolve_spec(None, persisted, default) == persisted->0,
        (env_value is None || env_value->0.len() == 0) && persisted is None ==> resolve_spec(
            env_value,
            persisted,
            default,
        ) == default,
{
}

} // verus!
