//! The decisions behind the user-interface commands on configuration and
//! providers: which API key a provider needs, whether it is configured,
//! which providers are listed, and which is the default.
use vstd::prelude::*;
use crate::db::Provider;
use crate::text::{concat3, is_blank, owned, str_eq, trim};

verus! {

/// Whether the API key is configured.
pub struct ConfigCheckResponse {
    pub has_api_key: bool,
}

/// A provider as the user interface lists it.
pub struct ProviderInfo {
    pub id: String,
    pub name: String,
    pub model_id: String,
    pub is_configured: bool,
}

/// Whether an environment value is set and not blank.
pub open spec fn non_blank_value(v: Option<Seq<char>>) -> bool {
    match v {
        Some(s) => trim(s).len() > 0,
        None => false,
    }
}

/// The model of an optional text.
pub open spec fn opt_str(v: Option<&str>) -> Option<Seq<char>> {
    match v {
        Some(s) => Some(s@),
        None => None,
    }
}

/// Whether the configuration has an API key: `MINIMAX_API_KEY` (`api_key`)
/// is set and not blank.
pub fn check_config(api_key: Option<&str>) -> (r: ConfigCheckResponse)
    ensures
        r.has_api_key == non_blank_value(opt_str(api_key)),
{
    let has_api_key = match api_key {
        Some(k) => !is_blank(k),
        None => false,
    };
    ConfigCheckResponse { has_api_key }
}

/// The environment variable that holds the API key of a provider.
pub open spec fn api_key_variable(provider_id: Seq<char>) -> Option<Seq<char>> {
    if provider_id == "deepseek"@ {
        Some("DEEPSEEK_API_KEY"@)
    } else if provider_id == "minimax"@ {
        Some("MINIMAX_API_KEY"@)
    } else if provider_id == "openai"@ {
        Some("OPENAI_API_KEY"@)
    } else if provider_id == "anthropic"@ {
        Some("ANTHROPIC_API_KEY"@)
    } else {
        None
    }
}

/// The environment variable that holds the API key of `provider_id`, for a
/// known provider.
pub fn api_key_var(provider_id: &str) -> (r: Option<&'static str>)
    ensures
        opt_str(r) == api_key_variable(provider_id@),
{
    if str_eq(provider_id, "deepseek") {
        Some("DEEPSEEK_API_KEY")
    } else if str_eq(provider_id, "minimax") {
        Some("MINIMAX_API_KEY")
    } else if str_eq(provider_id, "openai") {
        Some("OPENAI_API_KEY")
    } else if str_eq(provider_id, "anthropic") {
        Some("ANTHROPIC_API_KEY")
    } else {
        None
    }
}

/// Whether a provider is configured: it is a known provider and its API key
/// variable holds `key_value`, set and not blank.
pub fn is_provider_configured(provider_id: &str, key_value: Option<&str>) -> (r: bool)
    ensures
        r == (api_key_variable(provider_id@) is Some && non_blank_value(opt_str(key_value))),
{
    match api_key_var(provider_id) {
        None => false,
        Some(_) => match key_value {
            Some(v) => !is_blank(v),
            None => false,
        },
    }
}

/// The listing of `p`, configured or not.
pub fn provider_info(p: Provider, is_configured: bool) -> (r: ProviderInfo)
    ensures
        r.id@ == p.id@,
        r.name@ == p.name@,
        r.model_id@ == p.model_id@,
        r.is_configured == is_configured,
{
    ProviderInfo { id: p.id, name: p.name, model_id: p.model_id, is_configured }
}

/// Whether the providers list shows a provider: only MiniMax and DeepSeek.
pub open spec fn listed_provider(id: Seq<char>) -> bool {
    id == "minimax"@ || id == "deepseek"@
}

/// The model of a provider: id, name, type, base URL, model and creation
/// time.
pub open spec fn provider_view(p: Provider) -> (Seq<char>, Seq<char>, Seq<char>, Seq<char>, Seq<char>, i64) {
    (p.id@, p.name@, p.provider_type@, p.base_url@, p.model_id@, p.created_at)
}

/// A copy of the provider `p`.
pub fn copy_provider(p: &Provider) -> (r: Provider)
    ensures
        provider_view(r) == provider_view(*p),
{
    Provider {
        id: owned(p.id.as_str()),
        name: owned(p.name.as_str()),
        provider_type: owned(p.provider_type.as_str()),
        base_url: owned(p.base_url.as_str()),
        model_id: owned(p.model_id.as_str()),
        created_at: p.created_at,
    }
}

/// The providers that the list shows, in their order.
pub fn listed_providers(providers: &Vec<Provider>) -> (r: Vec<Provider>)
    ensures
        r@.map_values(|p: Provider| provider_view(p)) == providers@.map_values(|p: Provider| provider_view(p)).filter(
            |v: (Seq<char>, Seq<char>, Seq<char>, Seq<char>, Seq<char>, i64)| listed_provider(v.0),
        ),
{
    let ghost vs = providers@.map_values(|p: Provider| provider_view(p));
    let mut out: Vec<Provider> = Vec::new();
    let mut i: usize = 0;
    while i < providers.len()
        invariant
            i <= providers@.len(),
            vs == providers@.map_values(|p: Provider| provider_view(p)),
            out@.map_values(|p: Provider| provider_view(p)) == vs.take(i as int).filter(
                |v: (Seq<char>, Seq<char>, Seq<char>, Seq<char>, Seq<char>, i64)| listed_provider(v.0),
            ),
        decreases providers@.len() - i,
    {
        proof {
            reveal(Seq::filter);
            assert(vs.take(i + 1 as int).drop_last() =~= vs.take(i as int));
            assert(vs.take(i + 1 as int).last() == provider_view(providers@[i as int]));
        }
        let ghost before = out@;
        if str_eq(providers[i].id.as_str(), "minimax") || str_eq(providers[i].id.as_str(), "deepseek") {
            let c = copy_provider(&providers[i]);
            out.push(c);
            assert(out@.map_values(|p: Provider| provider_view(p)) =~= before.map_values(|p: Provider| provider_view(p)).push(
                provider_view(providers@[i as int]),
            ));
        }
        i = i + 1;
    }
    assert(vs.take(i as int) =~= vs);
    out
}

/// The default provider's id: the stored setting, else `deepseek`.
pub fn default_provider_id(setting: Option<String>) -> (r: String)
    ensures
        r@ == match setting {
            Some(s) => s@,
            None => "deepseek"@,
        },
{
    match setting {
        Some(s) => s,
        None => owned(crate::db::DEFAULT_PROVIDER_ID),
    }
}

/// The error for a provider id that names no provider.
pub fn provider_not_found(provider_id: &str) -> (r: String)
    ensures
        r@ == "provider "@ + provider_id@ + " not found"@,
{
    concat3("provider ", provider_id, " not found")
}

} // verus!
