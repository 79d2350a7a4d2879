//! The configuration: model profiles, providers and how names resolve to them.

use crate::cache::CachePolicy;
use crate::table::Table;
use crate::text::{self, same};
use vstd::prelude::*;
use vstd::string::*;

verus! {

/// The upstream API that a model is served by.
#[derive(Debug, Clone, Copy, PartialEq, Eq, Structural)]
pub enum WireApi {
    ChatCompletions,
    Responses,
}

/// What is known of one upstream model.
#[derive(Debug, Clone)]
pub struct ModelProfile {
    pub name: String,
    pub provider: String,
    pub reasoning_enabled: bool,
    pub reasoning_replay: bool,
    pub toolcall_requires_reasoning: bool,
    pub aliases: Vec<String>,
    pub wire_api: WireApi,
}

/// The dialect of one provider.
#[derive(Debug, Clone)]
pub struct ProviderConfig {
    pub reasoning_field: String,
    pub reasoning_field_alt: Vec<String>,
    pub thinking_param: Option<String>,
    pub thinking_type_enabled: Option<String>,
    pub thinking_type_disabled: Option<String>,
    pub disable_thinking: bool,
    pub effort_param: String,
    pub effort_map: Table<String>,
    pub responses_reasoning_summary: Option<String>,
    pub cache_policy: Option<CachePolicy>,
}

/// The configuration of the proxy.
#[derive(Debug, Clone)]
pub struct Config {
    pub listen_addr: String,
    pub eswitch_url: String,
    pub moonshot_official_url: String,
    pub moonshot_official_api_key: String,
    pub api_key: String,
    pub log_level: String,
    pub model_mapping: Table<String>,
    pub default_model: String,
    pub model_profiles: Vec<ModelProfile>,
    pub providers: Table<ProviderConfig>,
    pub profile_by_name: Table<usize>,
}

/// The policy that a provider declares, where it declares one.
pub open spec fn declared_policy(provider: Option<ProviderConfig>) -> Option<CachePolicy> {
    match provider {
        Some(p) => p.cache_policy,
        None => None,
    }
}

/// The upstream that a provider declares, where it declares one.
pub open spec fn declared_upstream(provider: Option<ProviderConfig>) -> Option<Seq<char>> {
    match declared_policy(provider) {
        Some(policy) => text::opt_text(policy.upstream),
        None => None,
    }
}

impl Config {
    /// The profile of a model name or alias.
    pub open spec fn profile_of(self, name: Seq<char>) -> Option<ModelProfile> {
        if self.profile_by_name@.contains_key(name) && self.profile_by_name@[name]
            < self.model_profiles@.len() {
            Some(self.model_profiles@[self.profile_by_name@[name] as int])
        } else {
            None
        }
    }

    /// The provider of a name; the old name of the Moonshot provider stands for the
    /// canonical one where no provider of its own is configured.
    pub open spec fn provider_of(self, name: Seq<char>) -> Option<ProviderConfig> {
        if self.providers@.contains_key(name) {
            Some(self.providers@[name])
        } else if name == "moonshot-official"@ && self.providers@.contains_key("moonshot"@) {
            Some(self.providers@["moonshot"@])
        } else {
            None
        }
    }

    /// The upstream that a provider is bound to: the declared one, or the official
    /// one under the old name of the Moonshot provider.
    pub open spec fn binding_of(self, provider: Seq<char>) -> Option<Seq<char>> {
        match declared_upstream(self.provider_of(provider)) {
            Some(upstream) => Some(upstream),
            None => if provider == "moonshot-official"@ {
                Some("official"@)
            } else {
                None
            },
        }
    }

    /// The provider that serves a model.
    pub open spec fn model_provider(self, model: Seq<char>) -> Option<ProviderConfig> {
        match self.profile_of(model) {
            Some(profile) => self.provider_of(profile.provider@),
            None => None,
        }
    }

    /// The cache policy under which a model is served.
    pub open spec fn model_policy(self, model: Seq<char>) -> Option<CachePolicy> {
        declared_policy(self.model_provider(model))
    }

    /// The upstream that a model is bound to.
    pub open spec fn model_binding(self, model: Seq<char>) -> Option<Seq<char>> {
        match self.profile_of(model) {
            Some(profile) => self.binding_of(profile.provider@),
            None => None,
        }
    }

    /// The profile of a model name or alias.
    pub fn model_profile<'a>(&'a self, name: &str) -> (r: Option<&'a ModelProfile>)
        ensures
            match r {
                Some(profile) => self.profile_of(name@) == Some(*profile),
                None => self.profile_of(name@) is None,
            },
    {
        match self.profile_by_name.get(name) {
            Some(index) => if *index < self.model_profiles.len() {
                Some(&self.model_profiles[*index])
            } else {
                None
            },
            None => None,
        }
    }

    /// The provider of a name.
    pub fn provider_config<'a>(&'a self, name: &str) -> (r: Option<&'a ProviderConfig>)
        ensures
            match r {
                Some(provider) => self.provider_of(name@) == Some(*provider),
                None => self.provider_of(name@) is None,
            },
    {
        match self.providers.get(name) {
            Some(provider) => Some(provider),
            None => if same(name, "moonshot-official") {
                self.providers.get("moonshot")
            } else {
                None
            },
        }
    }

    /// The upstream that a provider is bound to.
    pub fn effective_upstream_binding<'a>(&'a self, provider: &str) -> (r: Option<&'a str>)
        ensures
            text::opt_str(r) == self.binding_of(provider@),
    {
        match self.provider_config(provider) {
            Some(config) => match &config.cache_policy {
                Some(policy) => match &policy.upstream {
                    Some(upstream) => {
                        return Some(upstream.as_str());
                    },
                    None => {},
                },
                None => {},
            },
            None => {},
        }
        if same(provider, "moonshot-official") {
            Some("official")
        } else {
            None
        }
    }

    /// The provider that serves a model.
    pub fn provider_for_model<'a>(&'a self, model: &str) -> (r: Option<&'a ProviderConfig>)
        ensures
            match r {
                Some(provider) => self.model_provider(model@) == Some(*provider),
                None => self.model_provider(model@) is None,
            },
    {
        match self.model_profile(model) {
            Some(profile) => self.provider_config(profile.provider.as_str()),
            None => None,
        }
    }

    /// The cache policy under which a model is served.
    pub fn policy_for_model<'a>(&'a self, model: &str) -> (r: Option<&'a CachePolicy>)
        ensures
            match r {
                Some(policy) => self.model_policy(model@) == Some(*policy),
                None => self.model_policy(model@) is None,
            },
    {
        match self.provider_for_model(model) {
            Some(provider) => match &provider.cache_policy {
                Some(policy) => Some(policy),
                None => None,
            },
            None => None,
        }
    }

    /// The upstream that a model is bound to.
    pub fn binding_for_model<'a>(&'a self, model: &str) -> (r: Option<&'a str>)
        ensures
            text::opt_str(r) == self.model_binding(model@),
    {
        match self.model_profile(model) {
            Some(profile) => self.effective_upstream_binding(profile.provider.as_str()),
            None => None,
        }
    }

    /// The API that a model is served by: that of its profile, or Chat Completions.
    pub open spec fn wire_api_of(self, model: Seq<char>) -> WireApi {
        match self.profile_of(model) {
            Some(profile) => profile.wire_api,
            None => WireApi::ChatCompletions,
        }
    }

    /// The API that a model is served by.
    pub fn wire_api_for_model(&self, model: &str) -> (r: WireApi)
        ensures
            r == self.wire_api_of(model@),
    {
        match self.model_profile(model) {
            Some(profile) => profile.wire_api,
            None => WireApi::ChatCompletions,
        }
    }
}

/// A declared upstream always wins; the old name of the Moonshot provider counts
/// only where none is declared, and no other name is bound by itself.
pub proof fn law_binding_precedence(config: Config, provider: Seq<char>)
    ensures
        match declared_upstream(config.provider_of(provider)) {
            Some(upstream) => config.binding_of(provider) == Some(upstream),
            None => config.binding_of(provider) is Some <==> provider == "moonshot-official"@,
        },
{
}

/// A model is served by the provider that its profile names, under the policy that this
/// provider declares and through the API that the profile has; a name without a profile
/// has neither provider nor policy, and goes through Chat Completions.
pub proof fn law_profiles_decide(config: Config, model: Seq<char>)
    ensures
        match config.profile_of(model) {
            Some(profile) => {
                &&& config.profile_by_name@.contains_key(model)
                &&& profile == config.model_profiles@[config.profile_by_name@[model] as int]
                &&& config.model_provider(model) == config.provider_of(profile.provider@)
                &&& config.model_binding(model) == config.binding_of(profile.provider@)
                &&& config.wire_api_of(model) == profile.wire_api
            },
            None => {
                &&& !config.profile_by_name@.contains_key(model)
                    || config.profile_by_name@[model] >= config.model_profiles@.len()
                &&& config.model_provider(model) is None
                &&& config.model_binding(model) is None
                &&& config.wire_api_of(model) == WireApi::ChatCompletions
            },
        },
        config.model_policy(model) == match config.model_provider(model) {
            Some(provider) => provider.cache_policy,
            None => None,
        },
{
}

/// A provider is the one that is configured under its name; only the old name of the
/// Moonshot provider stands for another one, and only where it has none of its own.
pub proof fn law_providers_are_configured(config: Config, name: Seq<char>)
    ensures
        config.providers@.contains_key(name) ==> config.provider_of(name) == Some(
            config.providers@[name],
        ),
        !config.providers@.contains_key(name) && name != "moonshot-official"@
            ==> config.provider_of(name) is None,
        !config.providers@.contains_key("moonshot-official"@) ==> config.provider_of(
            "moonshot-official"@,
        ) == if config.providers@.contains_key("moonshot"@) {
            Some(config.providers@["moonshot"@])
        } else {
            None
        },
        declared_upstream(config.provider_of(name)) == match config.provider_of(name) {
            Some(provider) => match provider.cache_policy {
                Some(policy) => text::opt_text(policy.upstream),
                None => None,
            },
            None => None,
        },
{
}

} // verus!
