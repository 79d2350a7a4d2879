//! What holds of every converted request.

use crate::anthropic::converter::{self, ChatDraft};
use crate::anthropic::types::MessagesRequest;
use crate::cache::{self, CachePolicy};
use crate::config::{Config, ProviderConfig};
use crate::json::Json;
use crate::openai::types::ChatRequestView;
use crate::reasoning::{apply_effort, replay};
use vstd::prelude::*;

verus! {

/// Nothing that a cache policy offers is active for a model that is not served
/// officially: no replay, no preservation, no relocation, no pin and no cache key.
pub proof fn law_policies_need_the_official_upstream(
    req: MessagesRequest,
    config: Config,
    model: Seq<char>,
)
    requires
        !cache::is_official(config.model_binding(model)),
    ensures
        !converter::full_replay(config, model),
        !converter::append_only(config, model),
        !converter::split_tail(config, model),
        converter::pinned(config, model) is None,
        converter::key_source(req, config, model) is None,
{
}

/// Nothing is active under a name alone: without a declared policy, too, all of it is
/// off.
pub proof fn law_policies_are_never_implied(
    req: MessagesRequest,
    config: Config,
    model: Seq<char>,
)
    requires
        config.model_policy(model) is None,
    ensures
        !converter::full_replay(config, model),
        !converter::append_only(config, model),
        !converter::split_tail(config, model),
        converter::pinned(config, model) is None,
        converter::key_source(req, config, model) is None,
{
}

/// A request gets a cache key exactly where its policy asks for one, its model is
/// served officially, and the client gives an identifier that is not empty.
pub proof fn law_a_cache_key_needs_every_gate(
    req: MessagesRequest,
    config: Config,
    model: Seq<char>,
)
    ensures
        converter::key_source(req, config, model) is Some <==> {
            &&& config.model_policy(model) matches Some(policy) && policy.prompt_cache_key_enabled
            &&& cache::is_official(config.model_binding(model))
            &&& req.metadata matches Some(metadata) && metadata.user_id matches Some(id) && id@.len()
                > 0
        },
{
}

/// Whether the effort of a request is asked for at all.
pub open spec fn wants_effort(req: MessagesRequest, config: Config, model: Seq<char>) -> bool {
    match req.thinking {
        Some(thinking) => thinking.enabled(),
        None => replay::reasons(config, model),
    }
}

/// A pinned effort does not move with the thinking budget, with the declared effort,
/// or with anything else that a request says while its thinking is not disabled.
pub proof fn law_a_pin_holds_still(
    a: MessagesRequest,
    b: MessagesRequest,
    config: Config,
    model: Seq<char>,
)
    requires
        converter::pinned(config, model) is Some,
        wants_effort(a, config, model),
        wants_effort(b, config, model),
        a.tools is Some == b.tools is Some,
    ensures
        converter::chosen_effort(a, config, model) == converter::chosen_effort(b, config, model),
        !converter::is_gpt(config, model) ==> converter::chosen_effort(a, config, model)
            == converter::pinned(config, model),
{
}

/// Without a pin the declared effort decides, and `xhigh` where none is declared.
pub proof fn law_effort_precedence(req: MessagesRequest, config: Config, model: Seq<char>)
    requires
        wants_effort(req, config, model),
        !(converter::is_gpt(config, model) && req.tools is Some),
        converter::pinned(config, model) is None,
    ensures
        converter::chosen_effort(req, config, model) == Some(
            match converter::declared_effort(req) {
                Some(effort) => effort,
                None => "xhigh"@,
            },
        ),
{
}

/// Disabled thinking stays off: neither a pin nor a declared effort brings it back.
/// The request asks for the lowest effort where thinking cannot be turned off, and
/// for none otherwise; it never switches thinking on.
pub proof fn law_disabled_thinking_stays_off(req: MessagesRequest, config: Config)
    requires
        req.thinking matches Some(thinking) && !thinking.enabled(),
    ensures
        ({
            let request = converter::converted_request(req, config);
            let model = converter::upstream_name(req.model@, config);
            &&& converter::chosen_effort(req, config, model) == Some("off"@)
            &&& match config.model_provider(model) {
                Some(provider) => if provider.disable_thinking {
                    &&& request.thinking is None
                    &&& request.reasoning_effort == Some(
                        apply_effort::level_or(provider.effort_map@, "low"@, "low"@),
                    )
                } else {
                    &&& request.reasoning_effort is None
                    &&& request.thinking matches Some(switch) ==> switch.thinking_type
                        == apply_effort::text_or(provider.thinking_type_disabled, "disabled"@)
                },
                None => {
                    &&& request.reasoning_effort is None
                    &&& request.thinking matches Some(switch) ==> switch.thinking_type
                        == "disabled"@
                },
            }
        }),
{
}

/// What a client declares as output settings reaches the upstream as an effort and in
/// no other way: model, limits, tools and everything else stay the same.
pub proof fn law_output_settings_are_only_an_effort(
    req: MessagesRequest,
    settings: Option<Json>,
    config: Config,
)
    ensures
        ({
            let a = converter::converted_request(req, config);
            let b = converter::converted_request(
                MessagesRequest { output_config: settings, ..req },
                config,
            );
            b == ChatRequestView {
                reasoning_effort: b.reasoning_effort,
                thinking: b.thinking,
                ..a
            }
        }),
{
    let other = MessagesRequest { output_config: settings, ..req };
    let a = converter::converted_request(req, config);
    let b = converter::converted_request(other, config);
    assert(converter::plain_request(req, config) =~= converter::plain_request(other, config));
    assert(b =~= ChatRequestView {
        reasoning_effort: b.reasoning_effort,
        thinking: b.thinking,
        ..a
    });
}

/// Under full replay, how stored history is built does not depend on the thinking of
/// the current request, nor on its declared effort.
pub proof fn law_full_replay_ignores_the_current_request(
    a: MessagesRequest,
    b: MessagesRequest,
    config: Config,
    relocate: bool,
    x: ChatDraft,
    y: ChatDraft,
)
    requires
        converter::upstream_name(a.model@, config) == converter::upstream_name(b.model@, config),
        converter::full_replay(config, converter::upstream_name(a.model@, config)),
        x.is_draft_of(a, config, relocate),
        y.is_draft_of(b, config, relocate),
    ensures
        x.assistant_replay,
        x.assistant_replay == y.assistant_replay,
        x.append_only == y.append_only,
        x.relocation == y.relocation,
{
}

/// A policy that differs at most in what it says of history.
pub open spec fn same_but_for_history(a: CachePolicy, b: CachePolicy) -> bool {
    b == CachePolicy { replay: b.replay, history: b.history, relocate: b.relocate, ..a }
}

/// What a policy says of history (replay, preservation, relocation) changes neither
/// the effort, the thinking, the tools nor the cache key of a request.
pub proof fn law_history_policies_leave_the_request_alone(
    req: MessagesRequest,
    config: Config,
    other: Config,
)
    requires
        converter::upstream_name(req.model@, config) == converter::upstream_name(
            req.model@,
            other,
        ),
        config.profile_of(converter::upstream_name(req.model@, config)) == other.profile_of(
            converter::upstream_name(req.model@, config),
        ),
        ({
            let model = converter::upstream_name(req.model@, config);
            &&& config.model_provider(model) matches Some(p)
            &&& other.model_provider(model) matches Some(q)
            &&& q == ProviderConfig { cache_policy: q.cache_policy, ..p }
            &&& p.cache_policy matches Some(a)
            &&& q.cache_policy matches Some(b)
            &&& same_but_for_history(a, b)
        }),
    ensures
        converter::converted_request(req, config) == converter::converted_request(req, other),
        ({
            let model = converter::upstream_name(req.model@, config);
            converter::key_source(req, config, model) == converter::key_source(req, other, model)
        }),
{
    let model = converter::upstream_name(req.model@, config);
    let provider = config.profile_of(model)->0.provider@;
    assert(config.binding_of(provider) == other.binding_of(provider));
    assert(converter::plain_request(req, config) == converter::plain_request(req, other));
    assert(converter::chosen_effort(req, config, model) == converter::chosen_effort(
        req,
        other,
        model,
    ));
}

} // verus!
