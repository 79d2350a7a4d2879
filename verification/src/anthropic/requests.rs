//! What a converted request keeps of the one that it is made of.

use crate::anthropic::converter::{self, ChatDraft, Relocation};
use crate::anthropic::types::{MessagesRequest, ThinkingConfig, Tool, ToolChoice};
use crate::cache::{HistoryPolicy, RelocatePolicy, ReplayPolicy};
use crate::config::Config;
use crate::conversation;
use crate::json::JsonView;
use crate::openai::types::{ChatRequestView, ToolView};
use crate::reasoning::apply_effort;
use crate::text;
use vstd::prelude::*;

verus! {

/// A tool as an upstream is offered it: with its name, its description and its schema.
pub open spec fn offer(tool: Tool) -> ToolView {
    ToolView {
        tool_type: "function"@,
        name: tool.name@,
        description: match tool.description {
            Some(words) => Some(words@),
            None => None,
        },
        parameters: tool.input_schema@,
    }
}

/// Tools as an upstream is offered them.
pub open spec fn offers(tools: Seq<Tool>) -> Seq<ToolView> {
    Seq::new(tools.len(), |i: int| offer(tools[i]))
}

/// Whether tools are offered: all of them, once each, in the order of their names, and
/// those of one name in the order in which the client lists them.
pub open spec fn offered(tools: Option<Vec<Tool>>, out: Option<Seq<ToolView>>) -> bool {
    match (tools, out) {
        (Some(tools), Some(out)) => {
            &&& out.len() == tools@.len()
            &&& out.to_multiset() == offers(tools@).to_multiset()
            &&& conversation::in_name_order(out)
            &&& forall|name: Seq<char>| #[trigger]
                conversation::of_name(out, name) == conversation::of_name(offers(tools@), name)
        },
        (None, None) => true,
        _ => false,
    }
}

/// The tools of a request are offered whatever else the request says.
pub proof fn lemma_sorted_tools_are_offered(tools: Option<Vec<Tool>>, out: Option<Seq<ToolView>>)
    requires
        out == match tools {
            Some(tools) => Some(conversation::by_name(converter::chat_tools(tools@))),
            None => None,
        },
    ensures
        offered(tools, out),
{
    match tools {
        Some(tools) => {
            let all = offers(tools@);
            assert(converter::chat_tools(tools@) =~= all);
            conversation::law_sorting_orders_and_keeps(all);
            assert forall|name: Seq<char>| #[trigger]
                conversation::of_name(conversation::by_name(all), name) == conversation::of_name(
                all,
                name,
            ) by {
                conversation::law_tools_of_one_name_keep_their_order(all, name);
            }
        },
        None => {},
    }
}

/// Whether a value stands for a tool choice: a word, or the function of a name.
pub open spec fn chosen(choice: ToolChoice, value: JsonView) -> bool {
    match choice {
        ToolChoice::Auto { .. } => value == JsonView::String("auto"@),
        ToolChoice::Any { .. } => value == JsonView::String("required"@),
        ToolChoice::Tool { name, .. } => {
            &&& value.get("type"@) == Some(JsonView::String("function"@))
            &&& value.get("function"@) matches Some(function)
            &&& function.get("name"@) == Some(JsonView::String(name@))
            &&& forall|k: Seq<char>| #[trigger]
                function.get(k) is Some ==> k == "name"@
            &&& forall|k: Seq<char>| #[trigger]
                value.get(k) is Some ==> k == "type"@ || k == "function"@
        },
    }
}

/// The type string of a thinking setting.
pub open spec fn type_of(thinking: ThinkingConfig) -> Seq<char> {
    match thinking {
        ThinkingConfig::Enabled { config_type, .. } => config_type@,
        ThinkingConfig::Disabled { config_type } => config_type@,
        ThinkingConfig::Adaptive { config_type, .. } => config_type@,
    }
}

/// Whether a request turns thinking on.
pub open spec fn turns_on(req: MessagesRequest) -> bool {
    req.thinking matches Some(thinking) && (type_of(thinking) == "enabled"@ || type_of(thinking)
        == "adaptive"@)
}

/// Whether a request turns thinking off.
pub open spec fn turns_off(req: MessagesRequest) -> bool {
    req.thinking is Some && !turns_on(req)
}

/// Whether an effort word is known.
pub open spec fn is_effort(word: Seq<char>) -> bool {
    ||| word == "off"@ || word == "disabled"@ || word == "none"@ || word == "false"@
    ||| word == "minimal"@ || word == "low"@ || word == "medium"@ || word == "high"@
    ||| word == "xhigh"@ || word == "max"@
}

/// Whether a word is the effort that a client declares.
pub open spec fn declares(req: MessagesRequest, word: Seq<char>) -> bool {
    &&& req.output_config matches Some(settings)
    &&& settings@.get("effort"@) == Some(JsonView::String(word))
    &&& is_effort(word)
}

/// The effort that a client declares is the known word that stands under `effort` of its
/// output settings; anything else declares none.
pub proof fn law_declared_efforts(req: MessagesRequest)
    ensures
        match converter::declared_effort(req) {
            Some(word) => declares(req, word),
            None => forall|word: Seq<char>| !#[trigger] declares(req, word),
        },
{
}

/// Whether the policy of a model is in force: the model is served officially.
pub open spec fn in_force(config: Config, model: Seq<char>) -> bool {
    config.model_binding(model) == Some("official"@)
}

/// Whether a model belongs to the provider that takes no effort together with tools.
pub open spec fn takes_no_effort_with_tools(config: Config, model: Seq<char>) -> bool {
    config.profile_of(model) matches Some(profile) && profile.provider@ == "gpt"@
}

/// The effort of a request. Thinking that is off stays off; a request that says nothing
/// of it has an effort only where its model reasons; the provider that takes no effort
/// together with tools gets none with them; else a pin in force decides, then what the
/// client declares, then the highest level.
pub proof fn law_the_effort_of_a_request(req: MessagesRequest, config: Config, model: Seq<char>)
    ensures
        ({
            let effort = converter::chosen_effort(req, config, model);
            let policy = config.model_policy(model);
            if turns_off(req) {
                effort == Some("off"@)
            } else if req.thinking is None && !(config.profile_of(model) matches Some(profile)
                && profile.reasoning_enabled) {
                effort is None
            } else if takes_no_effort_with_tools(config, model) && req.tools is Some {
                effort == Some("off"@)
            } else if in_force(config, model) && policy is Some && policy->0.pinned_effort is Some {
                effort == Some(policy->0.pinned_effort->0@)
            } else {
                effort is Some && (declares(req, effort->0) || (effort->0 == "xhigh"@ && forall|
                    word: Seq<char>,
                |
                    !#[trigger] declares(req, word)))
            }
        }),
{
    law_declared_efforts(req);
}

/// Whether the effort of a request is put in the words of a provider.
pub open spec fn in_the_words_of(
    config: Config,
    model: Seq<char>,
    effort: Option<Seq<char>>,
    reasoning_effort: Option<Seq<char>>,
    switch: Option<Seq<char>>,
) -> bool {
    match effort {
        None => reasoning_effort is None && switch is None,
        Some(word) => {
            let off = word == "off"@ || word == "disabled"@ || word == "none"@ || word
                == "false"@;
            match config.model_provider(model) {
                Some(provider) => if !off {
                    &&& reasoning_effort == Some(apply_effort::resolved(word, provider.effort_map@))
                    &&& switch is Some <==> provider.thinking_param is Some
                    &&& switch is Some ==> switch->0 == match provider.thinking_type_enabled {
                        Some(kind) => kind@,
                        None => "enabled"@,
                    }
                } else if provider.disable_thinking {
                    &&& switch is None
                    &&& reasoning_effort == Some(
                        if provider.effort_map@.contains_key("low"@) {
                            provider.effort_map@["low"@]@
                        } else {
                            "low"@
                        },
                    )
                } else {
                    &&& reasoning_effort is None
                    &&& switch is Some <==> provider.thinking_param is Some
                    &&& switch is Some ==> switch->0 == match provider.thinking_type_disabled {
                        Some(kind) => kind@,
                        None => "disabled"@,
                    }
                },
                None => if off {
                    reasoning_effort is None && switch == Some("disabled"@)
                } else {
                    reasoning_effort == Some("high"@) && switch == Some("enabled"@)
                },
            }
        },
    }
}

/// A converted request keeps what the request says: its tools, its tool choice, its
/// limit and whether it streams, and it asks for counts where it streams. Its effort is
/// that of the request, in the words of the provider. Nothing else goes out with it.
pub proof fn law_requests_are_kept(
    req: MessagesRequest,
    config: Config,
    relocate: bool,
    draft: ChatDraft,
)
    requires
        draft.is_draft_of(req, config, relocate),
    ensures
        ({
            let out = draft.request@;
            let model = converter::upstream_name(req.model@, config);
            &&& out.model == model
            &&& out.messages.len() == 0
            &&& out.max_completion_tokens == Some(req.max_tokens)
            &&& out.max_tokens is None
            &&& out.stream == Some(req.stream == Some(true))
            &&& out.stream_options is Some <==> req.stream == Some(true)
            &&& out.stream_options is Some ==> out.stream_options->0.include_usage
            &&& offered(req.tools, out.tools)
            &&& out.tool_choice is Some <==> req.tool_choice is Some
            &&& out.tool_choice is Some ==> chosen(req.tool_choice->0, out.tool_choice->0)
            &&& out.stop is None
            &&& out.prompt_cache_key is None
            &&& in_the_words_of(
                config,
                model,
                converter::chosen_effort(req, config, model),
                out.reasoning_effort,
                match out.thinking {
                    Some(switch) => Some(switch.thinking_type),
                    None => None,
                },
            )
            &&& out.thinking is Some ==> out.thinking->0.clear_thinking == if "glm-5"@.is_prefix_of(
                model,
            ) {
                Some(false)
            } else {
                None
            }
        }),
{
    let plain = converter::plain_request(req, config);
    lemma_sorted_tools_are_offered(req.tools, plain.tools);
    reveal_strlit("type");
    reveal_strlit("function");
    assert("type"@.len() != "function"@.len());
}

/// An effort that is put into a request changes its effort and its thinking switch alone,
/// and leaves the switch as it is where the provider has none.
pub proof fn law_efforts_change_nothing_else(
    req: ChatRequestView,
    effort: Seq<char>,
    config: Config,
)
    ensures
        ({
            let out = converter::with_effort(req, effort, config);
            let provider = config.model_provider(req.model);
            let untouched = provider is Some && (provider->0.thinking_param is None || (
            apply_effort::tier_of(effort) == Some(0u8) && provider->0.disable_thinking));
            &&& out == ChatRequestView {
                reasoning_effort: out.reasoning_effort,
                thinking: out.thinking,
                ..req
            }
            &&& untouched ==> out.thinking == req.thinking
            &&& in_the_words_of(
                config,
                req.model,
                Some(effort),
                out.reasoning_effort,
                if untouched {
                    None
                } else {
                    Some(out.thinking->0.thinking_type)
                },
            )
            &&& !untouched ==> out.thinking is Some && out.thinking->0.clear_thinking is None
        }),
{
    let out = converter::with_effort(req, effort, config);
    apply_effort::law_tiers(effort);
    assert(out =~= ChatRequestView {
        reasoning_effort: out.reasoning_effort,
        thinking: out.thinking,
        ..req
    });
}

/// Two requests that differ only in whether they stream are converted to two that differ
/// only in that, and in whether they ask for counts.
pub proof fn law_streaming_changes_streaming_alone(
    req: MessagesRequest,
    stream: Option<bool>,
    config: Config,
)
    ensures
        ({
            let a = converter::converted_request(req, config);
            let b = converter::converted_request(MessagesRequest { stream, ..req }, config);
            b == ChatRequestView { stream: b.stream, stream_options: b.stream_options, ..a }
        }),
{
    let other = MessagesRequest { stream, ..req };
    let a = converter::converted_request(req, config);
    let b = converter::converted_request(other, config);
    let p = converter::plain_request(req, config);
    let q = converter::plain_request(other, config);
    assert(q =~= ChatRequestView { stream: q.stream, stream_options: q.stream_options, ..p });
    assert(converter::chosen_effort(req, config, p.model) == converter::chosen_effort(
        other,
        config,
        p.model,
    ));
    assert(b =~= ChatRequestView { stream: b.stream, stream_options: b.stream_options, ..a });
}

/// What else a request is made with follows its model, its policy and its thinking: where
/// volatile system blocks go, whether stored history goes out as it is, whether stored
/// reasoning is replayed, and what a cache key is derived from.
pub proof fn law_drafts_follow_the_policy(
    req: MessagesRequest,
    config: Config,
    relocate: bool,
    draft: ChatDraft,
)
    requires
        draft.is_draft_of(req, config, relocate),
    ensures
        ({
            let model = converter::upstream_name(req.model@, config);
            let policy = config.model_policy(model);
            let held = in_force(config, model) && policy is Some;
            &&& draft.relocation == if held && policy->0.relocate == RelocatePolicy::SplitTail {
                Relocation::SplitTail
            } else if relocate {
                Relocation::Migrate
            } else {
                Relocation::Stay
            }
            &&& draft.append_only <==> held && policy->0.history == HistoryPolicy::AppendOnly
            &&& draft.assistant_replay <==> {
                ||| held && policy->0.replay == ReplayPolicy::FullAssistant
                ||| !turns_off(req) && (config.profile_of(model) matches Some(profile)
                    && profile.reasoning_replay)
            }
            &&& draft.cache_key is Some <==> held && policy->0.prompt_cache_key_enabled && (
            req.metadata matches Some(metadata) && metadata.user_id matches Some(id) && id@.len()
                > 0)
            &&& draft.cache_key matches Some(source) ==> {
                &&& source.user_id@ == req.metadata->0.user_id->0@
                &&& source.provider@ == config.profile_of(model)->0.provider@
                &&& source.model@ == model
            }
        }),
{
    reveal_strlit("off");
    reveal_strlit("max");
    reveal_strlit("high");
    reveal_strlit("disabled");
    reveal_strlit("none");
    reveal_strlit("false");
    assert("max"@.len() == 3 && "off"@.len() == 3 && "high"@.len() == 4 && "none"@.len() == 4);
    assert("disabled"@.len() == 8 && "false"@.len() == 5);
    assert("max"@[0] != "off"@[0]);
    assert("high"@[0] != "none"@[0]);
}

/// The upstream model of a name: a name that is known stands for itself, another one for
/// what it is mapped to, and every other one for the default.
pub proof fn law_model_names(model: Seq<char>, config: Config)
    ensures
        ({
            let clean = converter::clean_name(model);
            let name = converter::upstream_name(model, config);
            if config.profile_of(clean) is Some {
                name == clean
            } else if config.model_mapping@.contains_key(clean) {
                name == config.model_mapping@[clean]@
            } else {
                name == config.default_model@
            }
        }),
{
}

/// The mark of a long context at the end of a name does not count.
pub proof fn law_long_context_is_no_other_model(model: Seq<char>, config: Config)
    ensures
        converter::upstream_name(model + "[1m]"@, config) == converter::upstream_name(
            model,
            config,
        ),
{
    reveal_strlit("[1m]");
    let mark = "[1m]"@;
    let marked = model + mark;
    assert(mark.len() == 4);
    assert(mark =~= marked.subrange(marked.len() - mark.len(), marked.len() as int));
    assert(mark.is_suffix_of(marked));
    assert(marked.take(marked.len() - mark.len()) =~= model);
}

/// A text a number of times over.
pub open spec fn repeated(mark: Seq<char>, times: nat) -> Seq<char>
    decreases times,
{
    if times == 0 {
        Seq::empty()
    } else {
        repeated(mark, (times - 1) as nat) + mark
    }
}

/// Marks at the end of a name are dropped, and nothing else.
proof fn lemma_marks(model: Seq<char>) -> (times: nat)
    ensures
        model == text::trim_suffixes(model, "[1m]"@) + repeated("[1m]"@, times),
        !"[1m]"@.is_suffix_of(text::trim_suffixes(model, "[1m]"@)),
    decreases model.len(),
{
    reveal_strlit("[1m]");
    let mark = "[1m]"@;
    if mark.is_suffix_of(model) {
        let rest = model.take(model.len() - mark.len());
        let times = lemma_marks(rest);
        assert(model =~= rest + mark);
        assert(repeated(mark, times + 1) == repeated(mark, times) + mark);
        assert(model =~= text::trim_suffixes(model, mark) + repeated(mark, times + 1));
        times + 1
    } else {
        assert(model =~= model + repeated(mark, 0));
        0
    }
}

/// The name that is looked up is the name itself without the marks of a long context at
/// its end and without white space around what is left: nothing else is dropped.
pub proof fn law_names_lose_marks_and_outer_space(model: Seq<char>) -> (r: (
    Seq<char>,
    Seq<char>,
    nat,
))
    ensures
        model == r.0 + converter::clean_name(model) + r.1 + repeated("[1m]"@, r.2),
        text::is_blank(r.0),
        text::is_blank(r.1),
        converter::clean_name(model).len() > 0 ==> !text::is_white(
            converter::clean_name(model)[0],
        ) && !text::is_white(converter::clean_name(model).last()),
        !"[1m]"@.is_suffix_of(r.0 + converter::clean_name(model) + r.1),
{
    let times = lemma_marks(model);
    let (front, back) = text::law_trimming_drops_outer_space(
        text::trim_suffixes(model, "[1m]"@),
    );
    (front, back, times)
}

/// A name without the mark and without white space at its ends is looked up as it is.
pub proof fn law_plain_names_are_looked_up_as_they_are(model: Seq<char>)
    requires
        !"[1m]"@.is_suffix_of(model),
        model.len() > 0 ==> !text::is_white(model[0]) && !text::is_white(model.last()),
    ensures
        converter::clean_name(model) == model,
{
    assert(text::trim_start(model) == model);
}

} // verus!
