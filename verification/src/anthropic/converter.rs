//! From Anthropic requests to Chat Completions requests.

use crate::anthropic::types::{
    MessagesRequest, SystemPrompt, SystemView, ThinkingConfig, Tool, ToolChoice,
};
use crate::cache::{self, official};
use crate::config::Config;
use crate::conversation::{self, sort_by_name};
use crate::json::{self, Json, JsonView};
use crate::openai::types::{
    self, ChatCompletionRequest, ChatRequestView, DeepSeekThinking, OpenAiFunction, OpenAiTool,
    StreamOptions, ThinkingView, ToolView,
};
use crate::reasoning::apply_effort::{
    self, configured, is_off_word, mapped_level, resolve_effort,
};
use crate::reasoning::replay::{
    self, requires_reasoning_content, should_replay_reasoning_content,
};
use crate::text::{self, clone_text, same, starts_with, trim, trim_end_matches};
use vstd::prelude::*;
use vstd::string::*;

verus! {

/// A model name without the suffix of the long context and without outer space.
pub open spec fn clean_name(model: Seq<char>) -> Seq<char> {
    text::trimmed(text::trim_suffixes(model, "[1m]"@))
}

/// The upstream model of a name: a known name stands for itself, another one for what
/// it is mapped to, and the rest for the default model.
pub open spec fn upstream_name(model: Seq<char>, config: Config) -> Seq<char> {
    let clean = clean_name(model);
    if config.profile_of(clean) is Some {
        clean
    } else if config.model_mapping@.contains_key(clean) {
        config.model_mapping@[clean]@
    } else {
        config.default_model@
    }
}

/// The upstream model of a name.
pub fn map_model_to_upstream(model: &str, config: &Config) -> (r: String)
    ensures
        r@ == upstream_name(model@, *config),
{
    proof {
        reveal_strlit("[1m]");
    }
    let clean = trim(trim_end_matches(model, "[1m]"));
    if config.model_profile(clean).is_some() {
        return clean.to_owned();
    }
    match config.model_mapping.get(clean) {
        Some(mapped) => mapped.clone(),
        None => config.default_model.clone(),
    }
}

/// The upstream model of a name, for the Responses API.
pub fn map_model_to_upstream_for_responses(model: &str, config: &Config) -> (r: String)
    ensures
        r@ == upstream_name(model@, *config),
{
    map_model_to_upstream(model, config)
}

/// A known model stands for itself, with or without the suffix.
pub proof fn law_known_models_pass_through(model: Seq<char>, config: Config)
    requires
        config.profile_of(clean_name(model)) is Some,
    ensures
        upstream_name(model, config) == clean_name(model),
{
}

/// The effort that a client declares: a known effort word under `effort` of its
/// output settings.
pub open spec fn declared_effort(req: MessagesRequest) -> Option<Seq<char>> {
    match req.output_config {
        Some(settings) => match settings@.get("effort"@) {
            Some(JsonView::String(word)) => if apply_effort::tier_of(word) is Some {
                Some(word)
            } else {
                None
            },
            _ => None,
        },
        None => None,
    }
}

/// The effort that a client declares; any other value counts as none.
pub fn inbound_effort(req: &MessagesRequest) -> (r: Option<String>)
    ensures
        text::opt_text(r) == declared_effort(*req),
{
    match &req.output_config {
        Some(settings) => match settings.get("effort") {
            Some(Json::String(word)) => if apply_effort::effort_tier(word.as_str()).is_some() {
                Some(word.clone())
            } else {
                None
            },
            _ => None,
        },
        None => None,
    }
}

/// The effort that the replay of stored reasoning goes by: the thinking budget.
pub open spec fn replay_effort(thinking: Option<ThinkingConfig>) -> Option<Seq<char>> {
    match thinking {
        Some(t) => Some(
            if !t.enabled() {
                "off"@
            } else {
                let budget = t.budget().unwrap_or(0);
                if budget >= 4096 || budget == 0 {
                    "max"@
                } else {
                    "high"@
                }
            },
        ),
        None => None,
    }
}

/// The effort that the replay of stored reasoning goes by.
fn effort_for_replay(thinking: &Option<ThinkingConfig>) -> (r: Option<&'static str>)
    ensures
        text::opt_str(r) == replay_effort(*thinking),
{
    match thinking {
        Some(t) => if t.is_enabled() {
            let budget: u32 = match t.budget_tokens() {
                Some(n) => n,
                None => 0,
            };
            if budget >= 4096 || budget == 0 {
                Some("max")
            } else {
                Some("high")
            }
        } else {
            Some("off")
        },
        None => None,
    }
}

/// Where volatile system blocks go.
#[derive(Debug, Clone, Copy, PartialEq, Eq, Structural)]
pub enum Relocation {
    /// They stay in the system prompt.
    Stay,
    /// They are merged into the last user turn.
    Migrate,
    /// They move behind the conversation, and stored history stays as it is.
    SplitTail,
}

/// What a prompt cache key is derived from.
#[derive(Debug)]
pub struct CacheKeySource {
    pub user_id: String,
    pub provider: String,
    pub model: String,
}

/// What a prompt cache key is derived from.
pub struct CacheKeySourceView {
    pub user_id: Seq<char>,
    pub provider: Seq<char>,
    pub model: Seq<char>,
}

impl View for CacheKeySource {
    type V = CacheKeySourceView;

    open spec fn view(&self) -> CacheKeySourceView {
        CacheKeySourceView {
            user_id: self.user_id@,
            provider: self.provider@,
            model: self.model@,
        }
    }
}

/// Whether a model is bound to the official upstream.
pub open spec fn officially(config: Config, model: Seq<char>) -> bool {
    cache::is_official(config.model_binding(model))
}

/// Whether stored assistant messages are replayed in full.
pub open spec fn full_replay(config: Config, model: Seq<char>) -> bool {
    &&& officially(config, model)
    &&& config.model_policy(model) matches Some(policy) && policy.replay
        == cache::ReplayPolicy::FullAssistant
}

/// Whether stored history goes out as it is.
pub open spec fn append_only(config: Config, model: Seq<char>) -> bool {
    &&& officially(config, model)
    &&& config.model_policy(model) matches Some(policy) && policy.history
        == cache::HistoryPolicy::AppendOnly
}

/// Whether volatile system blocks move behind the conversation.
pub open spec fn split_tail(config: Config, model: Seq<char>) -> bool {
    &&& officially(config, model)
    &&& config.model_policy(model) matches Some(policy) && policy.relocate
        == cache::RelocatePolicy::SplitTail
}

/// The effort that the policy of a model pins.
pub open spec fn pinned(config: Config, model: Seq<char>) -> Option<Seq<char>> {
    match config.model_policy(model) {
        Some(policy) => if officially(config, model) {
            text::opt_text(policy.pinned_effort)
        } else {
            None
        },
        None => None,
    }
}

/// What the prompt cache key of a request is derived from. There is none unless the
/// policy asks for one, the model is served officially, and the client gives an
/// identifier that is not empty.
pub open spec fn key_source(req: MessagesRequest, config: Config, model: Seq<char>) -> Option<
    CacheKeySourceView,
> {
    match (config.model_policy(model), config.profile_of(model), req.metadata) {
        (Some(policy), Some(profile), Some(metadata)) => match metadata.user_id {
            Some(user_id) => if policy.prompt_cache_key_enabled && officially(config, model)
                && user_id@.len() > 0 {
                Some(
                    CacheKeySourceView { user_id: user_id@, provider: profile.provider@, model },
                )
            } else {
                None
            },
            None => None,
        },
        _ => None,
    }
}

/// Whether a model belongs to the provider that rejects effort together with tools.
pub open spec fn is_gpt(config: Config, model: Seq<char>) -> bool {
    config.profile_of(model) matches Some(profile) && profile.provider@ == "gpt"@
}

/// The effort of a request: the pinned one, the declared one, or `xhigh`. It is `off`
/// where thinking is disabled, and where the provider rejects effort together with
/// tools. A request that says nothing about thinking has an effort only where the
/// model reasons.
pub open spec fn chosen_effort(req: MessagesRequest, config: Config, model: Seq<char>) -> Option<
    Seq<char>,
> {
    let wish = match pinned(config, model) {
        Some(effort) => effort,
        None => match declared_effort(req) {
            Some(effort) => effort,
            None => "xhigh"@,
        },
    };
    let effort = if is_gpt(config, model) && req.tools is Some {
        "off"@
    } else {
        wish
    };
    match req.thinking {
        Some(thinking) => Some(
            if thinking.enabled() {
                effort
            } else {
                "off"@
            },
        ),
        None => if replay::reasons(config, model) {
            Some(effort)
        } else {
            None
        },
    }
}

/// A request with an effort, in the words of the provider of its model.
pub open spec fn with_effort(
    req: ChatRequestView,
    effort: Seq<char>,
    config: Config,
) -> ChatRequestView {
    let switch = |kind: Seq<char>|
        Some(ThinkingView { thinking_type: kind, clear_thinking: None });
    match config.model_provider(req.model) {
        Some(provider) => if apply_effort::is_off(effort) {
            if provider.disable_thinking {
                ChatRequestView {
                    reasoning_effort: Some(
                        apply_effort::level_or(provider.effort_map@, "low"@, "low"@),
                    ),
                    ..req
                }
            } else if provider.thinking_param is None {
                ChatRequestView { reasoning_effort: None, ..req }
            } else {
                ChatRequestView {
                    reasoning_effort: None,
                    thinking: switch(
                        apply_effort::text_or(provider.thinking_type_disabled, "disabled"@),
                    ),
                    ..req
                }
            }
        } else {
            ChatRequestView {
                reasoning_effort: Some(apply_effort::resolved(effort, provider.effort_map@)),
                thinking: if provider.thinking_param is Some {
                    switch(apply_effort::text_or(provider.thinking_type_enabled, "enabled"@))
                } else {
                    req.thinking
                },
                ..req
            }
        },
        None => if apply_effort::is_off(effort) {
            ChatRequestView { reasoning_effort: None, thinking: switch("disabled"@), ..req }
        } else {
            ChatRequestView {
                reasoning_effort: Some("high"@),
                thinking: switch("enabled"@),
                ..req
            }
        },
    }
}

/// A thinking switch of a type.
fn thinking_switch(kind: &str) -> (r: DeepSeekThinking)
    ensures
        r@ == (ThinkingView { thinking_type: kind@, clear_thinking: None }),
{
    DeepSeekThinking { thinking_type: kind.to_owned(), clear_thinking: None }
}

/// Puts an effort into a request, in the words of the provider of its model.
pub fn apply_effort_direct(req: &mut ChatCompletionRequest, effort: &str, config: &Config)
    ensures
        final(req)@ == with_effort(old(req)@, effort@, *config),
{
    match config.provider_for_model(req.model.as_str()) {
        Some(provider) => if is_off_word(effort) {
            if provider.disable_thinking {
                let lowest = mapped_level(&provider.effort_map, "low", "low").to_owned();
                req.reasoning_effort = Some(lowest);
            } else if provider.thinking_param.is_none() {
                req.reasoning_effort = None;
            } else {
                let kind = configured(&provider.thinking_type_disabled, "disabled");
                req.thinking = Some(thinking_switch(kind));
                req.reasoning_effort = None;
            }
        } else {
            let mapped = resolve_effort(effort, provider);
            req.reasoning_effort = Some(mapped);
            if provider.thinking_param.is_some() {
                let kind = configured(&provider.thinking_type_enabled, "enabled");
                req.thinking = Some(thinking_switch(kind));
            }
        },
        None => if is_off_word(effort) {
            req.thinking = Some(thinking_switch("disabled"));
            req.reasoning_effort = None;
        } else {
            req.reasoning_effort = Some("high".to_owned());
            req.thinking = Some(thinking_switch("enabled"));
        },
    }
    assert(req@ =~= with_effort(old(req)@, effort@, *config));
}

/// A tool in Chat Completions form.
pub open spec fn chat_tool(tool: Tool) -> ToolView {
    ToolView {
        tool_type: "function"@,
        name: tool.name@,
        description: text::opt_text(tool.description),
        parameters: tool.input_schema@,
    }
}

/// Tools in Chat Completions form.
pub open spec fn chat_tools(tools: Seq<Tool>) -> Seq<ToolView> {
    Seq::new(tools.len(), |i: int| chat_tool(tools[i]))
}

/// Converts a tool.
fn convert_tool(tool: &Tool) -> (r: OpenAiTool)
    ensures
        r@ == chat_tool(*tool),
{
    OpenAiTool {
        tool_type: "function".to_owned(),
        function: OpenAiFunction {
            name: tool.name.clone(),
            description: clone_text(&tool.description),
            parameters: tool.input_schema.clone(),
        },
    }
}

/// Converts tools and sorts them by name, so that a request prefix stays the same
/// however the client lists them.
fn convert_tools(tools: &Vec<Tool>) -> (r: Vec<OpenAiTool>)
    ensures
        types::tools_view(r@) == conversation::by_name(chat_tools(tools@)),
{
    let mut converted: Vec<OpenAiTool> = Vec::new();
    let mut i: usize = 0;
    while i < tools.len()
        invariant
            i <= tools@.len(),
            converted@.len() == i,
            forall|j: int| 0 <= j < i ==> (#[trigger] converted@[j])@ == chat_tool(tools@[j]),
        decreases tools@.len() - i,
    {
        converted.push(convert_tool(&tools[i]));
        i = i + 1;
    }
    assert(conversation::tools_of(converted@) =~= chat_tools(tools@));
    let sorted = sort_by_name(converted);
    assert(types::tools_view(sorted@) =~= conversation::tools_of(sorted@));
    sorted
}

/// A tool choice in Chat Completions form.
pub open spec fn chat_tool_choice(choice: ToolChoice) -> JsonView {
    match choice {
        ToolChoice::Auto { .. } => JsonView::String("auto"@),
        ToolChoice::Any { .. } => JsonView::String("required"@),
        ToolChoice::Tool { name, .. } => JsonView::Object(
            Map::empty().insert("type"@, JsonView::String("function"@)).insert(
                "function"@,
                JsonView::Object(Map::empty().insert("name"@, JsonView::String(name@))),
            ),
        ),
    }
}

/// Converts a tool choice.
fn convert_tool_choice(choice: &ToolChoice) -> (r: Json)
    ensures
        r@ == chat_tool_choice(*choice),
{
    match choice {
        ToolChoice::Auto { .. } => Json::string("auto"),
        ToolChoice::Any { .. } => Json::string("required"),
        ToolChoice::Tool { name, .. } => Json::object().with("type", Json::string("function")).with(
            "function",
            Json::object().with("name", Json::string(name.as_str())),
        ),
    }
}

/// A request before its effort: model, limits, streaming and tools.
pub open spec fn plain_request(req: MessagesRequest, config: Config) -> ChatRequestView {
    let stream = req.stream.unwrap_or(false);
    ChatRequestView {
        model: upstream_name(req.model@, config),
        messages: Seq::empty(),
        max_tokens: None,
        max_completion_tokens: Some(req.max_tokens),
        stream: Some(stream),
        stream_options: if stream {
            Some(StreamOptions { include_usage: true })
        } else {
            None
        },
        reasoning_effort: None,
        thinking: None,
        tools: match req.tools {
            Some(tools) => Some(conversation::by_name(chat_tools(tools@))),
            None => None,
        },
        tool_choice: match req.tool_choice {
            Some(choice) => Some(chat_tool_choice(choice)),
            None => None,
        },
        stop: None,
        prompt_cache_key: None,
    }
}

/// A request whose thinking is kept by the models that would clear it.
pub open spec fn keeping_thinking(req: ChatRequestView) -> ChatRequestView {
    match req.thinking {
        Some(thinking) => if "glm-5"@.is_prefix_of(req.model) {
            ChatRequestView {
                thinking: Some(ThinkingView { clear_thinking: Some(false), ..thinking }),
                ..req
            }
        } else {
            req
        },
        None => req,
    }
}

/// A converted request without its messages and its cache key.
pub open spec fn converted_request(req: MessagesRequest, config: Config) -> ChatRequestView {
    let plain = plain_request(req, config);
    keeping_thinking(
        match chosen_effort(req, config, plain.model) {
            Some(effort) => with_effort(plain, effort, config),
            None => plain,
        },
    )
}

/// Where the volatile system blocks of a request go.
pub open spec fn chosen_relocation(config: Config, model: Seq<char>, relocate: bool) -> Relocation {
    if split_tail(config, model) {
        Relocation::SplitTail
    } else if relocate {
        Relocation::Migrate
    } else {
        Relocation::Stay
    }
}

/// A request that is converted but for its messages and its cache key, and how those
/// are to be made.
#[derive(Debug)]
pub struct ChatDraft {
    pub request: ChatCompletionRequest,
    /// Where volatile system blocks go.
    pub relocation: Relocation,
    /// Whether the reasoning of stored assistant messages is replayed.
    pub assistant_replay: bool,
    /// Whether stored history goes out as it is.
    pub append_only: bool,
    /// What the cache key is derived from, where the request gets one.
    pub cache_key: Option<CacheKeySource>,
}

impl ChatDraft {
    /// Whether the draft is the one of a request.
    pub open spec fn is_draft_of(self, req: MessagesRequest, config: Config, relocate: bool) -> bool {
        let model = upstream_name(req.model@, config);
        &&& self.request@ == converted_request(req, config)
        &&& self.relocation == chosen_relocation(config, model, relocate)
        &&& self.assistant_replay == (full_replay(config, model) || replay::replays(
            config,
            model,
            replay_effort(req.thinking),
        ))
        &&& self.append_only == append_only(config, model)
        &&& match self.cache_key {
            Some(source) => key_source(req, config, model) == Some(source@),
            None => key_source(req, config, model) is None,
        }
    }

    /// The whole request. The cache key is left out unless the draft asks for one.
    pub fn finish(self, messages: Vec<Json>, key: Option<String>) -> (r: ChatCompletionRequest)
        ensures
            r@ == (ChatRequestView {
                messages: json::items_view(messages@),
                prompt_cache_key: if self.cache_key is Some {
                    text::opt_text(key)
                } else {
                    None
                },
                ..self.request@
            }),
    {
        let wanted = self.cache_key.is_some();
        let mut request = self.request;
        request.messages = messages;
        request.prompt_cache_key = if wanted {
            key
        } else {
            None
        };
        request
    }
}

/// The effort of a request.
fn choose_effort(req: &MessagesRequest, config: &Config, model: &str) -> (r: Option<String>)
    ensures
        text::opt_text(r) == chosen_effort(*req, *config, model@),
{
    let rejects = match config.model_profile(model) {
        Some(profile) => same(profile.provider.as_str(), "gpt") && req.tools.is_some(),
        None => false,
    };
    let active = match &req.thinking {
        Some(thinking) => if thinking.is_enabled() {
            true
        } else {
            return Some("off".to_owned());
        },
        None => requires_reasoning_content(model, config),
    };
    if !active {
        return None;
    }
    if rejects {
        return Some("off".to_owned());
    }
    let pin = match config.policy_for_model(model) {
        Some(policy) => policy.pinned_effort_for_upstream(config.binding_for_model(model)),
        None => None,
    };
    match pin {
        Some(effort) => Some(effort.to_owned()),
        None => match inbound_effort(req) {
            Some(effort) => Some(effort),
            None => Some("xhigh".to_owned()),
        },
    }
}

/// What the prompt cache key of a request is derived from.
fn choose_key_source(req: &MessagesRequest, config: &Config, model: &str) -> (r: Option<
    CacheKeySource,
>)
    ensures
        match r {
            Some(source) => key_source(*req, *config, model@) == Some(source@),
            None => key_source(*req, *config, model@) is None,
        },
{
    let opted_in = match config.policy_for_model(model) {
        Some(policy) => policy.prompt_cache_key_enabled,
        None => false,
    };
    if !opted_in || !official(config.binding_for_model(model)) {
        return None;
    }
    match (config.model_profile(model), &req.metadata) {
        (Some(profile), Some(metadata)) => match &metadata.user_id {
            Some(user_id) => if user_id.as_str().unicode_len() > 0 {
                Some(
                    CacheKeySource {
                        user_id: user_id.clone(),
                        provider: profile.provider.clone(),
                        model: model.to_owned(),
                    },
                )
            } else {
                None
            },
            None => None,
        },
        _ => None,
    }
}

/// Converts a request, with the relocation of volatile system blocks as the setting
/// `CODEMERMAFROST_RELOCATE` has it: on where it is set, to whatever value.
pub fn convert_request(req: &MessagesRequest, config: &Config, relocate: Option<&str>) -> (draft:
    ChatDraft)
    ensures
        draft.is_draft_of(*req, *config, relocate is Some),
{
    convert_request_with_relocation(req, config, relocate.is_some())
}

/// Converts a request.
pub fn convert_request_with_relocation(
    req: &MessagesRequest,
    config: &Config,
    relocate: bool,
) -> (draft: ChatDraft)
    ensures
        draft.is_draft_of(*req, *config, relocate),
{
    let model = map_model_to_upstream(req.model.as_str(), config);
    let include_reasoning = should_replay_reasoning_content(
        model.as_str(),
        effort_for_replay(&req.thinking),
        config,
    );
    let binding = config.binding_for_model(model.as_str());
    let (replay_full, append_only, split_tail) = match config.policy_for_model(model.as_str()) {
        Some(policy) => (
            policy.full_assistant_replay_for_upstream(binding),
            policy.append_only_history_for_upstream(binding),
            policy.split_tail_relocate_for_upstream(binding),
        ),
        None => (false, false, false),
    };
    let relocation = if split_tail {
        Relocation::SplitTail
    } else if relocate {
        Relocation::Migrate
    } else {
        Relocation::Stay
    };
    let cache_key = choose_key_source(req, config, model.as_str());
    let effort = choose_effort(req, config, model.as_str());
    let stream = match req.stream {
        Some(b) => b,
        None => false,
    };
    let messages: Vec<Json> = Vec::new();
    assert(json::items_view(messages@) =~= Seq::empty());
    let mut request = ChatCompletionRequest {
        model,
        messages,
        max_tokens: None,
        max_completion_tokens: Some(req.max_tokens),
        stream: Some(stream),
        stream_options: if stream {
            Some(StreamOptions { include_usage: true })
        } else {
            None
        },
        reasoning_effort: None,
        thinking: None,
        tools: match &req.tools {
            Some(tools) => Some(convert_tools(tools)),
            None => None,
        },
        tool_choice: match &req.tool_choice {
            Some(choice) => Some(convert_tool_choice(choice)),
            None => None,
        },
        stop: None,
        prompt_cache_key: None,
    };
    assert(request@ =~= plain_request(*req, *config));
    match &effort {
        Some(effort) => {
            apply_effort_direct(&mut request, effort.as_str(), config);
        },
        None => {},
    }
    let ghost before = request@;
    if starts_with(request.model.as_str(), "glm-5") {
        request.thinking = match request.thinking {
            Some(thinking) => Some(
                DeepSeekThinking {
                    thinking_type: thinking.thinking_type,
                    clear_thinking: Some(false),
                },
            ),
            None => None,
        };
    }
    assert(request@ =~= keeping_thinking(before));
    ChatDraft {
        request,
        relocation,
        assistant_replay: replay_full || include_reasoning,
        append_only,
        cache_key,
    }
}

/// The system prompt that relocation starts from: the empty text where there is none.
pub fn system_to_relocate(system: &Option<SystemPrompt>) -> (r: SystemPrompt)
    ensures
        r@ == match *system {
            Some(prompt) => prompt@,
            None => SystemView::Text(Seq::empty()),
        },
{
    match system {
        Some(prompt) => prompt.clone(),
        None => SystemPrompt::Text(String::new()),
    }
}

/// The system prompt after relocation: none where nothing but the empty text is left.
pub fn relocated_system(system: SystemPrompt) -> (r: Option<SystemPrompt>)
    ensures
        r == match system {
            SystemPrompt::Text(text) => if text@.len() == 0 {
                None
            } else {
                Some(system)
            },
            SystemPrompt::Blocks(_) => Some(system),
        },
{
    let empty = match &system {
        SystemPrompt::Text(text) => text.as_str().unicode_len() == 0,
        SystemPrompt::Blocks(_) => false,
    };
    if empty {
        None
    } else {
        Some(system)
    }
}

} // verus!
