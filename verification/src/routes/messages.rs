//! The decisions of the messages endpoint: where a request goes, when it is tried
//! again, and what the client is told.

use crate::anthropic::converter::{self, map_model_to_upstream_for_responses};
use crate::anthropic::types::{
    BlockView, MessagesRequest, MessagesResponse, ResponseContentBlock, ResponseView,
};
use crate::cache::{self, official, CachePolicy};
use crate::config::{self, Config, WireApi};
use crate::json::{Json, JsonView};
use crate::openai::converter::{
    self as answers, convert_non_stream_response, EmptyTextGuard,
};
use crate::openai::types::ChatCompletionResponse;
use crate::reasoning::replay::{self, requires_reasoning_content};
use crate::text::{self, clone_texts, to_decimal};
use vstd::prelude::*;
use vstd::string::*;

verus! {

/// The reasoning fields of a model: those of its provider, or the common ones.
pub open spec fn reasoning_fields(model: Seq<char>, config: Config) -> (Seq<char>, Seq<Seq<char>>) {
    match config.model_provider(model) {
        Some(provider) => (
            provider.reasoning_field@,
            text::texts(provider.reasoning_field_alt@),
        ),
        None => ("reasoning_content"@, seq!["reasoning"@]),
    }
}

/// The reasoning fields of a model, the primary one and its alternatives.
pub fn get_reasoning_fields(model: &str, config: &Config) -> (r: (String, Vec<String>))
    ensures
        (r.0@, text::texts(r.1@)) == reasoning_fields(model@, *config),
{
    match config.provider_for_model(model) {
        Some(provider) => (
            provider.reasoning_field.clone(),
            clone_texts(&provider.reasoning_field_alt),
        ),
        None => {
            let mut alternatives: Vec<String> = Vec::new();
            alternatives.push("reasoning".to_owned());
            assert(text::texts(alternatives@) =~= seq!["reasoning"@]);
            ("reasoning_content".to_owned(), alternatives)
        },
    }
}

/// The cache policy of a model.
pub fn cache_policy_for(config: &Config, model: &str) -> (r: Option<CachePolicy>)
    ensures
        match r {
            Some(policy) => config.model_policy(model@) matches Some(declared) && policy@
                == declared@,
            None => config.model_policy(model@) is None,
        },
{
    match config.policy_for_model(model) {
        Some(policy) => Some(policy.clone()),
        None => None,
    }
}

/// Whether a model goes to the official upstream: its provider is bound to it.
pub fn routes_officially(model: &str, config: &Config) -> (r: bool)
    ensures
        r == cache::is_official(config.model_binding(model@)),
{
    official(config.binding_for_model(model))
}

/// The client of a model: the official one where its provider is bound to the official
/// upstream, and the default one otherwise. Names of providers do not count.
pub fn select_client<'a, C>(
    model: &str,
    config: &Config,
    client: &'a C,
    official_client: &'a C,
) -> (r: &'a C)
    ensures
        r == if cache::is_official(config.model_binding(model@)) {
            official_client
        } else {
            client
        },
{
    if routes_officially(model, config) {
        official_client
    } else {
        client
    }
}

/// Routing follows what is declared. A model without a profile never goes to the
/// official upstream. A declared upstream decides alone, and only the one named
/// `official` is official. Where none is declared, only the old name of the Moonshot
/// provider is.
pub proof fn law_routing_is_declared(model: Seq<char>, config: Config)
    ensures
        config.profile_of(model) is None ==> !cache::is_official(config.model_binding(model)),
        config.profile_of(model) matches Some(profile) ==> (match config::declared_upstream(
            config.provider_of(profile.provider@),
        ) {
            Some(upstream) => cache::is_official(config.model_binding(model)) <==> upstream
                == "official"@,
            None => cache::is_official(config.model_binding(model)) <==> profile.provider@
                == "moonshot-official"@,
        }),
{
}

/// Where a request goes.
#[derive(Debug)]
pub struct Route {
    pub upstream_model: String,
    pub official: bool,
    pub wire_api: WireApi,
    pub stream: bool,
}

/// Decides where a request goes.
pub fn route_request(req: &MessagesRequest, config: &Config) -> (r: Route)
    ensures
        r.upstream_model@ == converter::upstream_name(req.model@, *config),
        r.official == cache::is_official(config.model_binding(r.upstream_model@)),
        r.wire_api == config.wire_api_of(r.upstream_model@),
        r.stream == req.stream.unwrap_or(false),
{
    let upstream_model = map_model_to_upstream_for_responses(req.model.as_str(), config);
    let official = routes_officially(upstream_model.as_str(), config);
    let wire_api = config.wire_api_for_model(upstream_model.as_str());
    let stream = match req.stream {
        Some(b) => b,
        None => false,
    };
    Route { upstream_model, official, wire_api, stream }
}

/// What happens after a failed attempt.
#[derive(Debug, Clone, Copy, PartialEq, Eq, Structural)]
pub enum Retry {
    /// Another attempt after a pause.
    After { retries: u32, delay_secs: u64 },
    /// The failure is reported.
    GiveUp,
}

/// What happens after a failed attempt: another one while retries are left, after a
/// pause that doubles from one to the next.
pub open spec fn retry_after(retries: u32, max_retries: u32) -> Retry {
    if retries < max_retries {
        Retry::After {
            retries: (retries + 1) as u32,
            delay_secs: vstd::arithmetic::power2::pow2((retries + 1) as nat) as u64,
        }
    } else {
        Retry::GiveUp
    }
}

/// Decides what happens after a failed attempt. The pause has to fit in 64 bits.
pub fn next_attempt(retries: u32, max_retries: u32) -> (r: Retry)
    requires
        retries < max_retries ==> retries < 63,
    ensures
        r == retry_after(retries, max_retries),
        r matches Retry::After { delay_secs, .. } ==> delay_secs
            == vstd::arithmetic::power2::pow2((retries + 1) as nat),
{
    if retries >= max_retries {
        return Retry::GiveUp;
    }
    let mut delay_secs: u64 = 1;
    let mut i: u32 = 0;
    proof {
        vstd::arithmetic::power2::lemma2_to64();
    }
    while i < retries + 1
        invariant
            i <= retries + 1 <= 63,
            delay_secs == vstd::arithmetic::power2::pow2(i as nat),
        decreases retries + 1 - i,
    {
        proof {
            vstd::arithmetic::power2::lemma2_to64_rest();
            vstd::arithmetic::power2::lemma_pow2_unfold((i + 1) as nat);
            if i + 1 < 63 {
                vstd::arithmetic::power2::lemma_pow2_strictly_increases((i + 1) as nat, 63);
            }
        }
        delay_secs = delay_secs * 2;
        i = i + 1;
    }
    Retry::After { retries: retries + 1, delay_secs }
}

/// However often a request fails, it is tried again at most as often as allowed: the
/// count of retries goes up by one each time, and never past the limit.
pub proof fn law_retries_are_bounded(retries: u32, max_retries: u32)
    requires
        retries <= max_retries,
    ensures
        retry_after(retries, max_retries) matches Retry::After { retries: next, .. } ==> {
            &&& next == retries + 1
            &&& next <= max_retries
        },
        retry_after(max_retries, max_retries) == Retry::GiveUp,
{
}

/// What the client is told of a failure.
#[derive(Debug)]
pub struct ErrorReply {
    pub status: u16,
    pub error_type: String,
    pub message: String,
}

/// What the client is told of a failure.
pub struct ErrorReplyView {
    pub status: u16,
    pub error_type: Seq<char>,
    pub message: Seq<char>,
}

impl View for ErrorReply {
    type V = ErrorReplyView;

    open spec fn view(&self) -> ErrorReplyView {
        ErrorReplyView {
            status: self.status,
            error_type: self.error_type@,
            message: self.message@,
        }
    }
}

impl ErrorReplyView {
    /// The body of the reply.
    pub open spec fn body(self) -> JsonView {
        JsonView::Object(
            Map::empty().insert("type"@, JsonView::String("error"@)).insert(
                "error"@,
                JsonView::Object(
                    Map::empty().insert("type"@, JsonView::String(self.error_type)).insert(
                        "message"@,
                        JsonView::String(self.message),
                    ),
                ),
            ),
        )
    }
}

impl ErrorReply {
    /// The request cannot be converted.
    pub fn bad_request(message: String) -> (r: ErrorReply)
        ensures
            r@ == (ErrorReplyView {
                status: 400,
                error_type: "invalid_request_error"@,
                message: message@,
            }),
    {
        ErrorReply { status: 400, error_type: "invalid_request_error".to_owned(), message }
    }

    /// The upstream failed.
    pub fn bad_gateway(message: String) -> (r: ErrorReply)
        ensures
            r@ == (ErrorReplyView { status: 502, error_type: "api_error"@, message: message@ }),
    {
        ErrorReply { status: 502, error_type: "api_error".to_owned(), message }
    }

    /// The Chat Completions request cannot be converted.
    pub fn conversion_failed(cause: &str) -> (r: ErrorReply)
        ensures
            r@ == (ErrorReplyView {
                status: 400,
                error_type: "invalid_request_error"@,
                message: "Failed to convert request: "@ + cause@,
            }),
    {
        let mut message = "Failed to convert request: ".to_owned();
        message.append(cause);
        ErrorReply::bad_request(message)
    }

    /// The upstream failed once more than allowed.
    pub fn retries_exhausted(max_retries: u32, cause: &str) -> (r: ErrorReply)
        ensures
            r@ == (ErrorReplyView {
                status: 500,
                error_type: "api_error"@,
                message: "Upstream error after "@ + text::decimal(max_retries as nat)
                    + " retries: "@ + cause@,
            }),
    {
        let mut message = "Upstream error after ".to_owned();
        message.append(to_decimal(max_retries as u64).as_str());
        message.append(" retries: ");
        message.append(cause);
        ErrorReply { status: 500, error_type: "api_error".to_owned(), message }
    }

    /// The answer of the upstream cannot be read.
    pub fn unreadable_response(cause: &str) -> (r: ErrorReply)
        ensures
            r@ == (ErrorReplyView {
                status: 500,
                error_type: "api_error"@,
                message: "Failed to parse response: "@ + cause@,
            }),
    {
        let mut message = "Failed to parse response: ".to_owned();
        message.append(cause);
        ErrorReply { status: 500, error_type: "api_error".to_owned(), message }
    }

    /// The body of the reply.
    pub fn body(&self) -> (r: Json)
        ensures
            r@ == self@.body(),
    {
        Json::object().with("type", Json::string("error")).with(
            "error",
            Json::object().with("type", Json::string(self.error_type.as_str())).with(
                "message",
                Json::string(self.message.as_str()),
            ),
        )
    }
}

/// Whether an answer has text or tool use.
pub open spec fn speaks(content: Seq<BlockView>) -> bool {
    exists|i: int| 0 <= i < content.len() && !((#[trigger] content[i]) is Thinking)
}

/// What an enforcing guard tells the client in place of an answer that ended without
/// text and without tool use.
pub open spec fn empty_reply(response: ResponseView, guard: EmptyTextGuard) -> Option<
    ErrorReplyView,
> {
    match response.stop_reason {
        Some(reason) => if guard == EmptyTextGuard::Enforce && !speaks(response.content) {
            Some(
                ErrorReplyView {
                    status: 502,
                    error_type: "api_error"@,
                    message: "upstream returned empty content (finish_reason="@ + reason + ")"@,
                },
            )
        } else {
            None
        },
        None => None,
    }
}

/// Whether an answer holds text or tool use.
pub fn has_text_or_tool(response: &MessagesResponse) -> (r: bool)
    ensures
        r == speaks(response@.content),
{
    let mut i: usize = 0;
    while i < response.content.len()
        invariant
            i <= response.content@.len(),
            forall|j: int| 0 <= j < i ==> (#[trigger] response@.content[j]) is Thinking,
        decreases response.content@.len() - i,
    {
        match &response.content[i] {
            ResponseContentBlock::Thinking { .. } => {},
            _ => {
                assert(!(response@.content[i as int] is Thinking));
                return true;
            },
        }
        i = i + 1;
    }
    false
}

/// Checks an answer for text and tool use.
pub fn check_empty_content(response: &MessagesResponse, guard: EmptyTextGuard) -> (r: Option<
    ErrorReply,
>)
    ensures
        match r {
            Some(reply) => empty_reply(response@, guard) == Some(reply@),
            None => empty_reply(response@, guard) is None,
        },
{
    if has_text_or_tool(response) {
        return None;
    }
    match (&response.stop_reason, guard) {
        (Some(reason), EmptyTextGuard::Enforce) => {
            let mut message = "upstream returned empty content (finish_reason=".to_owned();
            message.append(reason.as_str());
            message.append(")");
            Some(ErrorReply::bad_gateway(message))
        },
        _ => None,
    }
}

/// The answer to a request that is not streamed.
pub open spec fn whole_answer(
    response: ChatCompletionResponse,
    model: Seq<char>,
    msg_id: Seq<char>,
    upstream_model: Seq<char>,
    config: Config,
) -> ResponseView {
    let (field, alternatives) = reasoning_fields(upstream_model, config);
    answers::response_of(
        response,
        model,
        msg_id,
        field,
        alternatives,
        config.model_policy(upstream_model) matches Some(policy) && policy.reports_raw(),
    )
}

/// Answers a request that is not streamed: the converted completion, or the error of
/// the guard.
pub fn complete(
    response: &ChatCompletionResponse,
    model: &str,
    msg_id: &str,
    upstream_model: &str,
    config: &Config,
    guard: EmptyTextGuard,
) -> (r: Result<MessagesResponse, ErrorReply>)
    ensures
        ({
            let answer = whole_answer(*response, model@, msg_id@, upstream_model@, *config);
            match r {
                Ok(message) => message@ == answer && empty_reply(answer, guard) is None,
                Err(reply) => empty_reply(answer, guard) == Some(reply@),
            }
        }),
{
    let (field, alternatives) = get_reasoning_fields(upstream_model, config);
    let answer = convert_non_stream_response(
        response,
        model,
        msg_id,
        field.as_str(),
        &alternatives,
        config.policy_for_model(upstream_model),
    );
    match check_empty_content(&answer, guard) {
        Some(reply) => Err(reply),
        None => Ok(answer),
    }
}

/// How the stream of a model is read.
#[derive(Debug)]
pub struct StreamSettings {
    pub is_reasoning_model: bool,
    pub reasoning_field: String,
    pub reasoning_field_alt: Vec<String>,
    pub cache_policy: Option<CachePolicy>,
}

/// Decides how the stream of a model is read.
pub fn stream_settings(upstream_model: &str, config: &Config) -> (r: StreamSettings)
    ensures
        r.is_reasoning_model == replay::reasons(*config, upstream_model@),
        (r.reasoning_field@, text::texts(r.reasoning_field_alt@)) == reasoning_fields(
            upstream_model@,
            *config,
        ),
        match r.cache_policy {
            Some(policy) => config.model_policy(upstream_model@) matches Some(declared) && policy@
                == declared@,
            None => config.model_policy(upstream_model@) is None,
        },
{
    let (reasoning_field, reasoning_field_alt) = get_reasoning_fields(upstream_model, config);
    StreamSettings {
        is_reasoning_model: requires_reasoning_content(upstream_model, config),
        reasoning_field,
        reasoning_field_alt,
        cache_policy: cache_policy_for(config, upstream_model),
    }
}

/// A guard that does not enforce lets every answer through, and an enforcing one every
/// answer with text or tool use.
pub proof fn law_guards_let_answers_through(response: ResponseView, guard: EmptyTextGuard)
    requires
        guard != EmptyTextGuard::Enforce || speaks(response.content),
    ensures
        empty_reply(response, guard) is None,
{
}

/// The reasoning of a model is looked for under the names of its provider, or under the
/// common ones where it has none.
pub proof fn law_reasoning_fields_are_the_providers(model: Seq<char>, config: Config)
    ensures
        match config.model_provider(model) {
            Some(provider) => {
                &&& reasoning_fields(model, config).0 == provider.reasoning_field@
                &&& reasoning_fields(model, config).1.len() == provider.reasoning_field_alt@.len()
                &&& forall|i: int|
                    0 <= i < provider.reasoning_field_alt@.len() ==> (
                    #[trigger] reasoning_fields(model, config).1[i])
                        == provider.reasoning_field_alt@[i]@
            },
            None => {
                &&& reasoning_fields(model, config).0 == "reasoning_content"@
                &&& reasoning_fields(model, config).1 == seq!["reasoning"@]
            },
        },
{
}

/// A request is tried again exactly while retries are left, first after two seconds, and
/// each pause is twice the one before.
pub proof fn law_pauses_double(retries: u32, max_retries: u32)
    requires
        retries < 62,
    ensures
        retry_after(retries, max_retries) is GiveUp <==> retries >= max_retries,
        retries < max_retries && retries == 0 ==> retry_after(
            retries,
            max_retries,
        )->delay_secs == 2,
        retries + 1 < max_retries ==> retry_after((retries + 1) as u32, max_retries)->delay_secs
            == 2 * retry_after(retries, max_retries)->delay_secs,
{
    vstd::arithmetic::power2::lemma2_to64();
    vstd::arithmetic::power2::lemma2_to64_rest();
    vstd::arithmetic::power2::lemma_pow2_unfold((retries + 2) as nat);
    vstd::arithmetic::power2::lemma_pow2_unfold((retries + 1) as nat);
    if retries + 2 < 63 {
        vstd::arithmetic::power2::lemma_pow2_strictly_increases((retries + 2) as nat, 63);
    }
    vstd::arithmetic::power2::lemma_pow2_strictly_increases((retries + 1) as nat, 63);
}

/// A guard rejects an answer exactly where it enforces, the answer has ended, and all of
/// it is thinking; the client is told how it ended.
pub proof fn law_empty_answers_are_rejected(response: ResponseView, guard: EmptyTextGuard)
    ensures
        empty_reply(response, guard) is Some <==> {
            &&& guard == EmptyTextGuard::Enforce
            &&& response.stop_reason is Some
            &&& forall|i: int|
                0 <= i < response.content.len() ==> (#[trigger] response.content[i]) is Thinking
        },
        empty_reply(response, guard) matches Some(reply) ==> {
            &&& reply.status == 502
            &&& reply.error_type == "api_error"@
            &&& reply.message == "upstream returned empty content (finish_reason="@
                + response.stop_reason->0 + ")"@
        },
{
}

/// A whole answer is made with what is declared of its model: the names of its reasoning
/// fields, and whether raw counts are reported.
pub proof fn law_whole_answers_go_by_the_model(
    response: ChatCompletionResponse,
    model: Seq<char>,
    msg_id: Seq<char>,
    upstream_model: Seq<char>,
    config: Config,
)
    ensures
        whole_answer(response, model, msg_id, upstream_model, config) == answers::response_of(
            response,
            model,
            msg_id,
            reasoning_fields(upstream_model, config).0,
            reasoning_fields(upstream_model, config).1,
            config.model_policy(upstream_model) matches Some(policy) && policy.usage
                == cache::UsagePolicy::TopLevelCachedTokens,
        ),
{
}

/// The body of a reply tells its type and its message.
pub proof fn law_replies_tell_the_failure(reply: ErrorReplyView)
    ensures
        reply.body().get("type"@) == Some(JsonView::String("error"@)),
        reply.body().get("error"@) matches Some(error) && error.get("type"@) == Some(
            JsonView::String(reply.error_type),
        ) && error.get("message"@) == Some(JsonView::String(reply.message)),
{
    reveal_strlit("type");
    reveal_strlit("error");
    reveal_strlit("message");
    assert("type"@.len() == 4 && "error"@.len() == 5 && "message"@.len() == 7);
}

} // verus!
