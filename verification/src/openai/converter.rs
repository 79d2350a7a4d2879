//! From Chat Completions answers to Anthropic messages, whole and streamed.

use crate::anthropic::types::{
    self, emit, BlockView, ContentBlockDeltaData, ContentBlockStartData, ErrorData, EventView,
    MessageDeltaData, MessageStartData, MessagesResponse, PieceView, ResponseContentBlock,
    ResponseView, SseEvent, StreamUsage, Usage,
};
use crate::cache::{
    self, chat_usage_view, chat_usage_view_from_buckets, from_chat_usage, nested_cached_tokens,
    CachePolicy,
};
use crate::json::{self, Json, JsonView};
use crate::openai::types::{
    ChatCompletionResponse, ChatDelta, ChatDeltaView, ChatMessage, Choice, ToolCall, ToolCallDelta,
    ToolCallDeltaView,
};
use crate::text::{self, blank, byte_length, same, to_decimal};
use vstd::prelude::*;
use vstd::string::*;

verus! {

/// The signature that stands in for one that no upstream gives.
pub open spec fn placeholder_signature() -> Seq<char> {
    "sig_proxy_placeholder"@
}

/// The Anthropic name of a finish reason; an unknown one stays as it is.
pub open spec fn stop_reason_of(reason: Seq<char>) -> Seq<char> {
    if reason == "stop"@ {
        "end_turn"@
    } else if reason == "tool_calls"@ {
        "tool_use"@
    } else if reason == "length"@ {
        "max_tokens"@
    } else {
        reason
    }
}

/// The Anthropic name of a finish reason.
pub fn map_finish_reason(fr: &str) -> (r: String)
    ensures
        r@ == stop_reason_of(fr@),
{
    if same(fr, "stop") {
        "end_turn".to_owned()
    } else if same(fr, "tool_calls") {
        "tool_use".to_owned()
    } else if same(fr, "length") {
        "max_tokens".to_owned()
    } else {
        fr.to_owned()
    }
}

/// The tool-use block of a tool call. Arguments that are not JSON become null.
pub open spec fn tool_block(call: ToolCall) -> BlockView {
    BlockView::ToolUse {
        id: call.id@,
        name: match call.function {
            Some(f) => f.name@,
            None => "unknown"@,
        },
        input: match call.function {
            Some(f) => match json::json_of_text(f.arguments@) {
                Some(v) => v,
                None => JsonView::Null,
            },
            None => JsonView::Null,
        },
    }
}

/// The thinking block of a message: its reasoning, where it is not blank.
pub open spec fn thinking_blocks(
    message: ChatMessage,
    primary: Seq<char>,
    alternatives: Seq<Seq<char>>,
) -> Seq<BlockView> {
    match message.reasoning_of(primary, alternatives) {
        Some(thinking) if !text::is_blank(thinking) => seq![
            BlockView::Thinking { thinking, signature: placeholder_signature() },
        ],
        _ => Seq::empty(),
    }
}

/// The text block of a message: its content, where it is not blank.
pub open spec fn text_blocks(message: ChatMessage) -> Seq<BlockView> {
    match message.content {
        Some(content) if !text::is_blank(content@) => seq![BlockView::Text { text: content@ }],
        _ => Seq::empty(),
    }
}

/// The tool-use blocks of a message.
pub open spec fn tool_blocks(message: ChatMessage) -> Seq<BlockView> {
    match message.tool_calls {
        Some(calls) => Seq::new(calls@.len(), |i: int| tool_block(calls@[i])),
        None => Seq::empty(),
    }
}

/// The blocks of a message: thinking, text, tool use.
pub open spec fn message_blocks(
    message: ChatMessage,
    primary: Seq<char>,
    alternatives: Seq<Seq<char>>,
) -> Seq<BlockView> {
    thinking_blocks(message, primary, alternatives) + text_blocks(message) + tool_blocks(message)
}

/// The answer that counts: the first one.
pub open spec fn first_choice(response: ChatCompletionResponse) -> Option<Choice> {
    if response.choices@.len() > 0 {
        Some(response.choices@[0])
    } else {
        None
    }
}

/// The Anthropic answer for a whole completion.
pub open spec fn response_of(
    response: ChatCompletionResponse,
    model: Seq<char>,
    msg_id: Seq<char>,
    primary: Seq<char>,
    alternatives: Seq<Seq<char>>,
    raw: bool,
) -> ResponseView {
    let choice = first_choice(response);
    let view = cache::usage_report(response.usage, raw);
    ResponseView {
        id: msg_id,
        response_type: "message"@,
        role: "assistant"@,
        content: match choice {
            Some(c) => match c.message {
                Some(m) => message_blocks(m, primary, alternatives),
                None => Seq::empty(),
            },
            None => Seq::empty(),
        },
        model,
        stop_reason: match choice {
            Some(c) => match c.finish_reason {
                Some(reason) => Some(stop_reason_of(reason@)),
                None => None,
            },
            None => None,
        },
        stop_sequence: None,
        usage: Usage {
            input_tokens: view.input.unwrap_or(0),
            output_tokens: match response.usage {
                Some(u) => u.completion_tokens.unwrap_or(0),
                None => 0,
            },
            cache_read_input_tokens: view.read,
            cache_creation_input_tokens: view.creation,
        },
    }
}

/// The tool-use block of a tool call.
fn convert_tool_call(call: &ToolCall) -> (r: ResponseContentBlock)
    ensures
        r@ == tool_block(*call),
{
    let (name, input) = match &call.function {
        Some(f) => (
            f.name.clone(),
            match Json::parse(f.arguments.as_str()) {
                Some(v) => v,
                None => Json::Null,
            },
        ),
        None => ("unknown".to_owned(), Json::Null),
    };
    ResponseContentBlock::ToolUse { id: call.id.clone(), name, input }
}

/// The blocks of a message.
fn convert_message(
    message: &ChatMessage,
    reasoning_field: &str,
    reasoning_field_alt: &Vec<String>,
) -> (content: Vec<ResponseContentBlock>)
    ensures
        types::blocks_view(content@) == message_blocks(
            *message,
            reasoning_field@,
            text::texts(reasoning_field_alt@),
        ),
{
    let mut content: Vec<ResponseContentBlock> = Vec::new();
    match message.get_reasoning(reasoning_field, reasoning_field_alt) {
        Some(reasoning) => if !blank(reasoning) {
            content.push(
                ResponseContentBlock::Thinking {
                    thinking: reasoning.to_owned(),
                    signature: "sig_proxy_placeholder".to_owned(),
                },
            );
        },
        None => {},
    }
    let ghost thinking = thinking_blocks(
        *message,
        reasoning_field@,
        text::texts(reasoning_field_alt@),
    );
    assert(types::blocks_view(content@) =~= thinking);
    match &message.content {
        Some(words) => if !blank(words.as_str()) {
            content.push(ResponseContentBlock::Text { text: words.clone() });
        },
        None => {},
    }
    let ghost spoken = thinking + text_blocks(*message);
    assert(types::blocks_view(content@) =~= spoken);
    match &message.tool_calls {
        Some(calls) => {
            let ghost all = tool_blocks(*message);
            let mut i: usize = 0;
            assert(spoken + all.take(0) =~= spoken);
            while i < calls.len()
                invariant
                    i <= calls@.len(),
                    all.len() == calls@.len(),
                    forall|j: int|
                        0 <= j < calls@.len() ==> #[trigger] all[j] == tool_block(calls@[j]),
                    types::blocks_view(content@) == spoken + all.take(i as int),
                decreases calls@.len() - i,
            {
                let ghost before = content@;
                content.push(convert_tool_call(&calls[i]));
                assert(types::blocks_view(content@) =~= types::blocks_view(before).push(
                    all[i as int],
                ));
                assert(spoken + all.take(i + 1) =~= (spoken + all.take(i as int)).push(
                    all[i as int],
                ));
                i = i + 1;
            }
            assert(all.take(i as int) =~= all);
        },
        None => {
            assert(spoken + tool_blocks(*message) =~= spoken);
        },
    }
    content
}

/// Converts a whole completion into an Anthropic answer.
pub fn convert_non_stream_response(
    openai_resp: &ChatCompletionResponse,
    model: &str,
    msg_id: &str,
    reasoning_field: &str,
    reasoning_field_alt: &Vec<String>,
    cache_policy: Option<&CachePolicy>,
) -> (r: MessagesResponse)
    ensures
        r@ == response_of(
            *openai_resp,
            model@,
            msg_id@,
            reasoning_field@,
            text::texts(reasoning_field_alt@),
            cache::raw_usage(cache_policy),
        ),
{
    let mut content: Vec<ResponseContentBlock> = Vec::new();
    let mut stop_reason: Option<String> = None;
    assert(types::blocks_view(content@) =~= Seq::empty());
    if openai_resp.choices.len() > 0 {
        let choice = &openai_resp.choices[0];
        match &choice.message {
            Some(message) => {
                content = convert_message(message, reasoning_field, reasoning_field_alt);
            },
            None => {},
        }
        match &choice.finish_reason {
            Some(reason) => {
                stop_reason = Some(map_finish_reason(reason.as_str()));
            },
            None => {},
        }
    }
    let view = chat_usage_view(openai_resp.usage.as_ref(), cache_policy);
    let output_tokens: u32 = match &openai_resp.usage {
        Some(u) => match u.completion_tokens {
            Some(n) => n,
            None => 0,
        },
        None => 0,
    };
    let input_tokens: u32 = match view.input {
        Some(n) => n,
        None => 0,
    };
    MessagesResponse {
        id: msg_id.to_owned(),
        response_type: "message".to_owned(),
        role: "assistant".to_owned(),
        content,
        model: model.to_owned(),
        stop_reason,
        stop_sequence: None,
        usage: Usage {
            input_tokens,
            output_tokens,
            cache_read_input_tokens: view.read,
            cache_creation_input_tokens: view.creation,
        },
    }
}

/// What is done about a stream that ends without text and without tool use.
///
/// Clients take a silent empty message for a success and fail later on.
#[derive(Debug, Clone, Copy, PartialEq, Eq, Structural)]
pub enum EmptyTextGuard {
    /// Nothing: the empty message goes out.
    Off,
    /// The empty message goes out and is meant to be logged.
    Warn,
    /// An error goes out in place of the ending.
    Enforce,
}

impl EmptyTextGuard {
    /// The mode of a setting: `off` and `enforce` by name, `Warn` for anything else.
    pub open spec fn of_setting(setting: Option<Seq<char>>) -> EmptyTextGuard {
        if setting == Some("off"@) {
            EmptyTextGuard::Off
        } else if setting == Some("enforce"@) {
            EmptyTextGuard::Enforce
        } else {
            EmptyTextGuard::Warn
        }
    }

    /// The mode of the setting `CC_PROXY_EMPTY_TEXT_GUARD`.
    pub fn from_env(setting: Option<&str>) -> (r: EmptyTextGuard)
        ensures
            r == EmptyTextGuard::of_setting(text::opt_str(setting)),
    {
        match setting {
            Some(word) => if same(word, "off") {
                EmptyTextGuard::Off
            } else if same(word, "enforce") {
                EmptyTextGuard::Enforce
            } else {
                EmptyTextGuard::Warn
            },
            None => EmptyTextGuard::Warn,
        }
    }
}

/// The block that deltas go to, besides tool blocks.
#[derive(Debug, Clone, Copy, PartialEq, Eq, Structural)]
pub enum OpenBlock {
    Nothing,
    Thinking,
    Text,
}

/// Turns streamed changes into Anthropic events, block by block.
#[derive(Debug)]
pub struct SseStateMachine {
    content_index: u32,
    open: OpenBlock,
    /// Upstream index and block index of each tool call, in the order of opening.
    tool_indices: Vec<(u32, u32)>,
    is_reasoning_model: bool,
    /// Whether a text delta that is not blank went out.
    emitted_text: bool,
    empty_text_guard: EmptyTextGuard,
    reasoning_field: String,
    reasoning_field_alt: Vec<String>,
    /// The text of the latest thinking block.
    current_thinking: String,
    input_tokens: Option<u32>,
    cached_tokens: Option<u32>,
    cache_policy: Option<CachePolicy>,
    raw_read_tokens: Option<u32>,
}

/// The state of a stream.
#[verifier::ext_equal]
pub struct MachineView {
    pub content_index: u32,
    pub open: OpenBlock,
    pub tools: Seq<(u32, u32)>,
    pub is_reasoning_model: bool,
    pub emitted_text: bool,
    pub guard: EmptyTextGuard,
    pub reasoning_field: Seq<char>,
    pub reasoning_field_alt: Seq<Seq<char>>,
    pub thinking: Seq<char>,
    pub input_tokens: Option<u32>,
    pub cached_tokens: Option<u32>,
    pub raw_read_tokens: Option<u32>,
    pub raw_usage: bool,
}

impl View for SseStateMachine {
    type V = MachineView;

    closed spec fn view(&self) -> MachineView {
        MachineView {
            content_index: self.content_index,
            open: self.open,
            tools: self.tool_indices@,
            is_reasoning_model: self.is_reasoning_model,
            emitted_text: self.emitted_text,
            guard: self.empty_text_guard,
            reasoning_field: self.reasoning_field@,
            reasoning_field_alt: text::texts(self.reasoning_field_alt@),
            thinking: self.current_thinking@,
            input_tokens: self.input_tokens,
            cached_tokens: self.cached_tokens,
            raw_read_tokens: self.raw_read_tokens,
            raw_usage: match self.cache_policy {
                Some(policy) => policy.reports_raw(),
                None => false,
            },
        }
    }
}

/// The block index of a tool call that is known by its upstream index.
pub open spec fn tool_index(tools: Seq<(u32, u32)>, upstream: u32) -> Option<u32>
    decreases tools.len(),
{
    if tools.len() == 0 {
        None
    } else if tools[0].0 == upstream {
        Some(tools[0].1)
    } else {
        tool_index(tools.drop_first(), upstream)
    }
}

/// A text, or a stand-in for a missing one.
pub open spec fn or_else(text: Option<Seq<char>>, stand_in: Seq<char>) -> Seq<char> {
    match text {
        Some(s) => s,
        None => stand_in,
    }
}

/// The stops of the open tool blocks.
pub open spec fn tool_stops(tools: Seq<(u32, u32)>) -> Seq<EventView> {
    Seq::new(tools.len(), |i: int| EventView::BlockStop { index: tools[i].1 })
}

/// The error that stands in for an empty ending.
pub open spec fn empty_error(reason: Option<Seq<char>>, output_tokens: Option<u32>, thinking: Seq<
    char,
>) -> EventView {
    EventView::Error {
        error_type: "stream_error"@,
        message: "upstream returned empty content (finish_reason="@ + or_else(reason, "(none)"@)
            + ", output_tokens="@ + text::decimal(output_tokens.unwrap_or(0) as nat)
            + ", thinking_chars="@ + text::decimal(text::byte_len(thinking)) + ")"@,
    }
}

impl MachineView {
    /// A stream that nothing was received of yet.
    pub open spec fn fresh(
        is_reasoning_model: bool,
        reasoning_field: Seq<char>,
        reasoning_field_alt: Seq<Seq<char>>,
        raw_usage: bool,
    ) -> MachineView {
        MachineView {
            content_index: 0,
            open: OpenBlock::Nothing,
            tools: Seq::empty(),
            is_reasoning_model,
            emitted_text: false,
            guard: EmptyTextGuard::Warn,
            reasoning_field,
            reasoning_field_alt,
            thinking: Seq::empty(),
            input_tokens: None,
            cached_tokens: None,
            raw_read_tokens: None,
            raw_usage,
        }
    }

    /// The reasoning that a change brings.
    pub open spec fn reasoning(self, delta: ChatDeltaView) -> Option<Seq<char>> {
        delta.get_reasoning(self.reasoning_field, self.reasoning_field_alt)
    }

    /// The events that end the open block. A thinking block is signed first.
    pub open spec fn closing(self) -> Seq<EventView> {
        match self.open {
            OpenBlock::Nothing => Seq::empty(),
            OpenBlock::Thinking => seq![
                EventView::BlockDelta {
                    index: self.content_index,
                    piece: PieceView::Signature(placeholder_signature()),
                },
                EventView::BlockStop { index: self.content_index },
            ],
            OpenBlock::Text => seq![EventView::BlockStop { index: self.content_index }],
        }
    }

    /// The state once the open block has ended: the next block gets the next index.
    pub open spec fn closed(self) -> MachineView {
        match self.open {
            OpenBlock::Nothing => self,
            _ => MachineView {
                content_index: self.content_index.wrapping_add(1),
                open: OpenBlock::Nothing,
                ..self
            },
        }
    }

    /// Reasoning goes to a thinking block, which is opened where none is open; an open
    /// text block ends first.
    pub open spec fn after_reasoning(self, delta: ChatDeltaView) -> (MachineView, Seq<EventView>) {
        match self.reasoning(delta) {
            Some(words) if self.is_reasoning_model => match self.open {
                OpenBlock::Thinking => (
                    MachineView { thinking: self.thinking + words, ..self },
                    seq![
                        EventView::BlockDelta {
                            index: self.content_index,
                            piece: PieceView::Thinking(words),
                        },
                    ],
                ),
                _ => {
                    let ready = self.closed();
                    (
                        MachineView { open: OpenBlock::Thinking, thinking: words, ..ready },
                        self.closing() + seq![
                            EventView::BlockStart {
                                index: ready.content_index,
                                block: BlockView::Thinking {
                                    thinking: Seq::empty(),
                                    signature: Seq::empty(),
                                },
                            },
                            EventView::BlockDelta {
                                index: ready.content_index,
                                piece: PieceView::Thinking(words),
                            },
                        ],
                    )
                },
            },
            _ => (self, Seq::empty()),
        }
    }

    /// Text goes to a text block, which is opened where none is open; an open thinking
    /// block ends first.
    pub open spec fn after_text(self, delta: ChatDeltaView) -> (MachineView, Seq<EventView>) {
        match delta.content.text {
            Some(words) if words.len() > 0 => {
                let ready = if self.open == OpenBlock::Text {
                    self
                } else {
                    self.closed()
                };
                let opening = if self.open == OpenBlock::Text {
                    Seq::empty()
                } else {
                    self.closing().push(
                        EventView::BlockStart {
                            index: ready.content_index,
                            block: BlockView::Text { text: Seq::empty() },
                        },
                    )
                };
                (
                    MachineView {
                        open: OpenBlock::Text,
                        emitted_text: self.emitted_text || !text::is_blank(words),
                        ..ready
                    },
                    opening.push(
                        EventView::BlockDelta {
                            index: ready.content_index,
                            piece: PieceView::Text(words),
                        },
                    ),
                )
            },
            _ => (self, Seq::empty()),
        }
    }

    /// The first part of a tool call ends the open block and opens a block of its own.
    pub open spec fn opening_tool(self, call: ToolCallDeltaView) -> (MachineView, Seq<EventView>) {
        let ready = self.closed();
        (
            MachineView {
                content_index: ready.content_index.wrapping_add(1),
                tools: ready.tools.push((call.index.unwrap_or(0), ready.content_index)),
                ..ready
            },
            self.closing().push(
                EventView::BlockStart {
                    index: ready.content_index,
                    block: BlockView::ToolUse {
                        id: or_else(call.id, "unknown_call"@),
                        name: match call.function {
                            Some(f) => or_else(f.name, "unknown_tool"@),
                            None => "unknown_tool"@,
                        },
                        input: JsonView::Object(Map::empty()),
                    },
                },
            ),
        )
    }

    /// The arguments of a tool call go to its block, which the first part opens.
    pub open spec fn after_tool(self, call: ToolCallDeltaView) -> (MachineView, Seq<EventView>) {
        let known = tool_index(self.tools, call.index.unwrap_or(0));
        let (ready, opening) = match known {
            Some(_) => (self, Seq::empty()),
            None => self.opening_tool(call),
        };
        let index = match known {
            Some(index) => index,
            None => self.closed().content_index,
        };
        (
            ready,
            match call.function {
                Some(f) => match f.arguments {
                    Some(arguments) => opening.push(
                        EventView::BlockDelta { index, piece: PieceView::InputJson(arguments) },
                    ),
                    None => opening,
                },
                None => opening,
            },
        )
    }

    /// The parts of tool calls, one after the other.
    pub open spec fn after_tools(self, calls: Seq<ToolCallDeltaView>) -> (
        MachineView,
        Seq<EventView>,
    )
        decreases calls.len(),
    {
        if calls.len() == 0 {
            (self, Seq::empty())
        } else {
            let (before, events) = self.after_tools(calls.drop_last());
            let (after, more) = before.after_tool(calls.last());
            (after, events + more)
        }
    }

    /// Whether a change brings neither content nor a role.
    pub open spec fn is_usage_only(self, delta: ChatDeltaView) -> bool {
        &&& self.reasoning(delta) is None
        &&& delta.content.is_empty()
        &&& delta.tool_calls is None
        &&& delta.role is None
    }

    /// The state with the token counts of a usage object.
    pub open spec fn with_usage(self, usage: crate::openai::types::Usage) -> MachineView {
        MachineView {
            input_tokens: usage.prompt_tokens,
            cached_tokens: cache::nested_read(usage),
            raw_read_tokens: cache::raw_read(usage),
            ..self
        }
    }

    /// One streamed change: its counts where it brings nothing else; or its reasoning,
    /// its text and its tool calls in this order.
    pub open spec fn after_delta(
        self,
        delta: ChatDeltaView,
        usage: Option<crate::openai::types::Usage>,
    ) -> (MachineView, Seq<EventView>) {
        if self.is_usage_only(delta) {
            match usage {
                Some(u) => (self.with_usage(u), Seq::empty()),
                None => (self, Seq::empty()),
            }
        } else {
            let (thought, a) = self.after_reasoning(delta);
            let (spoken, b) = thought.after_text(delta);
            match delta.tool_calls {
                Some(calls) => {
                    let (called, c) = spoken.after_tools(calls);
                    (called, a + b + c)
                },
                None => (spoken, a + b),
            }
        }
    }

    /// Whether neither text nor a tool call went out.
    pub open spec fn is_silent(self) -> bool {
        !self.emitted_text && self.tools.len() == 0
    }

    /// The counts of the ending: those of the last usage object, or else those kept
    /// from an earlier one.
    pub open spec fn final_usage(
        self,
        output_tokens: Option<u32>,
        usage: Option<crate::openai::types::Usage>,
    ) -> StreamUsage {
        let (input, nested, raw) = match usage {
            Some(u) => (u.prompt_tokens, cache::nested_read(u), cache::raw_read(u)),
            None => (None, None, None),
        };
        let view = cache::usage_view(
            if input is Some {
                input
            } else {
                self.input_tokens
            },
            if nested is Some {
                nested
            } else {
                self.cached_tokens
            },
            if raw is Some {
                raw
            } else {
                self.raw_read_tokens
            },
            self.raw_usage,
        );
        StreamUsage {
            input_tokens: view.input,
            output_tokens,
            cache_read_input_tokens: view.read,
            cache_creation_input_tokens: view.creation,
        }
    }

    /// The end of a stream: every open block ends, then the message does. A silent
    /// stream ends with an error where the guard enforces that.
    pub open spec fn after_finish(
        self,
        reason: Option<Seq<char>>,
        output_tokens: Option<u32>,
        usage: Option<crate::openai::types::Usage>,
    ) -> (MachineView, Seq<EventView>) {
        if self.is_silent() && self.guard == EmptyTextGuard::Enforce {
            (self, seq![empty_error(reason, output_tokens, self.thinking)])
        } else {
            (
                MachineView { open: OpenBlock::Nothing, ..self },
                self.closing() + tool_stops(self.tools) + seq![
                    EventView::MessageDelta {
                        stop_reason: match reason {
                            Some(r) => Some(stop_reason_of(r)),
                            None => None,
                        },
                        stop_sequence: None,
                        usage: Some(self.final_usage(output_tokens, usage)),
                    },
                    EventView::MessageStop,
                ],
            )
        }
    }
}

/// The head of a streamed answer. Its counts are zeros, never null: clients read them.
pub open spec fn start_event(model: Seq<char>, msg_id: Seq<char>) -> EventView {
    EventView::MessageStart {
        id: msg_id,
        msg_type: "message"@,
        role: "assistant"@,
        content: Seq::empty(),
        model,
        usage: Some(
            StreamUsage {
                input_tokens: Some(0),
                output_tokens: Some(0),
                cache_read_input_tokens: Some(0),
                cache_creation_input_tokens: Some(0),
            },
        ),
    }
}

impl SseStateMachine {
    /// A stream that nothing was received of yet. The guard only warns.
    pub fn new(
        is_reasoning_model: bool,
        reasoning_field: String,
        reasoning_field_alt: Vec<String>,
        cache_policy: Option<CachePolicy>,
    ) -> (r: SseStateMachine)
        ensures
            r@ == MachineView::fresh(
                is_reasoning_model,
                reasoning_field@,
                text::texts(reasoning_field_alt@),
                cache_policy matches Some(policy) && policy.reports_raw(),
            ),
    {
        SseStateMachine {
            content_index: 0,
            open: OpenBlock::Nothing,
            tool_indices: Vec::new(),
            is_reasoning_model,
            emitted_text: false,
            empty_text_guard: EmptyTextGuard::Warn,
            reasoning_field,
            reasoning_field_alt,
            current_thinking: String::new(),
            input_tokens: None,
            cached_tokens: None,
            cache_policy,
            raw_read_tokens: None,
        }
    }

    /// Sets the guard of this stream.
    pub fn set_empty_text_guard(&mut self, guard: EmptyTextGuard)
        ensures
            final(self)@ == (MachineView { guard, ..old(self)@ }),
    {
        self.empty_text_guard = guard;
    }

    /// The guard of this stream.
    pub fn empty_text_guard(&self) -> (r: EmptyTextGuard)
        ensures
            r == self@.guard,
    {
        self.empty_text_guard
    }

    /// Whether neither text nor a tool call went out.
    pub fn is_silent(&self) -> (r: bool)
        ensures
            r == self@.is_silent(),
    {
        !self.emitted_text && self.tool_indices.len() == 0
    }

    /// Ends the open block.
    fn close_block(&mut self, events: &mut Vec<SseEvent>)
        ensures
            final(self)@ == old(self)@.closed(),
            types::events_view(final(events)@) == types::events_view(old(events)@) + old(
                self,
            )@.closing(),
    {
        let ghost before = types::events_view(events@);
        let index: u32 = self.content_index;
        match self.open {
            OpenBlock::Nothing => {},
            OpenBlock::Thinking => {
                emit(
                    events,
                    SseEvent::ContentBlockDelta {
                        index,
                        delta: ContentBlockDeltaData::SignatureDelta {
                            signature: "sig_proxy_placeholder".to_owned(),
                        },
                    },
                );
                emit(events, SseEvent::ContentBlockStop { index });
                self.content_index = index.wrapping_add(1);
            },
            OpenBlock::Text => {
                emit(events, SseEvent::ContentBlockStop { index });
                self.content_index = index.wrapping_add(1);
            },
        }
        self.open = OpenBlock::Nothing;
        assert(types::events_view(events@) =~= before + old(self)@.closing());
        assert(self@ =~= old(self)@.closed());
    }

    /// Handles the reasoning of a change.
    fn process_reasoning(&mut self, delta: &ChatDelta, events: &mut Vec<SseEvent>)
        ensures
            final(self)@ == old(self)@.after_reasoning(delta@).0,
            types::events_view(final(events)@) == types::events_view(old(events)@) + old(
                self,
            )@.after_reasoning(delta@).1,
    {
        let ghost before = types::events_view(events@);
        let words = delta.get_reasoning(
            self.reasoning_field.as_str(),
            &self.reasoning_field_alt,
        );
        match words {
            Some(words) => if self.is_reasoning_model {
                match self.open {
                    OpenBlock::Thinking => {},
                    _ => {
                        self.close_block(events);
                        emit(
                            events,
                            SseEvent::ContentBlockStart {
                                index: self.content_index,
                                content_block: ContentBlockStartData::Thinking {
                                    thinking: String::new(),
                                    signature: String::new(),
                                },
                            },
                        );
                        self.open = OpenBlock::Thinking;
                        self.current_thinking = String::new();
                    },
                }
                self.current_thinking.append(words);
                emit(
                    events,
                    SseEvent::ContentBlockDelta {
                        index: self.content_index,
                        delta: ContentBlockDeltaData::ThinkingDelta { thinking: words.to_owned() },
                    },
                );
            },
            None => {},
        }
        assert(types::events_view(events@) =~= before + old(self)@.after_reasoning(delta@).1);
        assert(self@ =~= old(self)@.after_reasoning(delta@).0);
    }

    /// Handles the text of a change.
    fn process_text(&mut self, delta: &ChatDelta, events: &mut Vec<SseEvent>)
        ensures
            final(self)@ == old(self)@.after_text(delta@).0,
            types::events_view(final(events)@) == types::events_view(old(events)@) + old(
                self,
            )@.after_text(delta@).1,
    {
        let ghost before = types::events_view(events@);
        match &delta.content.text {
            Some(words) => if words.as_str().unicode_len() > 0 {
                match self.open {
                    OpenBlock::Text => {},
                    _ => {
                        self.close_block(events);
                        emit(
                            events,
                            SseEvent::ContentBlockStart {
                                index: self.content_index,
                                content_block: ContentBlockStartData::Text { text: String::new() },
                            },
                        );
                        self.open = OpenBlock::Text;
                    },
                }
                if !blank(words.as_str()) {
                    self.emitted_text = true;
                }
                emit(
                    events,
                    SseEvent::ContentBlockDelta {
                        index: self.content_index,
                        delta: ContentBlockDeltaData::TextDelta { text: words.clone() },
                    },
                );
            },
            None => {},
        }
        assert(types::events_view(events@) =~= before + old(self)@.after_text(delta@).1);
        assert(self@ =~= old(self)@.after_text(delta@).0);
    }

    /// The block index of a tool call that is known by its upstream index.
    fn known_tool(&self, upstream: u32) -> (r: Option<u32>)
        ensures
            r == tool_index(self@.tools, upstream),
    {
        let mut i: usize = 0;
        assert(self.tool_indices@.skip(0) =~= self.tool_indices@);
        while i < self.tool_indices.len()
            invariant
                i <= self.tool_indices@.len(),
                tool_index(self.tool_indices@, upstream) == tool_index(
                    self.tool_indices@.skip(i as int),
                    upstream,
                ),
            decreases self.tool_indices@.len() - i,
        {
            assert(self.tool_indices@.skip(i as int).drop_first() =~= self.tool_indices@.skip(
                i + 1,
            ));
            if self.tool_indices[i].0 == upstream {
                return Some(self.tool_indices[i].1);
            }
            i = i + 1;
        }
        None
    }

    /// Handles one part of a tool call.
    fn process_tool(&mut self, call: &ToolCallDelta, events: &mut Vec<SseEvent>)
        ensures
            final(self)@ == old(self)@.after_tool(call@).0,
            types::events_view(final(events)@) == types::events_view(old(events)@) + old(
                self,
            )@.after_tool(call@).1,
    {
        let ghost before = types::events_view(events@);
        let upstream: u32 = match call.index {
            Some(n) => n,
            None => 0,
        };
        let index: u32 = match self.known_tool(upstream) {
            Some(index) => index,
            None => {
                self.close_block(events);
                let index: u32 = self.content_index;
                self.tool_indices.push((upstream, index));
                let id = match &call.id {
                    Some(id) => id.clone(),
                    None => "unknown_call".to_owned(),
                };
                let name = match &call.function {
                    Some(f) => match &f.name {
                        Some(name) => name.clone(),
                        None => "unknown_tool".to_owned(),
                    },
                    None => "unknown_tool".to_owned(),
                };
                emit(
                    events,
                    SseEvent::ContentBlockStart {
                        index,
                        content_block: ContentBlockStartData::ToolUse {
                            id,
                            name,
                            input: Json::object(),
                        },
                    },
                );
                self.content_index = index.wrapping_add(1);
                index
            },
        };
        match &call.function {
            Some(f) => match &f.arguments {
                Some(arguments) => {
                    emit(
                        events,
                        SseEvent::ContentBlockDelta {
                            index,
                            delta: ContentBlockDeltaData::InputJsonDelta {
                                partial_json: arguments.clone(),
                            },
                        },
                    );
                },
                None => {},
            },
            None => {},
        }
        assert(types::events_view(events@) =~= before + old(self)@.after_tool(call@).1);
        assert(self@ =~= old(self)@.after_tool(call@).0);
    }

    /// Handles the parts of tool calls.
    fn process_tools(&mut self, calls: &Vec<ToolCallDelta>, events: &mut Vec<SseEvent>)
        ensures
            final(self)@ == old(self)@.after_tools(
                crate::openai::types::tool_deltas_view(calls@),
            ).0,
            types::events_view(final(events)@) == types::events_view(old(events)@) + old(
                self,
            )@.after_tools(crate::openai::types::tool_deltas_view(calls@)).1,
    {
        let ghost before = types::events_view(events@);
        let ghost start = self@;
        let ghost all = crate::openai::types::tool_deltas_view(calls@);
        let mut i: usize = 0;
        assert(before + Seq::<EventView>::empty() =~= before);
        while i < calls.len()
            invariant
                i <= calls@.len(),
                all == crate::openai::types::tool_deltas_view(calls@),
                self@ == start.after_tools(all.take(i as int)).0,
                types::events_view(events@) == before + start.after_tools(all.take(i as int)).1,
            decreases calls@.len() - i,
        {
            self.process_tool(&calls[i], events);
            proof {
                assert(all.take(i + 1).drop_last() =~= all.take(i as int));
                assert(all.take(i + 1).last() == calls@[i as int]@);
                assert(types::events_view(events@) =~= before + start.after_tools(
                    all.take(i + 1),
                ).1);
            }
            i = i + 1;
        }
        assert(all.take(i as int) =~= all);
    }

    /// Turns one streamed change into events.
    pub fn process_delta(
        &mut self,
        delta: &ChatDelta,
        usage: Option<&crate::openai::types::Usage>,
    ) -> (events: Vec<SseEvent>)
        ensures
            final(self)@ == old(self)@.after_delta(delta@, opt_usage(usage)).0,
            types::events_view(events@) == old(self)@.after_delta(delta@, opt_usage(usage)).1,
    {
        let mut events: Vec<SseEvent> = Vec::new();
        assert(types::events_view(events@) =~= Seq::empty());
        let silent = match delta.get_reasoning(
            self.reasoning_field.as_str(),
            &self.reasoning_field_alt,
        ) {
            Some(_) => false,
            None => delta.content.is_empty() && delta.tool_calls.is_none() && delta.role.is_none(),
        };
        if silent {
            match usage {
                Some(usage) => {
                    self.input_tokens = usage.prompt_tokens;
                    self.cached_tokens = nested_cached_tokens(usage);
                    self.raw_read_tokens = from_chat_usage(usage).cache_read_tokens;
                },
                None => {},
            }
            return events;
        }
        self.process_reasoning(delta, &mut events);
        self.process_text(delta, &mut events);
        match &delta.tool_calls {
            Some(calls) => {
                self.process_tools(calls, &mut events);
            },
            None => {},
        }
        assert(types::events_view(events@) =~= old(self)@.after_delta(delta@, opt_usage(usage)).1);
        events
    }

    /// Ends the stream.
    pub fn finalize(
        &mut self,
        stop_reason: Option<&str>,
        output_tokens: Option<u32>,
        usage: Option<&crate::openai::types::Usage>,
    ) -> (events: Vec<SseEvent>)
        ensures
            final(self)@ == old(self)@.after_finish(
                text::opt_str(stop_reason),
                output_tokens,
                opt_usage(usage),
            ).0,
            types::events_view(events@) == old(self)@.after_finish(
                text::opt_str(stop_reason),
                output_tokens,
                opt_usage(usage),
            ).1,
    {
        let ghost start = self@;
        let mut events: Vec<SseEvent> = Vec::new();
        assert(types::events_view(events@) =~= Seq::empty());
        if !self.emitted_text && self.tool_indices.len() == 0 && self.empty_text_guard
            == EmptyTextGuard::Enforce {
            let error = self.empty_content_error(stop_reason, output_tokens);
            emit(&mut events, error);
            assert(types::events_view(events@) =~= seq![
                empty_error(text::opt_str(stop_reason), output_tokens, start.thinking),
            ]);
            return events;
        }
        let index: u32 = self.content_index;
        self.close_block(&mut events);
        self.content_index = index;
        let ghost closing = start.closing();
        assert(Seq::<EventView>::empty() + closing =~= closing);
        let mut i: usize = 0;
        while i < self.tool_indices.len()
            invariant
                i <= self.tool_indices@.len(),
                start.tools == self.tool_indices@,
                types::events_view(events@) == closing + tool_stops(start.tools).take(i as int),
            decreases self.tool_indices@.len() - i,
        {
            emit(&mut events, SseEvent::ContentBlockStop { index: self.tool_indices[i].1 });
            assert(types::events_view(events@) =~= closing + tool_stops(start.tools).take(i + 1));
            i = i + 1;
        }
        assert(tool_stops(start.tools).take(i as int) =~= tool_stops(start.tools));
        let mapped = match stop_reason {
            Some(reason) => Some(map_finish_reason(reason)),
            None => None,
        };
        let usage = self.ending_usage(output_tokens, usage);
        emit(
            &mut events,
            SseEvent::MessageDelta {
                delta: MessageDeltaData { stop_reason: mapped, stop_sequence: None },
                usage: Some(usage),
            },
        );
        emit(&mut events, SseEvent::MessageStop);
        events
    }

    /// The head of a streamed answer, which goes out first.
    pub fn message_start(&mut self, model: &str, msg_id: &str) -> (event: SseEvent)
        ensures
            final(self)@ == old(self)@,
            event@ == start_event(model@, msg_id@),
    {
        let content: Vec<Json> = Vec::new();
        assert(json::items_view(content@) =~= Seq::empty());
        SseEvent::MessageStart {
            message: MessageStartData {
                id: msg_id.to_owned(),
                msg_type: "message".to_owned(),
                role: "assistant".to_owned(),
                content,
                model: model.to_owned(),
                usage: Some(
                    StreamUsage {
                        input_tokens: Some(0),
                        output_tokens: Some(0),
                        cache_read_input_tokens: Some(0),
                        cache_creation_input_tokens: Some(0),
                    },
                ),
            },
        }
    }

    /// The counts of the ending.
    fn ending_usage(
        &self,
        output_tokens: Option<u32>,
        usage: Option<&crate::openai::types::Usage>,
    ) -> (r: StreamUsage)
        ensures
            r == self@.final_usage(output_tokens, opt_usage(usage)),
    {
        let (input, nested, raw) = match usage {
            Some(u) => (
                u.prompt_tokens,
                nested_cached_tokens(u),
                from_chat_usage(u).cache_read_tokens,
            ),
            None => (None, None, None),
        };
        let input_tokens = match input {
            Some(n) => Some(n),
            None => self.input_tokens,
        };
        let legacy_read = match nested {
            Some(n) => Some(n),
            None => self.cached_tokens,
        };
        let raw_read = match raw {
            Some(n) => Some(n),
            None => self.raw_read_tokens,
        };
        let view = chat_usage_view_from_buckets(
            input_tokens,
            legacy_read,
            raw_read,
            self.cache_policy.as_ref(),
        );
        StreamUsage {
            input_tokens: view.input,
            output_tokens,
            cache_read_input_tokens: view.read,
            cache_creation_input_tokens: view.creation,
        }
    }

    /// The error that stands in for an empty ending.
    fn empty_content_error(&self, stop_reason: Option<&str>, output_tokens: Option<u32>) -> (r:
        SseEvent)
        ensures
            r@ == empty_error(text::opt_str(stop_reason), output_tokens, self@.thinking),
    {
        let mut message = "upstream returned empty content (finish_reason=".to_owned();
        match stop_reason {
            Some(reason) => {
                message.append(reason);
            },
            None => {
                message.append("(none)");
            },
        }
        message.append(", output_tokens=");
        let tokens: u32 = match output_tokens {
            Some(n) => n,
            None => 0,
        };
        message.append(to_decimal(tokens as u64).as_str());
        message.append(", thinking_chars=");
        message.append(to_decimal(byte_length(self.current_thinking.as_str()) as u64).as_str());
        message.append(")");
        SseEvent::Error {
            error: ErrorData { error_type: "stream_error".to_owned(), message },
        }
    }
}

/// The usage object behind an optional reference.
pub open spec fn opt_usage(usage: Option<&crate::openai::types::Usage>) -> Option<
    crate::openai::types::Usage,
> {
    match usage {
        Some(u) => Some(*u),
        None => None,
    }
}

} // verus!
