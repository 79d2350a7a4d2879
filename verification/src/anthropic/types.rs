//! The Anthropic Messages wire: requests, responses and stream events.

use crate::json::{self, Json, JsonView};
use crate::text::{self, same};
use vstd::prelude::*;
use vstd::string::*;

verus! {

/// A request for a message.
#[derive(Debug, Clone)]
pub struct MessagesRequest {
    pub model: String,
    pub system: Option<SystemPrompt>,
    pub messages: Vec<Message>,
    pub max_tokens: u32,
    pub stream: Option<bool>,
    pub thinking: Option<ThinkingConfig>,
    pub tools: Option<Vec<Tool>>,
    pub tool_choice: Option<ToolChoice>,
    pub metadata: Option<Metadata>,
    pub stop_sequences: Option<Vec<String>>,
    pub top_k: Option<u32>,
    /// The client's output settings. Only the string under `effort` is read, and the
    /// object is never forwarded.
    pub output_config: Option<Json>,
}

/// The system prompt of a request.
#[derive(Debug, PartialEq, Eq)]
pub enum SystemPrompt {
    Text(String),
    Blocks(Vec<SystemContentBlock>),
}

/// One block of a system prompt.
#[derive(Debug, Clone, PartialEq, Eq)]
pub struct SystemContentBlock {
    pub block_type: String,
    pub text: String,
}

/// One message of the conversation.
#[derive(Debug, Clone, PartialEq, Eq)]
pub struct Message {
    pub role: String,
    pub content: ContentValue,
}

/// Message content as it was found: a text, a list of blocks, or anything else.
#[derive(Debug, Clone, PartialEq, Eq)]
pub enum ContentValueInner {
    Text(String),
    Blocks(Vec<ContentBlock>),
    Raw(Json),
}

/// Message content.
#[derive(Debug, Clone, PartialEq, Eq)]
pub enum ContentValue {
    Text(String),
    Blocks(Vec<ContentBlock>),
    /// No content, as in assistant messages with tool calls only.
    Null,
}

/// One block of message content.
#[derive(Debug, Clone, PartialEq, Eq)]
pub enum ContentBlock {
    Text { text: String },
    Thinking { thinking: String, signature: String },
    RedactedThinking { data: String },
    ToolUse { id: String, name: String, input: Json },
    ToolResult { tool_use_id: String, content: ToolResultContent, is_error: Option<bool> },
    Image { source: ImageSource },
    /// A block of a type that is not known here.
    Unknown,
}

/// What a tool gave back.
#[derive(Debug, Clone, PartialEq, Eq)]
pub enum ToolResultContent {
    Text(String),
    Blocks(Vec<ToolResultContentBlock>),
}

/// One block of what a tool gave back.
#[derive(Debug, Clone, PartialEq, Eq)]
pub enum ToolResultContentBlock {
    Text { text: String },
    Image { source: ImageSource },
    /// A block of a type that is not known here.
    Unknown,
}

/// Where an image comes from.
#[derive(Debug, Clone, PartialEq, Eq)]
pub struct ImageSource {
    pub source_type: String,
    pub media_type: String,
    pub data: String,
}

/// The thinking setting of a request.
///
/// Which variant a setting is read into says nothing: a parser that tries the
/// variants in turn reads every setting into the first one. The type string counts.
#[derive(Debug, Clone)]
pub enum ThinkingConfig {
    Enabled { config_type: String, budget_tokens: Option<u32>, display: Option<String> },
    Disabled { config_type: String },
    Adaptive { config_type: String, display: Option<String> },
}

/// A tool that the client offers.
#[derive(Debug, Clone)]
pub struct Tool {
    pub name: String,
    pub description: Option<String>,
    pub input_schema: Json,
}

/// Which tool the model is to use.
#[derive(Debug, Clone)]
pub enum ToolChoice {
    Auto { choice_type: String },
    Any { choice_type: String },
    Tool { choice_type: String, name: String },
}

/// Facts about the request.
#[derive(Debug, Clone)]
pub struct Metadata {
    /// A stable identifier of the session, the source of the prompt cache key.
    pub user_id: Option<String>,
}

/// What a system prompt says.
pub enum SystemView {
    Text(Seq<char>),
    /// Type and text of each block.
    Blocks(Seq<(Seq<char>, Seq<char>)>),
}

/// What the blocks of a system prompt say.
pub open spec fn system_blocks_view(blocks: Seq<SystemContentBlock>) -> Seq<
    (Seq<char>, Seq<char>),
> {
    Seq::new(blocks.len(), |i: int| (blocks[i].block_type@, blocks[i].text@))
}

impl View for SystemPrompt {
    type V = SystemView;

    open spec fn view(&self) -> SystemView {
        match self {
            SystemPrompt::Text(text) => SystemView::Text(text@),
            SystemPrompt::Blocks(blocks) => SystemView::Blocks(system_blocks_view(blocks@)),
        }
    }
}

impl Clone for SystemPrompt {
    fn clone(&self) -> (r: SystemPrompt)
        ensures
            r@ == self@,
    {
        match self {
            SystemPrompt::Text(text) => SystemPrompt::Text(text.clone()),
            SystemPrompt::Blocks(blocks) => {
                let mut out: Vec<SystemContentBlock> = Vec::new();
                let mut i: usize = 0;
                while i < blocks.len()
                    invariant
                        i <= blocks@.len(),
                        out@.len() == i,
                        forall|j: int|
                            0 <= j < i ==> (#[trigger] out@[j]).block_type@
                                == blocks@[j].block_type@ && out@[j].text@ == blocks@[j].text@,
                    decreases blocks@.len() - i,
                {
                    out.push(
                        SystemContentBlock {
                            block_type: blocks[i].block_type.clone(),
                            text: blocks[i].text.clone(),
                        },
                    );
                    i = i + 1;
                }
                assert(system_blocks_view(out@) =~= system_blocks_view(blocks@));
                SystemPrompt::Blocks(out)
            },
        }
    }
}

impl ContentValue {
    /// Content of an unknown form counts as none.
    pub fn from_inner(inner: ContentValueInner) -> (r: ContentValue)
        ensures
            r == match inner {
                ContentValueInner::Text(text) => ContentValue::Text(text),
                ContentValueInner::Blocks(blocks) => ContentValue::Blocks(blocks),
                ContentValueInner::Raw(_) => ContentValue::Null,
            },
    {
        match inner {
            ContentValueInner::Text(text) => ContentValue::Text(text),
            ContentValueInner::Blocks(blocks) => ContentValue::Blocks(blocks),
            ContentValueInner::Raw(_) => ContentValue::Null,
        }
    }
}

impl ThinkingConfig {
    /// The type string of the setting.
    pub open spec fn kind(self) -> Seq<char> {
        match self {
            ThinkingConfig::Enabled { config_type, .. } => config_type@,
            ThinkingConfig::Disabled { config_type } => config_type@,
            ThinkingConfig::Adaptive { config_type, .. } => config_type@,
        }
    }

    /// Whether thinking is on.
    pub open spec fn enabled(self) -> bool {
        self.kind() == "enabled"@ || self.kind() == "adaptive"@
    }

    /// The token budget of a setting of type `enabled`.
    pub open spec fn budget(self) -> Option<u32> {
        match self {
            ThinkingConfig::Enabled { config_type, budget_tokens, .. } => if config_type@
                == "enabled"@ {
                budget_tokens
            } else {
                None
            },
            _ => None,
        }
    }

    /// Whether thinking is on, by the type string.
    pub fn is_enabled(&self) -> (r: bool)
        ensures
            r == self.enabled(),
    {
        same(self.type_str(), "enabled") || same(self.type_str(), "adaptive")
    }

    /// The type string of the setting, the same in all variants.
    pub fn type_str(&self) -> (r: &str)
        ensures
            r@ == self.kind(),
    {
        match self {
            ThinkingConfig::Enabled { config_type, .. } => config_type.as_str(),
            ThinkingConfig::Disabled { config_type } => config_type.as_str(),
            ThinkingConfig::Adaptive { config_type, .. } => config_type.as_str(),
        }
    }

    /// The token budget of a setting of type `enabled`.
    pub fn budget_tokens(&self) -> (r: Option<u32>)
        ensures
            r == self.budget(),
    {
        match self {
            ThinkingConfig::Enabled { config_type, budget_tokens, .. } => if same(
                config_type.as_str(),
                "enabled",
            ) {
                *budget_tokens
            } else {
                None
            },
            _ => None,
        }
    }
}

/// Whether thinking is on depends on the type string alone, and a setting of type
/// `disabled` is off and has no budget, whichever variant holds it.
pub proof fn law_type_string_decides(a: ThinkingConfig, b: ThinkingConfig)
    requires
        a.kind() == b.kind(),
    ensures
        a.enabled() == b.enabled(),
        a.kind() == "disabled"@ ==> !a.enabled() && a.budget() is None,
{
    reveal_strlit("disabled");
    reveal_strlit("enabled");
    reveal_strlit("adaptive");
    assert("disabled"@[0] != "enabled"@[0]);
    assert("disabled"@[0] != "adaptive"@[0]);
}

/// A whole message in answer to a request.
#[derive(Debug, Clone)]
pub struct MessagesResponse {
    pub id: String,
    pub response_type: String,
    pub role: String,
    pub content: Vec<ResponseContentBlock>,
    pub model: String,
    pub stop_reason: Option<String>,
    pub stop_sequence: Option<String>,
    pub usage: Usage,
}

/// One block of an answer.
#[derive(Debug, Clone)]
pub enum ResponseContentBlock {
    Thinking { thinking: String, signature: String },
    Text { text: String },
    ToolUse { id: String, name: String, input: Json },
}

/// The token counts of an answer.
#[derive(Debug, Clone, Copy, PartialEq, Eq, Structural)]
pub struct Usage {
    pub input_tokens: u32,
    pub output_tokens: u32,
    pub cache_read_input_tokens: Option<u32>,
    pub cache_creation_input_tokens: Option<u32>,
}

/// One event of a streamed answer.
#[derive(Debug, Clone)]
pub enum SseEvent {
    MessageStart { message: MessageStartData },
    ContentBlockStart { index: u32, content_block: ContentBlockStartData },
    ContentBlockDelta { index: u32, delta: ContentBlockDeltaData },
    ContentBlockStop { index: u32 },
    MessageDelta { delta: MessageDeltaData, usage: Option<StreamUsage> },
    MessageStop,
    Error { error: ErrorData },
}

/// What went wrong with a stream.
#[derive(Debug, Clone)]
pub struct ErrorData {
    pub error_type: String,
    pub message: String,
}

/// The head of a streamed answer.
#[derive(Debug, Clone)]
pub struct MessageStartData {
    pub id: String,
    pub msg_type: String,
    pub role: String,
    pub content: Vec<Json>,
    pub model: String,
    pub usage: Option<StreamUsage>,
}

/// The head of a streamed block.
#[derive(Debug, Clone)]
pub enum ContentBlockStartData {
    Thinking { thinking: String, signature: String },
    Text { text: String },
    ToolUse { id: String, name: String, input: Json },
}

/// One piece of a streamed block.
#[derive(Debug, Clone)]
pub enum ContentBlockDeltaData {
    ThinkingDelta { thinking: String },
    TextDelta { text: String },
    InputJsonDelta { partial_json: String },
    SignatureDelta { signature: String },
}

/// How a streamed answer ended.
#[derive(Debug, Clone)]
pub struct MessageDeltaData {
    pub stop_reason: Option<String>,
    pub stop_sequence: Option<String>,
}

/// The token counts of a streamed answer.
#[derive(Debug, Clone, Copy, PartialEq, Eq, Structural)]
pub struct StreamUsage {
    pub input_tokens: Option<u32>,
    pub output_tokens: Option<u32>,
    pub cache_read_input_tokens: Option<u32>,
    pub cache_creation_input_tokens: Option<u32>,
}

/// What one block of an answer, or the head of a streamed one, says.
pub enum BlockView {
    Thinking { thinking: Seq<char>, signature: Seq<char> },
    Text { text: Seq<char> },
    ToolUse { id: Seq<char>, name: Seq<char>, input: JsonView },
}

/// What one piece of a streamed block says.
pub enum PieceView {
    Thinking(Seq<char>),
    Text(Seq<char>),
    InputJson(Seq<char>),
    Signature(Seq<char>),
}

/// What one event of a streamed answer says.
#[verifier::ext_equal]
pub enum EventView {
    MessageStart {
        id: Seq<char>,
        msg_type: Seq<char>,
        role: Seq<char>,
        content: Seq<JsonView>,
        model: Seq<char>,
        usage: Option<StreamUsage>,
    },
    BlockStart { index: u32, block: BlockView },
    BlockDelta { index: u32, piece: PieceView },
    BlockStop { index: u32 },
    MessageDelta {
        stop_reason: Option<Seq<char>>,
        stop_sequence: Option<Seq<char>>,
        usage: Option<StreamUsage>,
    },
    MessageStop,
    Error { error_type: Seq<char>, message: Seq<char> },
}

/// What a whole answer says.
#[verifier::ext_equal]
pub struct ResponseView {
    pub id: Seq<char>,
    pub response_type: Seq<char>,
    pub role: Seq<char>,
    pub content: Seq<BlockView>,
    pub model: Seq<char>,
    pub stop_reason: Option<Seq<char>>,
    pub stop_sequence: Option<Seq<char>>,
    pub usage: Usage,
}

impl View for ResponseContentBlock {
    type V = BlockView;

    open spec fn view(&self) -> BlockView {
        match self {
            ResponseContentBlock::Thinking { thinking, signature } => BlockView::Thinking {
                thinking: thinking@,
                signature: signature@,
            },
            ResponseContentBlock::Text { text } => BlockView::Text { text: text@ },
            ResponseContentBlock::ToolUse { id, name, input } => BlockView::ToolUse {
                id: id@,
                name: name@,
                input: input@,
            },
        }
    }
}

impl View for ContentBlockStartData {
    type V = BlockView;

    open spec fn view(&self) -> BlockView {
        match self {
            ContentBlockStartData::Thinking { thinking, signature } => BlockView::Thinking {
                thinking: thinking@,
                signature: signature@,
            },
            ContentBlockStartData::Text { text } => BlockView::Text { text: text@ },
            ContentBlockStartData::ToolUse { id, name, input } => BlockView::ToolUse {
                id: id@,
                name: name@,
                input: input@,
            },
        }
    }
}

impl View for ContentBlockDeltaData {
    type V = PieceView;

    open spec fn view(&self) -> PieceView {
        match self {
            ContentBlockDeltaData::ThinkingDelta { thinking } => PieceView::Thinking(thinking@),
            ContentBlockDeltaData::TextDelta { text } => PieceView::Text(text@),
            ContentBlockDeltaData::InputJsonDelta { partial_json } => PieceView::InputJson(
                partial_json@,
            ),
            ContentBlockDeltaData::SignatureDelta { signature } => PieceView::Signature(signature@),
        }
    }
}

impl View for SseEvent {
    type V = EventView;

    open spec fn view(&self) -> EventView {
        match self {
            SseEvent::MessageStart { message } => EventView::MessageStart {
                id: message.id@,
                msg_type: message.msg_type@,
                role: message.role@,
                content: json::items_view(message.content@),
                model: message.model@,
                usage: message.usage,
            },
            SseEvent::ContentBlockStart { index, content_block } => EventView::BlockStart {
                index: *index,
                block: content_block@,
            },
            SseEvent::ContentBlockDelta { index, delta } => EventView::BlockDelta {
                index: *index,
                piece: delta@,
            },
            SseEvent::ContentBlockStop { index } => EventView::BlockStop { index: *index },
            SseEvent::MessageDelta { delta, usage } => EventView::MessageDelta {
                stop_reason: text::opt_text(delta.stop_reason),
                stop_sequence: text::opt_text(delta.stop_sequence),
                usage: *usage,
            },
            SseEvent::MessageStop => EventView::MessageStop,
            SseEvent::Error { error } => EventView::Error {
                error_type: error.error_type@,
                message: error.message@,
            },
        }
    }
}

/// What a list of events says.
pub open spec fn events_view(events: Seq<SseEvent>) -> Seq<EventView> {
    Seq::new(events.len(), |i: int| events[i]@)
}

/// What a list of blocks says.
pub open spec fn blocks_view(blocks: Seq<ResponseContentBlock>) -> Seq<BlockView> {
    Seq::new(blocks.len(), |i: int| blocks[i]@)
}

impl View for MessagesResponse {
    type V = ResponseView;

    open spec fn view(&self) -> ResponseView {
        ResponseView {
            id: self.id@,
            response_type: self.response_type@,
            role: self.role@,
            content: blocks_view(self.content@),
            model: self.model@,
            stop_reason: text::opt_text(self.stop_reason),
            stop_sequence: text::opt_text(self.stop_sequence),
            usage: self.usage,
        }
    }
}

impl EventView {
    /// The name of the event on the wire.
    pub open spec fn name(self) -> Seq<char> {
        match self {
            EventView::MessageStart { .. } => "message_start"@,
            EventView::BlockStart { .. } => "content_block_start"@,
            EventView::BlockDelta { .. } => "content_block_delta"@,
            EventView::BlockStop { .. } => "content_block_stop"@,
            EventView::MessageDelta { .. } => "message_delta"@,
            EventView::MessageStop => "message_stop"@,
            EventView::Error { .. } => "error"@,
        }
    }
}

impl SseEvent {
    /// The name of the event on the wire.
    pub fn event_name(&self) -> (r: &'static str)
        ensures
            r@ == self@.name(),
    {
        match self {
            SseEvent::MessageStart { .. } => "message_start",
            SseEvent::ContentBlockStart { .. } => "content_block_start",
            SseEvent::ContentBlockDelta { .. } => "content_block_delta",
            SseEvent::ContentBlockStop { .. } => "content_block_stop",
            SseEvent::MessageDelta { .. } => "message_delta",
            SseEvent::MessageStop => "message_stop",
            SseEvent::Error { .. } => "error",
        }
    }
}

/// Adds an event to a list.
pub(crate) fn emit(events: &mut Vec<SseEvent>, event: SseEvent)
    ensures
        events_view(final(events)@) == events_view(old(events)@).push(event@),
{
    let ghost before = events@;
    events.push(event);
    assert(events_view(events@) =~= events_view(before).push(event@));
}

} // verus!
