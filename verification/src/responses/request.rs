//! From Anthropic requests to Responses requests.
//!
//! The input of a request is the stored history, item by item, and behind it at most
//! one item with what was moved out of the system prompt. That item can change from
//! request to request without touching the history before it.

use crate::anthropic::converter::{
    self, inbound_effort, map_model_to_upstream_for_responses, system_to_relocate,
};
use crate::anthropic::types::{
    ContentBlock, ContentValue, ImageSource, Message, MessagesRequest, SystemPrompt, SystemView,
    Tool, ToolChoice, ToolResultContent, ToolResultContentBlock,
};
use crate::config::Config;
use crate::conversation::{self, build_conversation, sort_by_name, AssistantPart, Turn};
use crate::ids::{self, new_request_id};
use crate::json::{self, Json, JsonView};
use crate::openai::types::ToolView;
use crate::reasoning::apply_effort::{self, resolve_effort};
use crate::responses::types::{
    self, ReasoningConfig, ReasoningView, ResponsesRequest, ResponsesTool, ResponsesView,
};
use crate::text::{self, clone_text, push_joined, same, to_ascii_lowercase};
use vstd::prelude::*;
use vstd::string::*;

verus! {

/// Why a request cannot be converted.
#[derive(Debug, Clone, Copy, PartialEq, Eq, Structural)]
pub enum ConvertError {
    /// The token limit is below what the API takes.
    MaxTokens,
}

impl ConvertError {
    /// What is wrong, in words.
    pub open spec fn text(self) -> Seq<char> {
        match self {
            ConvertError::MaxTokens => "max_tokens must be at least 16 for Responses API"@,
        }
    }

    /// What is wrong, in words.
    pub fn message(&self) -> (r: &'static str)
        ensures
            r@ == self.text(),
    {
        match self {
            ConvertError::MaxTokens => "max_tokens must be at least 16 for Responses API",
        }
    }
}

/// The type of text content in a message of a role.
pub open spec fn text_kind(role: Seq<char>) -> Seq<char> {
    if role == "assistant"@ {
        "output_text"@
    } else {
        "input_text"@
    }
}

/// The type of text content in a message of a role.
pub fn text_content_type(role: &str) -> (r: &'static str)
    ensures
        r@ == text_kind(role@),
{
    if same(role, "assistant") {
        "output_text"
    } else {
        "input_text"
    }
}

/// A piece of text content.
pub open spec fn text_item(kind: Seq<char>, text: Seq<char>) -> JsonView {
    JsonView::Object(
        Map::empty().insert("type"@, JsonView::String(kind)).insert("text"@, JsonView::String(text)),
    )
}

/// The address of an image with its data in it.
pub open spec fn image_url(source: ImageSource) -> Seq<char> {
    "data:"@ + source.media_type@ + ";base64,"@ + source.data@
}

/// A piece of image content.
pub open spec fn image_item(source: ImageSource) -> JsonView {
    JsonView::Object(
        Map::empty().insert("type"@, JsonView::String("input_image"@)).insert(
            "image_url"@,
            JsonView::String(image_url(source)),
        ),
    )
}

/// A message.
pub open spec fn message_item(role: Seq<char>, content: Seq<JsonView>) -> JsonView {
    JsonView::Object(
        Map::empty().insert("role"@, JsonView::String(role)).insert(
            "content"@,
            JsonView::Array(content),
        ),
    )
}

/// A tool call.
pub open spec fn call_item(id: Seq<char>, name: Seq<char>, arguments: Seq<char>) -> JsonView {
    JsonView::Object(
        Map::empty().insert("type"@, JsonView::String("function_call"@)).insert(
            "call_id"@,
            JsonView::String(id),
        ).insert("name"@, JsonView::String(name)).insert("arguments"@, JsonView::String(arguments)),
    )
}

/// What a tool gave back.
pub open spec fn output_item(id: Seq<char>, output: Seq<char>) -> JsonView {
    JsonView::Object(
        Map::empty().insert("type"@, JsonView::String("function_call_output"@)).insert(
            "call_id"@,
            JsonView::String(id),
        ).insert("output"@, JsonView::String(output)),
    )
}

/// The texts of the text blocks of a tool result.
pub open spec fn result_texts(blocks: Seq<ToolResultContentBlock>) -> Seq<Seq<char>>
    decreases blocks.len(),
{
    if blocks.len() == 0 {
        Seq::empty()
    } else {
        let front = result_texts(blocks.drop_last());
        match blocks.last() {
            ToolResultContentBlock::Text { text } => front.push(text@),
            _ => front,
        }
    }
}

/// The text of a tool result: its text blocks, one per line.
pub open spec fn result_text(content: ToolResultContent) -> Seq<char> {
    match content {
        ToolResultContent::Text(text) => text@,
        ToolResultContent::Blocks(blocks) => text::joined(result_texts(blocks@), "\n"@),
    }
}

/// The text of a tool result.
pub fn tool_result_text(content: &ToolResultContent) -> (r: String)
    ensures
        r@ == result_text(*content),
{
    match content {
        ToolResultContent::Text(text) => text.clone(),
        ToolResultContent::Blocks(blocks) => {
            let mut out = String::new();
            let mut count: usize = 0;
            let mut i: usize = 0;
            assert(out@ =~= text::joined(result_texts(blocks@.take(0)), "\n"@));
            while i < blocks.len()
                invariant
                    i <= blocks@.len(),
                    count <= i,
                    count == result_texts(blocks@.take(i as int)).len(),
                    out@ == text::joined(result_texts(blocks@.take(i as int)), "\n"@),
                decreases blocks@.len() - i,
            {
                let ghost front = result_texts(blocks@.take(i as int));
                assert(blocks@.take(i + 1).drop_last() =~= blocks@.take(i as int));
                match &blocks[i] {
                    ToolResultContentBlock::Text { text } => {
                        push_joined(&mut out, text.as_str(), "\n", count, Ghost(front));
                        count = count + 1;
                    },
                    _ => {},
                }
                i = i + 1;
            }
            assert(blocks@.take(i as int) =~= blocks@);
            out
        },
    }
}

/// What a block of content becomes.
pub enum PieceView {
    /// Nothing.
    Skipped,
    /// A piece of the content of a message.
    Content(JsonView),
    /// An item of its own.
    Item(JsonView),
}

/// What a tool call becomes. Its input is written as JSON.
pub open spec fn call_piece(id: Seq<char>, name: Seq<char>, input: JsonView) -> PieceView {
    PieceView::Item(call_item(id, name, json::json_text(input)))
}

/// What a block becomes in a message of a role. Reasoning and unknown blocks are left
/// out.
pub open spec fn block_piece(role: Seq<char>, block: ContentBlock) -> PieceView {
    match block {
        ContentBlock::Text { text } => PieceView::Content(text_item(text_kind(role), text@)),
        ContentBlock::Image { source } => PieceView::Content(image_item(source)),
        ContentBlock::ToolUse { id, name, input } => call_piece(id@, name@, input@),
        ContentBlock::ToolResult { tool_use_id, content, .. } => PieceView::Item(
            output_item(tool_use_id@, result_text(content)),
        ),
        _ => PieceView::Skipped,
    }
}

/// What the blocks of a message of a role become.
pub open spec fn block_pieces(role: Seq<char>, blocks: Seq<ContentBlock>) -> Seq<PieceView> {
    Seq::new(blocks.len(), |i: int| block_piece(role, blocks[i]))
}

/// Items, and content that waits to become a message.
#[verifier::ext_equal]
pub struct Encoding {
    pub items: Seq<JsonView>,
    pub waiting: Seq<JsonView>,
}

/// The items once the waiting content has become a message.
pub open spec fn flushed(role: Seq<char>, encoding: Encoding) -> Seq<JsonView> {
    if encoding.waiting.len() == 0 {
        encoding.items
    } else {
        encoding.items.push(message_item(role, encoding.waiting))
    }
}

/// One piece more. Content waits; an item comes behind a message with all the content
/// before it.
pub open spec fn encoding_piece(
    role: Seq<char>,
    encoding: Encoding,
    piece: PieceView,
) -> Encoding {
    match piece {
        PieceView::Skipped => encoding,
        PieceView::Content(content) => Encoding {
            items: encoding.items,
            waiting: encoding.waiting.push(content),
        },
        PieceView::Item(item) => Encoding {
            items: flushed(role, encoding).push(item),
            waiting: Seq::empty(),
        },
    }
}

/// Pieces, one after the other.
pub open spec fn encoding(role: Seq<char>, pieces: Seq<PieceView>) -> Encoding
    decreases pieces.len(),
{
    if pieces.len() == 0 {
        Encoding { items: Seq::empty(), waiting: Seq::empty() }
    } else {
        encoding_piece(role, encoding(role, pieces.drop_last()), pieces.last())
    }
}

/// The items of a message of a role.
pub open spec fn content_items(role: Seq<char>, content: ContentValue) -> Seq<JsonView> {
    match content {
        ContentValue::Text(text) => seq![
            message_item(role, seq![text_item(text_kind(role), text@)]),
        ],
        ContentValue::Null => Seq::empty(),
        ContentValue::Blocks(blocks) => flushed(role, encoding(role, block_pieces(role, blocks@))),
    }
}

/// The items of stored history, message by message.
pub open spec fn history_items(messages: Seq<Message>) -> Seq<JsonView>
    decreases messages.len(),
{
    if messages.len() == 0 {
        Seq::empty()
    } else {
        history_items(messages.drop_last()) + content_items(
            messages.last().role@,
            messages.last().content,
        )
    }
}

/// What a block of content becomes.
enum Piece {
    Skipped,
    Content(Json),
    Item(Json),
}

impl Piece {
    spec fn view(self) -> PieceView {
        match self {
            Piece::Skipped => PieceView::Skipped,
            Piece::Content(content) => PieceView::Content(content@),
            Piece::Item(item) => PieceView::Item(item@),
        }
    }
}

/// A piece of text content.
fn build_text_item(kind: &str, text: &str) -> (r: Json)
    ensures
        r@ == text_item(kind@, text@),
{
    Json::object().with("type", Json::string(kind)).with("text", Json::string(text))
}

/// A piece of image content.
fn build_image_item(source: &ImageSource) -> (r: Json)
    ensures
        r@ == image_item(*source),
{
    let mut url = "data:".to_owned();
    url.append(source.media_type.as_str());
    url.append(";base64,");
    url.append(source.data.as_str());
    Json::object().with("type", Json::string("input_image")).with("image_url", Json::String(url))
}

/// A message.
fn build_message_item(role: &str, content: Vec<Json>) -> (r: Json)
    ensures
        r@ == message_item(role@, json::items_view(content@)),
{
    Json::object().with("role", Json::string(role)).with("content", Json::Array(content))
}

/// A tool call.
fn build_call(id: &str, name: &str, input: &Json) -> (r: Piece)
    ensures
        r@ == call_piece(id@, name@, input@),
{
    Piece::Item(
        Json::object().with("type", Json::string("function_call")).with(
            "call_id",
            Json::string(id),
        ).with("name", Json::string(name)).with("arguments", Json::String(input.to_text())),
    )
}

/// What a tool gave back.
fn build_output(id: &str, content: &ToolResultContent) -> (r: Piece)
    ensures
        r@ == PieceView::Item(output_item(id@, result_text(*content))),
{
    Piece::Item(
        Json::object().with("type", Json::string("function_call_output")).with(
            "call_id",
            Json::string(id),
        ).with("output", Json::String(tool_result_text(content))),
    )
}

/// What a block becomes in a message of a role.
fn build_block_piece(role: &str, block: &ContentBlock) -> (r: Piece)
    ensures
        r@ == block_piece(role@, *block),
{
    match block {
        ContentBlock::Text { text } => Piece::Content(
            build_text_item(text_content_type(role), text.as_str()),
        ),
        ContentBlock::Image { source } => Piece::Content(build_image_item(source)),
        ContentBlock::ToolUse { id, name, input } => build_call(id.as_str(), name.as_str(), input),
        ContentBlock::ToolResult { tool_use_id, content, .. } => build_output(
            tool_use_id.as_str(),
            content,
        ),
        _ => Piece::Skipped,
    }
}

/// What an assistant part becomes.
pub open spec fn part_piece(part: AssistantPart) -> PieceView {
    match part {
        AssistantPart::Reasoning(_) => PieceView::Skipped,
        AssistantPart::Text(text) => PieceView::Content(text_item("output_text"@, text@)),
        AssistantPart::Image { source } => PieceView::Content(image_item(*source)),
        AssistantPart::ToolCall { id, name, input } => call_piece(id@, name@, input@),
        AssistantPart::ToolResult { tool_use_id, content } => PieceView::Item(
            output_item(tool_use_id@, result_text(*content)),
        ),
    }
}

/// What assistant parts become.
pub open spec fn part_pieces(parts: Seq<AssistantPart>) -> Seq<PieceView> {
    Seq::new(parts.len(), |i: int| part_piece(parts[i]))
}

/// The items of assistant parts.
pub open spec fn part_items(parts: Seq<AssistantPart>) -> Seq<JsonView> {
    flushed("assistant"@, encoding("assistant"@, part_pieces(parts)))
}

/// What an assistant part becomes.
fn build_part_piece(part: &AssistantPart) -> (r: Piece)
    ensures
        r@ == part_piece(*part),
{
    match part {
        AssistantPart::Reasoning(_) => Piece::Skipped,
        AssistantPart::Text(text) => Piece::Content(build_text_item("output_text", text)),
        AssistantPart::Image { source } => Piece::Content(build_image_item(source)),
        AssistantPart::ToolCall { id, name, input } => build_call(id, name, input),
        AssistantPart::ToolResult { tool_use_id, content } => build_output(tool_use_id, content),
    }
}

/// The encoding that is under way behind items that were there before.
spec fn under_way(start: Seq<JsonView>, input: Seq<Json>, waiting: Seq<Json>, e: Encoding) -> bool {
    &&& json::items_view(input) == start + e.items
    &&& json::items_view(waiting) == e.waiting
}

/// Adds an item to a list.
fn push_item(input: &mut Vec<Json>, item: Json)
    ensures
        json::items_view(final(input)@) == json::items_view(old(input)@).push(item@),
{
    let ghost before = input@;
    input.push(item);
    assert(json::items_view(input@) =~= json::items_view(before).push(item@));
}

/// Makes a message of the waiting content.
fn flush(input: &mut Vec<Json>, waiting: &mut Vec<Json>, role: &str)
    ensures
        final(waiting)@.len() == 0,
        json::items_view(final(input)@) == flushed(
            role@,
            (Encoding {
                items: json::items_view(old(input)@),
                waiting: json::items_view(old(waiting)@),
            }),
        ),
{
    if waiting.len() > 0 {
        let mut content: Vec<Json> = Vec::new();
        std::mem::swap(&mut content, waiting);
        push_item(input, build_message_item(role, content));
    }
}

/// Handles one piece.
fn push_piece(
    input: &mut Vec<Json>,
    waiting: &mut Vec<Json>,
    role: &str,
    piece: Piece,
    start: Ghost<Seq<JsonView>>,
    e: Ghost<Encoding>,
)
    requires
        under_way(start@, old(input)@, old(waiting)@, e@),
    ensures
        under_way(
            start@,
            final(input)@,
            final(waiting)@,
            encoding_piece(role@, e@, piece@),
        ),
{
    let ghost after = encoding_piece(role@, e@, piece@);
    match piece {
        Piece::Skipped => {},
        Piece::Content(content) => {
            push_item(waiting, content);
        },
        Piece::Item(item) => {
            flush(input, waiting, role);
            push_item(input, item);
            proof {
                assert(json::items_view(input@) =~= start@ + after.items);
                assert(json::items_view(waiting@) =~= Seq::empty());
            }
        },
    }
}

/// Appends the items of a message of a role.
pub fn append_content_value(input: &mut Vec<Json>, role: &str, content: &ContentValue)
    ensures
        json::items_view(final(input)@) == json::items_view(old(input)@) + content_items(
            role@,
            *content,
        ),
{
    let ghost start = json::items_view(input@);
    match content {
        ContentValue::Text(text) => {
            let mut piece: Vec<Json> = Vec::new();
            push_item(&mut piece, build_text_item(text_content_type(role), text.as_str()));
            assert(json::items_view(piece@) =~= seq![text_item(text_kind(role@), text@)]);
            push_item(input, build_message_item(role, piece));
        },
        ContentValue::Null => {},
        ContentValue::Blocks(blocks) => {
            let ghost all = block_pieces(role@, blocks@);
            let mut waiting: Vec<Json> = Vec::new();
            let mut i: usize = 0;
            proof {
                assert(all.take(0) =~= Seq::empty());
                assert(start + Seq::<JsonView>::empty() =~= start);
                assert(json::items_view(waiting@) =~= Seq::empty());
            }
            while i < blocks.len()
                invariant
                    i <= blocks@.len(),
                    *content == ContentValue::Blocks(*blocks),
                    all == block_pieces(role@, blocks@),
                    under_way(start, input@, waiting@, encoding(role@, all.take(i as int))),
                decreases blocks@.len() - i,
            {
                let ghost e = encoding(role@, all.take(i as int));
                proof {
                    assert(all.take(i + 1).drop_last() =~= all.take(i as int));
                    assert(all.take(i + 1).last() == block_piece(role@, blocks@[i as int]));
                }
                let piece = build_block_piece(role, &blocks[i]);
                push_piece(input, &mut waiting, role, piece, Ghost(start), Ghost(e));
                i = i + 1;
            }
            assert(all.take(i as int) =~= all);
            flush(input, &mut waiting, role);
        },
    }
    assert(json::items_view(input@) =~= start + content_items(role@, *content));
}

/// Appends the items of assistant parts.
pub fn append_assistant_parts(input: &mut Vec<Json>, parts: &Vec<AssistantPart>)
    ensures
        json::items_view(final(input)@) == json::items_view(old(input)@) + part_items(parts@),
{
    let ghost start = json::items_view(input@);
    let ghost all = part_pieces(parts@);
    let ghost role = "assistant"@;
    let mut waiting: Vec<Json> = Vec::new();
    let mut i: usize = 0;
    proof {
        assert(all.take(0) =~= Seq::empty());
        assert(start + Seq::<JsonView>::empty() =~= start);
        assert(json::items_view(waiting@) =~= Seq::empty());
    }
    while i < parts.len()
        invariant
            i <= parts@.len(),
            all == part_pieces(parts@),
            role == "assistant"@,
            under_way(start, input@, waiting@, encoding(role, all.take(i as int))),
        decreases parts@.len() - i,
    {
        let ghost e = encoding(role, all.take(i as int));
        proof {
            assert(all.take(i + 1).drop_last() =~= all.take(i as int));
            assert(all.take(i + 1).last() == part_piece(parts@[i as int]));
        }
        let piece = build_part_piece(&parts[i]);
        push_piece(input, &mut waiting, "assistant", piece, Ghost(start), Ghost(e));
        i = i + 1;
    }
    assert(all.take(i as int) =~= all);
    flush(input, &mut waiting, "assistant");
    assert(json::items_view(input@) =~= start + part_items(parts@));
}

/// Blocks of an unknown type leave no trace.
proof fn lemma_unknown_blocks(role: Seq<char>, blocks: Seq<ContentBlock>)
    ensures
        encoding(role, block_pieces(role, blocks)) == encoding(
            role,
            block_pieces(role, conversation::known_blocks(blocks)),
        ),
    decreases blocks.len(),
{
    if blocks.len() > 0 {
        let front = blocks.drop_last();
        let known = conversation::known_blocks(front);
        lemma_unknown_blocks(role, front);
        assert(block_pieces(role, blocks).drop_last() =~= block_pieces(role, front));
        if !(blocks.last() is Unknown) {
            let more = conversation::known_blocks(blocks);
            assert(block_pieces(role, more).drop_last() =~= block_pieces(role, known));
        }
    }
}

/// The parts of an assistant message and the message itself become the same items.
pub proof fn law_parts_become_the_items_of_the_message(
    parts: Seq<AssistantPart>,
    content: ContentValue,
)
    requires
        conversation::parts_of(parts, content),
    ensures
        part_items(parts) == content_items("assistant"@, content),
{
    let role = "assistant"@;
    match content {
        ContentValue::Text(text) => {
            let piece = text_item("output_text"@, text@);
            assert(part_pieces(parts) =~= seq![PieceView::Content(piece)]);
            let none = Seq::<PieceView>::empty();
            assert(part_pieces(parts).drop_last() =~= none);
            assert(encoding(role, none) == (Encoding {
                items: Seq::empty(),
                waiting: Seq::empty(),
            }));
            assert(Seq::<JsonView>::empty().push(piece) =~= seq![piece]);
            assert(Seq::<JsonView>::empty().push(message_item(role, seq![piece])) =~= seq![
                message_item(role, seq![piece]),
            ]);
        },
        ContentValue::Null => {
            assert(part_pieces(parts) =~= Seq::empty());
        },
        ContentValue::Blocks(blocks) => {
            let known = conversation::known_blocks(blocks@);
            lemma_unknown_blocks(role, blocks@);
            assert forall|i: int| 0 <= i < parts.len() implies part_pieces(parts)[i]
                == #[trigger] block_pieces(role, known)[i] by {
                assert(conversation::part_of_block(parts[i], known[i]));
            }
            assert(part_pieces(parts) =~= block_pieces(role, known));
        },
    }
}

/// Appends the items of one turn.
fn append_turn(input: &mut Vec<Json>, turn: &Turn, message: Ghost<Message>)
    requires
        conversation::turn_of(*turn, message@),
    ensures
        json::items_view(final(input)@) == json::items_view(old(input)@) + content_items(
            message@.role@,
            message@.content,
        ),
{
    match turn {
        Turn::User { content } => {
            append_content_value(input, "user", content);
        },
        Turn::Unknown { role, content } => {
            append_content_value(input, role, content);
        },
        Turn::Assistant { parts } => {
            proof {
                law_parts_become_the_items_of_the_message(parts@, message@.content);
            }
            append_assistant_parts(input, parts);
        },
    }
}

/// What introduces the texts that were moved out of the system prompt.
pub open spec fn tail_intro() -> Seq<char> {
    "\n\n<permafrost:relocated-context>\nMoved out of the cache prefix so it can change without resetting the cache. Same meaning, later position.\n</permafrost:relocated-context>\n\n"@
}

/// Texts, each with a line of its own.
pub open spec fn lines_of(texts: Seq<Seq<char>>) -> Seq<char>
    decreases texts.len(),
{
    if texts.len() == 0 {
        Seq::empty()
    } else {
        lines_of(texts.drop_last()) + texts.last() + "\n"@
    }
}

/// The item with the texts that were moved out of the system prompt; none where there
/// are none.
pub open spec fn tail_items(volatile: Seq<Seq<char>>) -> Seq<JsonView> {
    if volatile.len() == 0 {
        Seq::empty()
    } else {
        seq![
            message_item(
                "user"@,
                seq![text_item("input_text"@, tail_intro() + lines_of(volatile))],
            ),
        ]
    }
}

/// Appends the item with the texts that were moved out of the system prompt.
pub fn append_synthetic_context_tail(input: &mut Vec<Json>, volatile_texts: &Vec<String>)
    ensures
        json::items_view(final(input)@) == json::items_view(old(input)@) + tail_items(
            text::texts(volatile_texts@),
        ),
{
    let ghost start = json::items_view(input@);
    let ghost all = text::texts(volatile_texts@);
    if volatile_texts.len() == 0 {
        assert(start + Seq::<JsonView>::empty() =~= start);
        return;
    }
    let mut words =
        "\n\n<permafrost:relocated-context>\nMoved out of the cache prefix so it can change without resetting the cache. Same meaning, later position.\n</permafrost:relocated-context>\n\n".to_owned();
    let mut i: usize = 0;
    assert(tail_intro() + lines_of(all.take(0)) =~= tail_intro());
    while i < volatile_texts.len()
        invariant
            i <= volatile_texts@.len(),
            all == text::texts(volatile_texts@),
            words@ == tail_intro() + lines_of(all.take(i as int)),
        decreases volatile_texts@.len() - i,
    {
        let ghost before = words@;
        words.append(volatile_texts[i].as_str());
        words.append("\n");
        proof {
            assert(all.take(i + 1).drop_last() =~= all.take(i as int));
            assert(all.take(i + 1).last() == volatile_texts@[i as int]@);
            assert(words@ =~= tail_intro() + lines_of(all.take(i + 1)));
        }
        i = i + 1;
    }
    assert(all.take(i as int) =~= all);
    let mut piece: Vec<Json> = Vec::new();
    push_item(&mut piece, build_text_item("input_text", words.as_str()));
    assert(json::items_view(piece@) =~= seq![
        text_item("input_text"@, tail_intro() + lines_of(all)),
    ]);
    push_item(input, build_message_item("user", piece));
    assert(json::items_view(input@) =~= start + tail_items(all));
}

/// The texts of system blocks.
pub open spec fn system_texts(
    blocks: Seq<crate::anthropic::types::SystemContentBlock>,
) -> Seq<Seq<char>> {
    Seq::new(blocks.len(), |i: int| blocks[i].text@)
}

/// The instructions of a system prompt: its text, or its blocks line by line; none
/// where that is empty.
pub open spec fn instructions_of(system: Option<SystemPrompt>) -> Option<Seq<char>> {
    let words = match system {
        Some(SystemPrompt::Text(text)) => text@,
        Some(SystemPrompt::Blocks(blocks)) => text::joined(system_texts(blocks@), "\n"@),
        None => Seq::empty(),
    };
    if words.len() == 0 {
        None
    } else {
        Some(words)
    }
}

/// The instructions of a system prompt.
pub fn system_text(system: Option<&SystemPrompt>) -> (r: Option<String>)
    ensures
        text::opt_text(r) == instructions_of(
            match system {
                Some(prompt) => Some(*prompt),
                None => None,
            },
        ),
{
    let words = match system {
        Some(SystemPrompt::Text(text)) => text.clone(),
        Some(SystemPrompt::Blocks(blocks)) => {
            let ghost all = system_texts(blocks@);
            let mut out = String::new();
            let mut i: usize = 0;
            assert(out@ =~= text::joined(all.take(0), "\n"@));
            while i < blocks.len()
                invariant
                    i <= blocks@.len(),
                    all == system_texts(blocks@),
                    out@ == text::joined(all.take(i as int), "\n"@),
                decreases blocks@.len() - i,
            {
                let ghost front = all.take(i as int);
                push_joined(&mut out, blocks[i].text.as_str(), "\n", i, Ghost(front));
                assert(all.take(i + 1) =~= front.push(blocks@[i as int].text@));
                i = i + 1;
            }
            assert(all.take(i as int) =~= all);
            out
        },
        None => String::new(),
    };
    if words.as_str().unicode_len() == 0 {
        None
    } else {
        Some(words)
    }
}

/// The way in which summaries are asked for: `detailed` or `auto`, and not at all
/// where they are off.
pub open spec fn summary_of(setting: Option<Seq<char>>) -> Option<Seq<char>> {
    let word = match setting {
        Some(word) => text::ascii_lowered(word),
        None => "auto"@,
    };
    if word == "off"@ {
        None
    } else if word == "detailed"@ {
        Some("detailed"@)
    } else {
        Some("auto"@)
    }
}

/// The effort of a request: the declared one, or `max`, in the words of the provider.
pub open spec fn responses_effort(req: MessagesRequest, config: Config, model: Seq<char>) -> Seq<
    char,
> {
    match config.model_provider(model) {
        Some(provider) => apply_effort::resolved(
            match converter::declared_effort(req) {
                Some(effort) => effort,
                None => "max"@,
            },
            provider.effort_map@,
        ),
        None => "max"@,
    }
}

/// The summary setting of the provider of a model.
pub open spec fn summary_setting(config: Config, model: Seq<char>) -> Option<Seq<char>> {
    match config.model_provider(model) {
        Some(provider) => text::opt_text(provider.responses_reasoning_summary),
        None => None,
    }
}

/// The reasoning settings of a request: none unless its thinking is on and the model
/// reasons.
pub open spec fn reasoning_of(req: MessagesRequest, config: Config, model: Seq<char>) -> Option<
    ReasoningView,
> {
    let enabled = req.thinking matches Some(thinking) && thinking.enabled();
    if enabled && crate::reasoning::replay::reasons(config, model) {
        Some(
            ReasoningView {
                effort: responses_effort(req, config, model),
                summary: summary_of(summary_setting(config, model)),
            },
        )
    } else {
        None
    }
}

/// The reasoning settings of a request.
pub fn reasoning_config(req: &MessagesRequest, config: &Config, model: &str) -> (r: Option<
    ReasoningConfig,
>)
    ensures
        match r {
            Some(reasoning) => reasoning_of(*req, *config, model@) == Some(reasoning@),
            None => reasoning_of(*req, *config, model@) is None,
        },
{
    let enabled = match &req.thinking {
        Some(thinking) => thinking.is_enabled(),
        None => false,
    };
    if !enabled || !crate::reasoning::replay::requires_reasoning_content(model, config) {
        return None;
    }
    let (effort, setting) = match config.provider_for_model(model) {
        Some(provider) => {
            let effort = match inbound_effort(req) {
                Some(word) => resolve_effort(word.as_str(), provider),
                None => resolve_effort("max", provider),
            };
            (effort, clone_text(&provider.responses_reasoning_summary))
        },
        None => ("max".to_owned(), None),
    };
    let word = match &setting {
        Some(setting) => to_ascii_lowercase(setting.as_str()),
        None => "auto".to_owned(),
    };
    let summary = if same(word.as_str(), "off") {
        None
    } else if same(word.as_str(), "detailed") {
        Some("detailed".to_owned())
    } else {
        Some("auto".to_owned())
    };
    Some(ReasoningConfig { effort, summary })
}

/// Converts a tool.
fn convert_tool(tool: &Tool) -> (r: ResponsesTool)
    ensures
        r@ == converter::chat_tool(*tool),
{
    ResponsesTool {
        tool_type: "function".to_owned(),
        name: tool.name.clone(),
        description: clone_text(&tool.description),
        parameters: tool.input_schema.clone(),
    }
}

/// Converts tools and sorts them by name.
fn convert_tools(tools: &Vec<Tool>) -> (r: Vec<ResponsesTool>)
    ensures
        types::tools_view(r@) == conversation::by_name(converter::chat_tools(tools@)),
{
    let mut converted: Vec<ResponsesTool> = Vec::new();
    let mut i: usize = 0;
    while i < tools.len()
        invariant
            i <= tools@.len(),
            converted@.len() == i,
            forall|j: int|
                0 <= j < i ==> (#[trigger] converted@[j])@ == converter::chat_tool(tools@[j]),
        decreases tools@.len() - i,
    {
        converted.push(convert_tool(&tools[i]));
        i = i + 1;
    }
    assert(conversation::tools_of(converted@) =~= converter::chat_tools(tools@));
    let sorted = sort_by_name(converted);
    assert(types::tools_view(sorted@) =~= conversation::tools_of(sorted@));
    sorted
}

/// A tool choice in Responses form.
pub open spec fn responses_tool_choice(choice: ToolChoice) -> JsonView {
    match choice {
        ToolChoice::Auto { .. } => JsonView::String("auto"@),
        ToolChoice::Any { .. } => JsonView::String("required"@),
        ToolChoice::Tool { name, .. } => JsonView::Object(
            Map::empty().insert("type"@, JsonView::String("function"@)).insert(
                "name"@,
                JsonView::String(name@),
            ),
        ),
    }
}

/// Converts a tool choice.
fn convert_tool_choice(choice: &ToolChoice) -> (r: Json)
    ensures
        r@ == responses_tool_choice(*choice),
{
    match choice {
        ToolChoice::Auto { .. } => Json::string("auto"),
        ToolChoice::Any { .. } => Json::string("required"),
        ToolChoice::Tool { name, .. } => Json::object().with("type", Json::string("function")).with(
            "name",
            Json::string(name.as_str()),
        ),
    }
}

/// The type of an input item: its type, or its role, or `unknown`.
pub open spec fn item_type(item: JsonView) -> Seq<char> {
    match item.get("type"@) {
        Some(JsonView::String(kind)) => kind,
        _ => match item.get("role"@) {
            Some(JsonView::String(role)) => "role:"@ + role,
            _ => "unknown"@,
        },
    }
}

/// The types of input items.
pub open spec fn item_types(items: Seq<JsonView>) -> Seq<Seq<char>> {
    Seq::new(items.len(), |i: int| item_type(items[i]))
}

/// The type of an input item.
fn input_item_type(item: &Json) -> (r: String)
    ensures
        r@ == item_type(item@),
{
    match item.get("type") {
        Some(Json::String(kind)) => {
            return kind.clone();
        },
        _ => {},
    }
    match item.get("role") {
        Some(Json::String(role)) => {
            let mut word = "role:".to_owned();
            word.append(role.as_str());
            word
        },
        _ => "unknown".to_owned(),
    }
}

/// The types of input items.
fn input_item_types(items: &Vec<Json>) -> (r: Vec<String>)
    ensures
        text::texts(r@) == item_types(json::items_view(items@)),
{
    let mut kinds: Vec<String> = Vec::new();
    let mut i: usize = 0;
    while i < items.len()
        invariant
            i <= items@.len(),
            kinds@.len() == i,
            forall|j: int| 0 <= j < i ==> (#[trigger] kinds@[j])@ == item_type(items@[j]@),
        decreases items@.len() - i,
    {
        kinds.push(input_item_type(&items[i]));
        i = i + 1;
    }
    assert(text::texts(kinds@) =~= item_types(json::items_view(items@)));
    kinds
}

/// What relocation makes of a system prompt.
#[derive(Debug)]
pub struct Relocated {
    pub system: SystemPrompt,
    pub volatile_texts: Vec<String>,
}

impl Relocated {
    /// A system prompt that nothing is moved out of.
    pub fn unmoved(system: &Option<SystemPrompt>) -> (r: Relocated)
        ensures
            r.system@ == match *system {
                Some(prompt) => prompt@,
                None => SystemView::Text(Seq::empty()),
            },
            r.volatile_texts@.len() == 0,
    {
        Relocated { system: system_to_relocate(system), volatile_texts: Vec::new() }
    }
}

/// The system prompt and the moved texts of a request. A request without messages is
/// not relocated: there is no turn to put the texts behind.
pub open spec fn system_and_tail(req: MessagesRequest, relocate: bool, moved: Relocated) -> (
    Option<SystemPrompt>,
    Seq<Seq<char>>,
) {
    if relocate && req.messages@.len() > 0 {
        (Some(moved.system), text::texts(moved.volatile_texts@))
    } else {
        (req.system, Seq::empty())
    }
}

/// A converted request.
pub open spec fn converted_request(
    req: MessagesRequest,
    config: Config,
    relocate: bool,
    moved: Relocated,
) -> ResponsesView {
    let model = converter::upstream_name(req.model@, config);
    let (system, volatile) = system_and_tail(req, relocate, moved);
    let input = history_items(req.messages@) + tail_items(volatile);
    ResponsesView {
        model,
        instructions: instructions_of(system),
        input,
        tools: match req.tools {
            Some(tools) => Some(conversation::by_name(converter::chat_tools(tools@))),
            None => None,
        },
        tool_choice: match req.tool_choice {
            Some(choice) => Some(responses_tool_choice(choice)),
            None => None,
        },
        parallel_tool_calls: None,
        reasoning: reasoning_of(req, config, model),
        max_output_tokens: req.max_tokens,
        stream: req.stream.unwrap_or(false),
        input_item_types: item_types(input),
        synthetic_tail_present: volatile.len() > 0,
    }
}

/// A tool as JSON. A missing description is left out.
pub open spec fn tool_json(tool: ToolView) -> JsonView {
    let m = Map::empty().insert("type"@, JsonView::String(tool.tool_type)).insert(
        "name"@,
        JsonView::String(tool.name),
    ).insert("parameters"@, tool.parameters);
    match tool.description {
        Some(description) => JsonView::Object(
            m.insert("description"@, JsonView::String(description)),
        ),
        None => JsonView::Object(m),
    }
}

/// Tools as JSON.
pub open spec fn tools_json(tools: Seq<ToolView>) -> Seq<JsonView> {
    Seq::new(tools.len(), |i: int| tool_json(tools[i]))
}

/// What of a request stays the same from turn to turn: model, instructions, tools,
/// tool choice and effort. The summary setting is not part of it.
pub open spec fn static_prefix_of(request: ResponsesView) -> JsonView {
    JsonView::Object(
        Map::empty().insert("model"@, JsonView::String(request.model)).insert(
            "instructions"@,
            match request.instructions {
                Some(words) => JsonView::String(words),
                None => JsonView::Null,
            },
        ).insert(
            "tools"@,
            match request.tools {
                Some(tools) => JsonView::Array(tools_json(tools)),
                None => JsonView::Null,
            },
        ).insert(
            "tool_choice"@,
            match request.tool_choice {
                Some(choice) => choice,
                None => JsonView::Null,
            },
        ).insert(
            "reasoning"@,
            match request.reasoning {
                Some(reasoning) => JsonView::Object(
                    Map::empty().insert("effort"@, JsonView::String(reasoning.effort)),
                ),
                None => JsonView::Null,
            },
        ),
    )
}

/// A tool as JSON.
fn build_tool_json(tool: &ResponsesTool) -> (r: Json)
    ensures
        r@ == tool_json(tool@),
{
    let json = Json::object().with("type", Json::string(tool.tool_type.as_str())).with(
        "name",
        Json::string(tool.name.as_str()),
    ).with("parameters", tool.parameters.clone());
    match &tool.description {
        Some(description) => json.with("description", Json::string(description.as_str())),
        None => json,
    }
}

/// A request that is converted but for its hashes.
#[derive(Debug)]
pub struct ResponsesDraft {
    request: ResponsesRequest,
    history_item_count: usize,
}

impl ResponsesDraft {
    /// What the request says.
    pub closed spec fn request(self) -> ResponsesView {
        self.request@
    }

    /// The identifier of the request.
    pub closed spec fn id(self) -> Seq<char> {
        self.request.request_id@
    }

    /// How many items of the input are stored history.
    pub closed spec fn history_len(self) -> int {
        self.history_item_count as int
    }

    #[verifier::type_invariant]
    closed spec fn well_formed(self) -> bool {
        self.history_item_count <= self.request.input@.len()
    }

    /// What of the request stays the same from turn to turn, for hashing.
    pub fn static_prefix(&self) -> (r: Json)
        ensures
            r@ == static_prefix_of(self.request()),
    {
        let instructions = match &self.request.instructions {
            Some(words) => Json::string(words.as_str()),
            None => Json::Null,
        };
        let tools = match &self.request.tools {
            Some(tools) => {
                let mut items: Vec<Json> = Vec::new();
                let mut i: usize = 0;
                while i < tools.len()
                    invariant
                        i <= tools@.len(),
                        items@.len() == i,
                        forall|j: int|
                            0 <= j < i ==> (#[trigger] items@[j])@ == tool_json(tools@[j]@),
                    decreases tools@.len() - i,
                {
                    items.push(build_tool_json(&tools[i]));
                    i = i + 1;
                }
                assert(json::items_view(items@) =~= tools_json(types::tools_view(tools@)));
                Json::Array(items)
            },
            None => Json::Null,
        };
        let tool_choice = match &self.request.tool_choice {
            Some(choice) => choice.clone(),
            None => Json::Null,
        };
        let reasoning = match &self.request.reasoning {
            Some(reasoning) => Json::object().with(
                "effort",
                Json::string(reasoning.effort.as_str()),
            ),
            None => Json::Null,
        };
        Json::object().with("model", Json::string(self.request.model.as_str())).with(
            "instructions",
            instructions,
        ).with("tools", tools).with("tool_choice", tool_choice).with("reasoning", reasoning)
    }

    /// The stored history of the input, for hashing.
    pub fn history(&self) -> (r: Json)
        ensures
            r@ == JsonView::Array(self.request().input.take(self.history_len())),
    {
        proof {
            use_type_invariant(self);
        }
        let mut items: Vec<Json> = Vec::new();
        let mut i: usize = 0;
        while i < self.history_item_count
            invariant
                i <= self.history_item_count <= self.request.input@.len(),
                items@.len() == i,
                forall|j: int| 0 <= j < i ==> (#[trigger] items@[j])@ == self.request.input@[j]@,
            decreases self.history_item_count - i,
        {
            items.push(self.request.input[i].clone());
            i = i + 1;
        }
        assert(json::items_view(items@) =~= self.request().input.take(self.history_len()));
        Json::Array(items)
    }

    /// The whole input, for hashing.
    pub fn input(&self) -> (r: Json)
        ensures
            r@ == JsonView::Array(self.request().input),
    {
        let mut items: Vec<Json> = Vec::new();
        let mut i: usize = 0;
        while i < self.request.input.len()
            invariant
                i <= self.request.input@.len(),
                items@.len() == i,
                forall|j: int| 0 <= j < i ==> (#[trigger] items@[j])@ == self.request.input@[j]@,
            decreases self.request.input@.len() - i,
        {
            items.push(self.request.input[i].clone());
            i = i + 1;
        }
        assert(json::items_view(items@) =~= self.request().input);
        Json::Array(items)
    }

    /// The whole request, with the hashes of the static prefix, of the stored history
    /// and of the whole input.
    pub fn seal(self, static_prefix: String, history: String, input: String) -> (r: ResponsesRequest)
        ensures
            r@ == self.request(),
            r.request_id@ == self.id(),
            r.static_prefix_hash@ == static_prefix@,
            r.history_prefix_hash@ == history@,
            r.wire_input_hash@ == input@,
    {
        let mut request = self.request;
        request.static_prefix_hash = static_prefix;
        request.history_prefix_hash = history;
        request.wire_input_hash = input;
        request
    }

    /// The whole request, with its hashes made by a function.
    pub fn seal_by<F: Fn(&Json) -> String>(self, hash: F) -> (r: ResponsesRequest)
        requires
            forall|value: Json| #[trigger] hash.requires((&value,)),
        ensures
            r@ == self.request(),
            r.request_id@ == self.id(),
            hashes_to(hash, static_prefix_of(self.request()), r.static_prefix_hash@),
            hashes_to(
                hash,
                JsonView::Array(self.request().input.take(self.history_len())),
                r.history_prefix_hash@,
            ),
            hashes_to(hash, JsonView::Array(self.request().input), r.wire_input_hash@),
    {
        let prefix = self.static_prefix();
        let history = self.history();
        let input = self.input();
        let prefix_hash = hash(&prefix);
        let history_hash = hash(&history);
        let input_hash = hash(&input);
        proof {
            assert(hash.ensures((&prefix,), prefix_hash));
            assert(hash.ensures((&history,), history_hash));
            assert(hash.ensures((&input,), input_hash));
        }
        self.seal(prefix_hash, history_hash, input_hash)
    }
}

/// Whether a function can give a hash for a value.
pub open spec fn hashes_to<F: Fn(&Json) -> String>(hash: F, value: JsonView, digest: Seq<char>) -> bool {
    exists|json: Json, text: String| #[trigger]
        hash.ensures((&json,), text) && json@ == value && text@ == digest
}

/// The input items of stored history and of the moved texts, and how many of them are
/// history.
fn build_input(messages: &Vec<Message>, system: Option<&SystemPrompt>, volatile: &Vec<String>) -> (r: (
    Vec<Json>,
    usize,
))
    ensures
        json::items_view(r.0@) == history_items(messages@) + tail_items(text::texts(volatile@)),
        r.1 == history_items(messages@).len(),
{
    let conversation = build_conversation(system, messages, volatile);
    let mut input: Vec<Json> = Vec::new();
    let mut i: usize = 0;
    proof {
        assert(messages@.take(0) =~= Seq::empty());
        assert(json::items_view(input@) =~= Seq::empty());
    }
    while i < conversation.turns.len()
        invariant
            i <= conversation.turns@.len(),
            conversation.turns@.len() == messages@.len(),
            forall|j: int|
                0 <= j < messages@.len() ==> conversation::turn_of(
                    #[trigger] conversation.turns@[j],
                    messages@[j],
                ),
            json::items_view(input@) == history_items(messages@.take(i as int)),
        decreases conversation.turns@.len() - i,
    {
        let ghost message = messages@[i as int];
        proof {
            assert(messages@.take(i + 1).drop_last() =~= messages@.take(i as int));
            assert(messages@.take(i + 1).last() == message);
        }
        append_turn(&mut input, &conversation.turns[i], Ghost(message));
        i = i + 1;
    }
    assert(messages@.take(i as int) =~= messages@);
    let history_len: usize = input.len();
    append_synthetic_context_tail(&mut input, conversation.synthetic_tail);
    (input, history_len)
}

/// Whether the system prompt of a request is relocated: the setting
/// `CODEMERMAFROST_RELOCATE` is there and the request has messages. What relocation
/// makes of the prompt is not read otherwise.
pub fn wants_relocation(req: &MessagesRequest, setting: Option<&str>) -> (r: bool)
    ensures
        r == (setting is Some && req.messages@.len() > 0),
{
    setting.is_some() && req.messages.len() > 0
}

/// Converts a request, with the relocation of volatile system blocks as the setting
/// `CODEMERMAFROST_RELOCATE` has it: on where it is set, to whatever value.
pub fn convert_request(
    req: &MessagesRequest,
    config: &Config,
    setting: Option<&str>,
    moved: &Relocated,
) -> (r: Result<ResponsesDraft, ConvertError>)
    ensures
        match r {
            Ok(draft) => {
                &&& req.max_tokens >= 16
                &&& draft.request() == converted_request(*req, *config, setting is Some, *moved)
                &&& draft.history_len() == history_items(req.messages@).len()
                &&& ids::is_simple_uuid(draft.id())
            },
            Err(e) => req.max_tokens < 16 && e == ConvertError::MaxTokens,
        },
{
    convert_request_with_relocation(req, config, setting.is_some(), moved)
}

/// Converts a request. Where it is relocated, its system prompt and the texts behind its
/// history are those that relocation made.
pub fn convert_request_with_relocation(
    req: &MessagesRequest,
    config: &Config,
    relocate: bool,
    moved: &Relocated,
) -> (r: Result<ResponsesDraft, ConvertError>)
    ensures
        match r {
            Ok(draft) => {
                &&& req.max_tokens >= 16
                &&& draft.request() == converted_request(*req, *config, relocate, *moved)
                &&& draft.history_len() == history_items(req.messages@).len()
                &&& ids::is_simple_uuid(draft.id())
            },
            Err(e) => req.max_tokens < 16 && e == ConvertError::MaxTokens,
        },
{
    let model = map_model_to_upstream_for_responses(req.model.as_str(), config);
    if req.max_tokens < 16 {
        return Err(ConvertError::MaxTokens);
    }
    let none: Vec<String> = Vec::new();
    assert(text::texts(none@) =~= Seq::empty());
    let (system, volatile) = if relocate && req.messages.len() > 0 {
        (Some(&moved.system), &moved.volatile_texts)
    } else {
        (req.system.as_ref(), &none)
    };
    let instructions = system_text(system);
    let (input, history_item_count) = build_input(&req.messages, system, volatile);
    let tools = match &req.tools {
        Some(tools) => Some(convert_tools(tools)),
        None => None,
    };
    let tool_choice = match &req.tool_choice {
        Some(choice) => Some(convert_tool_choice(choice)),
        None => None,
    };
    let reasoning = reasoning_config(req, config, model.as_str());
    let kinds = input_item_types(&input);
    let stream = match req.stream {
        Some(b) => b,
        None => false,
    };
    let synthetic_tail_present = volatile.len() > 0;
    let request = ResponsesRequest {
        model,
        request_id: new_request_id(),
        instructions,
        input,
        tools,
        tool_choice,
        parallel_tool_calls: None,
        reasoning,
        max_output_tokens: req.max_tokens,
        stream,
        static_prefix_hash: String::new(),
        history_prefix_hash: String::new(),
        wire_input_hash: String::new(),
        input_item_types: kinds,
        synthetic_tail_present,
    };
    assert(request@ =~= converted_request(*req, *config, relocate, *moved));
    Ok(ResponsesDraft { request, history_item_count })
}

} // verus!
