//! What an upstream reads of the input of a Responses request.

use crate::anthropic::types::{
    ContentBlock, ContentValue, ImageSource, Message, MessagesRequest, ToolResultContent,
    ToolResultContentBlock,
};
use crate::config::Config;
use crate::json::{self, JsonView};
use crate::responses::laws;
use crate::responses::request::{self, Encoding, PieceView, Relocated};
use crate::text;
use vstd::prelude::*;

verus! {

/// What is read of an input.
pub enum Told {
    Text { kind: Seq<char>, text: Seq<char> },
    Image { url: Seq<char> },
    Call { id: Seq<char>, name: Seq<char>, arguments: Seq<char> },
    Output { id: Seq<char>, output: Seq<char> },
}

/// The text of a member, or the empty one.
pub open spec fn member_text(value: JsonView, name: Seq<char>) -> Seq<char> {
    match value.get(name) {
        Some(JsonView::String(s)) => s,
        _ => Seq::empty(),
    }
}

/// What a piece of content tells: an image, or a text of the kind that the piece has.
pub open spec fn read_piece(piece: JsonView) -> Told {
    if member_text(piece, "type"@) == "input_image"@ {
        Told::Image { url: member_text(piece, "image_url"@) }
    } else {
        Told::Text { kind: member_text(piece, "type"@), text: member_text(piece, "text"@) }
    }
}

/// What pieces of content tell.
pub open spec fn read_pieces(pieces: Seq<JsonView>) -> Seq<Told> {
    Seq::new(pieces.len(), |i: int| read_piece(pieces[i]))
}

/// The content of an item that is a message.
pub open spec fn message_content(item: JsonView) -> Option<Seq<JsonView>> {
    match item.get("content"@) {
        Some(JsonView::Array(pieces)) => Some(pieces),
        _ => None,
    }
}

/// What an item tells: a message its content, a tool call or a tool result itself.
pub open spec fn read_item(item: JsonView) -> Seq<Told> {
    match message_content(item) {
        Some(pieces) => read_pieces(pieces),
        None => if member_text(item, "type"@) == "function_call"@ {
            seq![
                Told::Call {
                    id: member_text(item, "call_id"@),
                    name: member_text(item, "name"@),
                    arguments: member_text(item, "arguments"@),
                },
            ]
        } else if member_text(item, "type"@) == "function_call_output"@ {
            seq![
                Told::Output {
                    id: member_text(item, "call_id"@),
                    output: member_text(item, "output"@),
                },
            ]
        } else {
            Seq::empty()
        },
    }
}

/// What items tell, one after the other.
pub open spec fn read_items(items: Seq<JsonView>) -> Seq<Told>
    decreases items.len(),
{
    if items.len() == 0 {
        Seq::empty()
    } else {
        read_items(items.drop_last()) + read_item(items.last())
    }
}

/// The kind of the text of a role: what an assistant said went out, the rest comes in.
pub open spec fn kind_of(role: Seq<char>) -> Seq<char> {
    if role == "assistant"@ {
        "output_text"@
    } else {
        "input_text"@
    }
}

/// Lines, joined.
pub open spec fn stitched(lines: Seq<Seq<char>>) -> Seq<char>
    decreases lines.len(),
{
    if lines.len() == 0 {
        Seq::empty()
    } else if lines.len() == 1 {
        lines[0]
    } else {
        stitched(lines.drop_last()).push('\n') + lines.last()
    }
}

/// The text blocks of a tool result.
pub open spec fn result_lines(blocks: Seq<ToolResultContentBlock>) -> Seq<Seq<char>>
    decreases blocks.len(),
{
    if blocks.len() == 0 {
        Seq::empty()
    } else {
        match blocks.last() {
            ToolResultContentBlock::Text { text } => result_lines(blocks.drop_last()).push(text@),
            _ => result_lines(blocks.drop_last()),
        }
    }
}

/// What a tool result says: its text, or its text blocks line by line.
pub open spec fn result_words(content: ToolResultContent) -> Seq<char> {
    match content {
        ToolResultContent::Text(text) => text@,
        ToolResultContent::Blocks(blocks) => stitched(result_lines(blocks@)),
    }
}

/// What a block has to tell: text, images, tool calls and tool results. Reasoning is not
/// told, and neither is what is not known.
pub open spec fn told_by(role: Seq<char>, block: ContentBlock) -> Seq<Told> {
    match block {
        ContentBlock::Text { text } => seq![Told::Text { kind: kind_of(role), text: text@ }],
        ContentBlock::Image { source } => seq![
            Told::Image { url: "data:"@ + source.media_type@ + ";base64,"@ + source.data@ },
        ],
        ContentBlock::ToolUse { id, name, input } => seq![
            Told::Call { id: id@, name: name@, arguments: json::json_text(input@) },
        ],
        ContentBlock::ToolResult { tool_use_id, content, .. } => seq![
            Told::Output { id: tool_use_id@, output: result_words(content) },
        ],
        ContentBlock::Thinking { .. } | ContentBlock::RedactedThinking { .. } => Seq::empty(),
        ContentBlock::Unknown => Seq::empty(),
    }
}

/// What blocks have to tell, one after the other.
pub open spec fn told_by_blocks(role: Seq<char>, blocks: Seq<ContentBlock>) -> Seq<Told>
    decreases blocks.len(),
{
    if blocks.len() == 0 {
        Seq::empty()
    } else {
        told_by_blocks(role, blocks.drop_last()) + told_by(role, blocks.last())
    }
}

/// What a message has to tell.
pub open spec fn told_by_message(message: Message) -> Seq<Told> {
    match message.content {
        ContentValue::Text(text) => seq![
            Told::Text { kind: kind_of(message.role@), text: text@ },
        ],
        ContentValue::Blocks(blocks) => told_by_blocks(message.role@, blocks@),
        ContentValue::Null => Seq::empty(),
    }
}

/// What messages have to tell, one after the other.
pub open spec fn told_by_messages(messages: Seq<Message>) -> Seq<Told>
    decreases messages.len(),
{
    if messages.len() == 0 {
        Seq::empty()
    } else {
        told_by_messages(messages.drop_last()) + told_by_message(messages.last())
    }
}

/// No two members of an item have one name, and no two types are the same.
proof fn lemma_names_differ()
    ensures
        "content"@ != "type"@,
        "content"@ != "call_id"@,
        "content"@ != "name"@,
        "content"@ != "arguments"@,
        "content"@ != "output"@,
        "content"@ != "role"@,
        "type"@ != "call_id"@,
        "type"@ != "name"@,
        "type"@ != "arguments"@,
        "type"@ != "output"@,
        "type"@ != "text"@,
        "type"@ != "image_url"@,
        "call_id"@ != "name"@,
        "call_id"@ != "arguments"@,
        "call_id"@ != "output"@,
        "name"@ != "arguments"@,
        "function_call"@ != "function_call_output"@,
        "input_image"@ != "input_text"@,
        "input_image"@ != "output_text"@,
{
    reveal_strlit("content");
    reveal_strlit("type");
    reveal_strlit("call_id");
    reveal_strlit("name");
    reveal_strlit("arguments");
    reveal_strlit("output");
    reveal_strlit("role");
    reveal_strlit("text");
    reveal_strlit("image_url");
    reveal_strlit("function_call");
    reveal_strlit("function_call_output");
    reveal_strlit("input_image");
    reveal_strlit("input_text");
    reveal_strlit("output_text");
    assert("content"@.len() == 7 && "type"@.len() == 4 && "role"@.len() == 4);
    assert("call_id"@.len() == 7 && "name"@.len() == 4 && "arguments"@.len() == 9);
    assert("output"@.len() == 6 && "text"@.len() == 4 && "image_url"@.len() == 9);
    assert("function_call"@.len() == 13 && "function_call_output"@.len() == 20);
    assert("input_image"@.len() == 11 && "input_text"@.len() == 10);
    assert("content"@[1] != "call_id"@[1]);
    assert("type"@[0] != "name"@[0]);
    assert("type"@[1] != "text"@[1]);
    assert("input_image"@[0] != "output_text"@[0]);
}

/// A text is read as it is.
proof fn lemma_read_text(kind: Seq<char>, words: Seq<char>)
    requires
        kind != "input_image"@,
    ensures
        read_piece(request::text_item(kind, words)) == (Told::Text { kind, text: words }),
{
    lemma_names_differ();
}

/// A message is read as its content.
proof fn lemma_read_message(role: Seq<char>, content: Seq<JsonView>)
    ensures
        read_item(request::message_item(role, content)) == read_pieces(content),
        message_content(request::message_item(role, content)) == Some(content),
        request::message_item(role, content).get("role"@) == Some(JsonView::String(role)),
{
    lemma_names_differ();
}

proof fn lemma_read_call(id: Seq<char>, name: Seq<char>, arguments: Seq<char>)
    ensures
        read_item(request::call_item(id, name, arguments)) == seq![
            Told::Call { id, name, arguments },
        ],
        message_content(request::call_item(id, name, arguments)) is None,
{
    lemma_names_differ();
    let item = request::call_item(id, name, arguments);
    assert(item.get("content"@) is None);
    assert(member_text(item, "type"@) == "function_call"@);
    assert(member_text(item, "call_id"@) == id);
    assert(member_text(item, "name"@) == name);
}

proof fn lemma_read_output(id: Seq<char>, output: Seq<char>)
    ensures
        read_item(request::output_item(id, output)) == seq![Told::Output { id, output }],
        message_content(request::output_item(id, output)) is None,
{
    lemma_names_differ();
    let item = request::output_item(id, output);
    assert(item.get("content"@) is None);
    assert(member_text(item, "type"@) == "function_call_output"@);
    assert(member_text(item, "call_id"@) == id);
}

/// Items, one after the other.
proof fn lemma_read_concat(a: Seq<JsonView>, b: Seq<JsonView>)
    ensures
        read_items(a + b) == read_items(a) + read_items(b),
    decreases b.len(),
{
    if b.len() == 0 {
        assert(a + b =~= a);
        assert(read_items(a) + read_items(b) =~= read_items(a));
    } else {
        lemma_read_concat(a, b.drop_last());
        assert((a + b).drop_last() =~= a + b.drop_last());
        assert((a + b).last() == b.last());
        assert(read_items(a + b) =~= read_items(a) + read_items(b));
    }
}

/// Lines are joined as they are stitched.
pub proof fn lemma_stitched(lines: Seq<Seq<char>>)
    ensures
        stitched(lines) == text::joined(lines, "\n"@),
    decreases lines.len(),
{
    reveal_strlit("\n");
    if lines.len() > 1 {
        lemma_stitched(lines.drop_last());
        assert(stitched(lines) =~= text::joined(lines, "\n"@));
    }
}

proof fn lemma_result_lines(blocks: Seq<ToolResultContentBlock>)
    ensures
        result_lines(blocks) == request::result_texts(blocks),
    decreases blocks.len(),
{
    if blocks.len() > 0 {
        lemma_result_lines(blocks.drop_last());
    }
}

/// What tools gave back is told line by line.
pub proof fn law_results_are_told_line_by_line(content: ToolResultContent)
    ensures
        request::result_text(content) == result_words(content),
{
    match content {
        ToolResultContent::Blocks(blocks) => {
            lemma_result_lines(blocks@);
            lemma_stitched(result_lines(blocks@));
        },
        _ => {},
    }
}

/// What was told so far, with the content that waits.
spec fn read_encoding(e: Encoding) -> Seq<Told> {
    read_items(e.items) + read_pieces(e.waiting)
}

/// Waiting content is told in a message as it was told while it waited.
proof fn lemma_flushed(role: Seq<char>, e: Encoding)
    ensures
        read_items(request::flushed(role, e)) == read_encoding(e),
{
    if e.waiting.len() == 0 {
        assert(read_pieces(e.waiting) =~= Seq::empty());
        assert(read_encoding(e) =~= read_items(e.items));
    } else {
        let item = request::message_item(role, e.waiting);
        lemma_read_message(role, e.waiting);
        assert(e.items.push(item).drop_last() =~= e.items);
        assert(read_items(e.items.push(item)) =~= read_encoding(e));
    }
}

/// One block more is told as it is.
proof fn lemma_block(role: Seq<char>, e: Encoding, block: ContentBlock)
    ensures
        read_encoding(
            request::encoding_piece(role, e, request::block_piece(role, block)),
        ) == read_encoding(e) + told_by(role, block),
{
    let after = request::encoding_piece(role, e, request::block_piece(role, block));
    lemma_names_differ();
    match request::block_piece(role, block) {
        PieceView::Skipped => {
            assert(read_encoding(e) + told_by(role, block) =~= read_encoding(e));
        },
        PieceView::Content(content) => {
            match block {
                ContentBlock::Text { text } => lemma_read_text(kind_of(role), text@),
                _ => {},
            }
            assert(read_pieces(e.waiting.push(content)) =~= read_pieces(e.waiting).push(
                read_piece(content),
            ));
            assert(read_encoding(after) =~= read_encoding(e) + told_by(role, block));
        },
        PieceView::Item(item) => {
            match block {
                ContentBlock::ToolUse { id, name, input } => lemma_read_call(
                    id@,
                    name@,
                    json::json_text(input@),
                ),
                ContentBlock::ToolResult { tool_use_id, content, .. } => {
                    law_results_are_told_line_by_line(content);
                    lemma_read_output(tool_use_id@, result_words(content));
                },
                _ => {},
            }
            let front = request::flushed(role, e);
            lemma_flushed(role, e);
            assert(front.push(item).drop_last() =~= front);
            assert(read_pieces(after.waiting) =~= Seq::empty());
            assert(read_encoding(after) =~= read_encoding(e) + told_by(role, block));
        },
    }
}

proof fn lemma_blocks(role: Seq<char>, blocks: Seq<ContentBlock>)
    ensures
        read_encoding(request::encoding(role, request::block_pieces(role, blocks)))
            == told_by_blocks(role, blocks),
    decreases blocks.len(),
{
    let pieces = request::block_pieces(role, blocks);
    if blocks.len() == 0 {
        assert(read_encoding(request::encoding(role, pieces)) =~= Seq::empty());
    } else {
        let front = blocks.drop_last();
        lemma_blocks(role, front);
        assert(pieces.drop_last() =~= request::block_pieces(role, front));
        lemma_block(
            role,
            request::encoding(role, request::block_pieces(role, front)),
            blocks.last(),
        );
    }
}

/// What a message of any role has to tell is read of its items, in order and with
/// nothing lost or added: the text and the images of its messages, its tool calls and
/// its tool results.
pub proof fn law_messages_are_told_in_full(message: Message)
    ensures
        read_items(request::content_items(message.role@, message.content)) == told_by_message(
            message,
        ),
{
    let role = message.role@;
    let items = request::content_items(role, message.content);
    lemma_names_differ();
    match message.content {
        ContentValue::Text(text) => {
            let content = seq![request::text_item(kind_of(role), text@)];
            lemma_read_text(kind_of(role), text@);
            lemma_read_message(role, content);
            assert(items =~= seq![request::message_item(role, content)]);
            assert(items.drop_last() =~= Seq::empty());
            assert(read_items(items.drop_last()) =~= Seq::empty());
            assert(items.last() == request::message_item(role, content));
            assert(read_pieces(content) =~= seq![
                Told::Text { kind: kind_of(role), text: text@ },
            ]);
            assert(read_items(items) =~= told_by_message(message));
        },
        ContentValue::Blocks(blocks) => {
            lemma_blocks(role, blocks@);
            lemma_flushed(role, request::encoding(role, request::block_pieces(role, blocks@)));
        },
        ContentValue::Null => {},
    }
}

/// What a conversation has to tell is read of the input, message by message.
pub proof fn law_conversations_are_told_in_full(messages: Seq<Message>)
    ensures
        read_items(request::history_items(messages)) == told_by_messages(messages),
    decreases messages.len(),
{
    if messages.len() > 0 {
        let front = messages.drop_last();
        let last = messages.last();
        law_conversations_are_told_in_full(front);
        law_messages_are_told_in_full(last);
        lemma_read_concat(
            request::history_items(front),
            request::content_items(last.role@, last.content),
        );
    }
}

/// The input of a request tells the whole conversation; behind it come the texts that
/// were moved out of the system prompt, each with a line of its own behind the words
/// that introduce them, and only where a relocated request has messages.
pub proof fn law_inputs_tell_the_conversation(
    req: MessagesRequest,
    config: Config,
    relocate: bool,
    moved: Relocated,
)
    ensures
        ({
            let input = request::converted_request(req, config, relocate, moved).input;
            let spoken = told_by_messages(req.messages@);
            if relocate && req.messages@.len() > 0 && moved.volatile_texts@.len() > 0 {
                read_items(input) == spoken.push(
                    Told::Text {
                        kind: "input_text"@,
                        text: request::tail_intro() + text_lines(
                            text::texts(moved.volatile_texts@),
                        ),
                    },
                )
            } else {
                read_items(input) == spoken
            }
        }),
{
    let converted = request::converted_request(req, config, relocate, moved);
    let history = request::history_items(req.messages@);
    let volatile = text::texts(moved.volatile_texts@);
    law_conversations_are_told_in_full(req.messages@);
    laws::law_input_is_history_and_tail(req, config, relocate, moved);
    lemma_names_differ();
    if relocate && req.messages@.len() > 0 && moved.volatile_texts@.len() > 0 {
        lemma_text_lines(volatile);
        let words = request::tail_intro() + request::lines_of(volatile);
        let content = seq![request::text_item("input_text"@, words)];
        let item = request::message_item("user"@, content);
        lemma_read_text("input_text"@, words);
        lemma_read_message("user"@, content);
        assert(converted.input == history.push(item));
        assert(history.push(item).drop_last() =~= history);
        assert(read_pieces(content) =~= seq![
            Told::Text { kind: "input_text"@, text: words },
        ]);
        assert(read_items(converted.input) =~= told_by_messages(req.messages@).push(
            Told::Text { kind: "input_text"@, text: words },
        ));
    }
}

/// Texts, each with the end of a line behind it.
pub open spec fn text_lines(texts: Seq<Seq<char>>) -> Seq<char>
    decreases texts.len(),
{
    if texts.len() == 0 {
        Seq::empty()
    } else {
        (text_lines(texts.drop_last()) + texts.last()).push('\n')
    }
}

proof fn lemma_text_lines(texts: Seq<Seq<char>>)
    ensures
        text_lines(texts) == request::lines_of(texts),
    decreases texts.len(),
{
    reveal_strlit("\n");
    if texts.len() > 0 {
        lemma_text_lines(texts.drop_last());
        assert(text_lines(texts) =~= request::lines_of(texts));
    }
}

/// A message with one text block has the items of the message with the text alone.
pub proof fn law_one_text_block_is_plain_content(
    role: Seq<char>,
    block: ContentBlock,
    blocks: Vec<ContentBlock>,
    plain: String,
)
    requires
        blocks@ == seq![block],
        block matches ContentBlock::Text { text } && text@ == plain@,
    ensures
        request::content_items(role, ContentValue::Blocks(blocks)) == request::content_items(
            role,
            ContentValue::Text(plain),
        ),
{
    let pieces = request::block_pieces(role, blocks@);
    let none = Seq::<PieceView>::empty();
    let piece = request::text_item(request::text_kind(role), plain@);
    assert(pieces.drop_last() =~= none);
    assert(pieces.last() == PieceView::Content(piece));
    assert(request::encoding(role, none).items =~= Seq::empty());
    assert(request::encoding(role, none).waiting =~= Seq::empty());
    assert(request::encoding(role, pieces).waiting =~= seq![piece]);
    assert(request::content_items(role, ContentValue::Blocks(blocks))
        =~= request::content_items(role, ContentValue::Text(plain)));
}

/// Whether items are well grouped: the messages are of a role and never empty, and no
/// message follows another one at once.
pub open spec fn grouped(role: Seq<char>, items: Seq<JsonView>) -> bool {
    forall|i: int|
        0 <= i < items.len() ==> (message_content(#[trigger] items[i]) matches Some(pieces)
            ==> {
            &&& pieces.len() > 0
            &&& items[i].get("role"@) == Some(JsonView::String(role))
            &&& i + 1 < items.len() ==> message_content(items[i + 1]) is None
        })
}

/// Whether the last item is no message.
spec fn ends_without_message(items: Seq<JsonView>) -> bool {
    items.len() > 0 ==> message_content(items.last()) is None
}

/// One item more that is no message, or that comes behind none.
proof fn lemma_grouped_push(role: Seq<char>, items: Seq<JsonView>, item: JsonView)
    requires
        grouped(role, items),
        message_content(item) matches Some(pieces) ==> {
            &&& pieces.len() > 0
            &&& item.get("role"@) == Some(JsonView::String(role))
            &&& ends_without_message(items)
        },
    ensures
        grouped(role, items.push(item)),
{
    let all = items.push(item);
    assert forall|i: int| 0 <= i < all.len() implies (message_content(#[trigger] all[i]) matches Some(
        pieces,
    ) ==> {
        &&& pieces.len() > 0
        &&& all[i].get("role"@) == Some(JsonView::String(role))
        &&& i + 1 < all.len() ==> message_content(all[i + 1]) is None
    }) by {
        if i < items.len() {
            assert(all[i] == items[i]);
            if i + 1 < items.len() {
                assert(all[i + 1] == items[i + 1]);
            } else {
                assert(items.last() == items[i]);
            }
        }
    }
}

proof fn lemma_encoding_grouped(role: Seq<char>, blocks: Seq<ContentBlock>)
    ensures
        ({
            let e = request::encoding(role, request::block_pieces(role, blocks));
            &&& grouped(role, e.items)
            &&& ends_without_message(e.items)
        }),
    decreases blocks.len(),
{
    if blocks.len() > 0 {
        let front = blocks.drop_last();
        let pieces = request::block_pieces(role, blocks);
        let e = request::encoding(role, request::block_pieces(role, front));
        lemma_encoding_grouped(role, front);
        assert(pieces.drop_last() =~= request::block_pieces(role, front));
        match request::block_piece(role, blocks.last()) {
            PieceView::Item(item) => {
                match blocks.last() {
                    ContentBlock::ToolUse { id, name, input } => lemma_read_call(
                        id@,
                        name@,
                        json::json_text(input@),
                    ),
                    ContentBlock::ToolResult { tool_use_id, content, .. } => lemma_read_output(
                        tool_use_id@,
                        request::result_text(content),
                    ),
                    _ => {},
                }
                lemma_read_message(role, e.waiting);
                if e.waiting.len() > 0 {
                    lemma_grouped_push(role, e.items, request::message_item(role, e.waiting));
                }
                lemma_grouped_push(role, request::flushed(role, e), item);
            },
            _ => {},
        }
    }
}

/// The messages among the items of a message have its role and are never empty, and what
/// follows at once stands in one of them: a message is cut only by a tool call or a tool
/// result.
pub proof fn law_messages_are_cut_by_tools_alone(message: Message)
    ensures
        grouped(message.role@, request::content_items(message.role@, message.content)),
{
    let role = message.role@;
    match message.content {
        ContentValue::Text(text) => {
            let content = seq![request::text_item(request::text_kind(role), text@)];
            lemma_read_message(role, content);
        },
        ContentValue::Blocks(blocks) => {
            let e = request::encoding(role, request::block_pieces(role, blocks@));
            lemma_encoding_grouped(role, blocks@);
            lemma_read_message(role, e.waiting);
            if e.waiting.len() > 0 {
                lemma_grouped_push(role, e.items, request::message_item(role, e.waiting));
            }
        },
        ContentValue::Null => {},
    }
}

/// Items hold what is read of them and nothing else: a message its role and its content,
/// content its type and its text or address, a tool call and a tool result their type,
/// their identifier and what they tell.
pub proof fn law_items_hold_nothing_else(
    name: Seq<char>,
    a: Seq<char>,
    b: Seq<char>,
    c: Seq<char>,
    content: Seq<JsonView>,
    source: ImageSource,
)
    ensures
        request::message_item(a, content).get(name) is Some ==> name == "role"@ || name
            == "content"@,
        request::text_item(a, b).get(name) is Some ==> name == "type"@ || name == "text"@,
        request::image_item(source).get(name) is Some ==> name == "type"@ || name == "image_url"@,
        request::call_item(a, b, c).get(name) is Some ==> name == "type"@ || name == "call_id"@
            || name == "name"@ || name == "arguments"@,
        request::output_item(a, b).get(name) is Some ==> name == "type"@ || name == "call_id"@
            || name == "output"@,
{
}

/// Texts that were moved become one message of the user, behind the words that introduce
/// them; where there are none there is no message.
pub proof fn law_moved_texts_are_one_message(a: Seq<Seq<char>>)
    requires
        a.len() > 0,
    ensures
        read_items(request::tail_items(a)).len() == 1,
        read_items(request::tail_items(a))[0] == (Told::Text {
            kind: "input_text"@,
            text: request::tail_intro() + text_lines(a),
        }),
        request::tail_items(a)[0].get("role"@) == Some(JsonView::String("user"@)),
        request::tail_items(Seq::empty()).len() == 0,
{
    lemma_names_differ();
    lemma_text_lines(a);
    let words = request::tail_intro() + request::lines_of(a);
    let content = seq![request::text_item("input_text"@, words)];
    lemma_read_text("input_text"@, words);
    lemma_read_message("user"@, content);
    let items = request::tail_items(a);
    assert(items =~= seq![request::message_item("user"@, content)]);
    assert(items.drop_last() =~= Seq::empty());
    assert(read_items(items.drop_last()) =~= Seq::empty());
    assert(read_pieces(content) =~= seq![Told::Text { kind: "input_text"@, text: words }]);
    assert(read_items(items) =~= seq![Told::Text { kind: "input_text"@, text: words }]);
}

} // verus!
