//! What goes out says what it holds, part by part.

use crate::anthropic::types::{
    BlockView, ContentBlock, ContentBlockDeltaData, ContentBlockStartData, ContentValue, EventView,
    MessagesResponse, PieceView, ResponseContentBlock, SseEvent,
};
use crate::cache::CachePolicy;
use crate::conversation::{self, AssistantPart};
use crate::json::{self, Json, JsonView};
use crate::openai::types::ChatCompletionRequest;
use crate::responses::types::ResponsesRequest;
use crate::text;
use vstd::prelude::*;

verus! {

/// Whether an optional text says what an optional string holds.
pub open spec fn says(text: Option<Seq<char>>, held: Option<String>) -> bool {
    match (text, held) {
        (Some(words), Some(string)) => words == string@,
        (None, None) => true,
        _ => false,
    }
}

/// Whether a block says what the block of an answer holds.
pub open spec fn says_block(view: BlockView, block: ResponseContentBlock) -> bool {
    match block {
        ResponseContentBlock::Thinking { thinking, signature } => view == BlockView::Thinking {
            thinking: thinking@,
            signature: signature@,
        },
        ResponseContentBlock::Text { text } => view == BlockView::Text { text: text@ },
        ResponseContentBlock::ToolUse { id, name, input } => view == BlockView::ToolUse {
            id: id@,
            name: name@,
            input: input@,
        },
    }
}

/// An answer says what it holds.
pub proof fn law_answers_say_what_they_hold(answer: MessagesResponse)
    ensures
        answer@.id == answer.id@,
        answer@.response_type == answer.response_type@,
        answer@.role == answer.role@,
        answer@.model == answer.model@,
        answer@.usage == answer.usage,
        says(answer@.stop_reason, answer.stop_reason),
        says(answer@.stop_sequence, answer.stop_sequence),
        answer@.content.len() == answer.content@.len(),
        forall|i: int|
            0 <= i < answer.content@.len() ==> says_block(
                #[trigger] answer@.content[i],
                answer.content@[i],
            ),
{
}

/// Whether a piece says what the piece of a streamed block holds.
pub open spec fn says_piece(view: PieceView, piece: ContentBlockDeltaData) -> bool {
    match piece {
        ContentBlockDeltaData::ThinkingDelta { thinking } => view == PieceView::Thinking(thinking@),
        ContentBlockDeltaData::TextDelta { text } => view == PieceView::Text(text@),
        ContentBlockDeltaData::InputJsonDelta { partial_json } => view == PieceView::InputJson(
            partial_json@,
        ),
        ContentBlockDeltaData::SignatureDelta { signature } => view == PieceView::Signature(
            signature@,
        ),
    }
}

/// Whether a block says what the head of a streamed block holds.
pub open spec fn says_head(view: BlockView, head: ContentBlockStartData) -> bool {
    match head {
        ContentBlockStartData::Thinking { thinking, signature } => view == BlockView::Thinking {
            thinking: thinking@,
            signature: signature@,
        },
        ContentBlockStartData::Text { text } => view == BlockView::Text { text: text@ },
        ContentBlockStartData::ToolUse { id, name, input } => view == BlockView::ToolUse {
            id: id@,
            name: name@,
            input: input@,
        },
    }
}

/// An event says what it holds, under the name that clients know it by.
pub proof fn law_events_say_what_they_hold(event: SseEvent)
    ensures
        match event {
            SseEvent::MessageStart { message } => event@ matches EventView::MessageStart {
                id,
                msg_type,
                role,
                model,
                usage,
                ..
            } && id == message.id@ && msg_type == message.msg_type@ && role == message.role@
                && model == message.model@ && usage == message.usage && event@.name()
                == "message_start"@,
            SseEvent::ContentBlockStart { index, content_block } =>
                event@ matches EventView::BlockStart { index: i, block } && i == index && says_head(
                block,
                content_block,
            ) && event@.name() == "content_block_start"@,
            SseEvent::ContentBlockDelta { index, delta } => event@ matches EventView::BlockDelta {
                index: i,
                piece,
            } && i == index && says_piece(piece, delta) && event@.name()
                == "content_block_delta"@,
            SseEvent::ContentBlockStop { index } => event@ == (EventView::BlockStop { index })
                && event@.name() == "content_block_stop"@,
            SseEvent::MessageDelta { delta, usage } => event@ matches EventView::MessageDelta {
                stop_reason,
                stop_sequence,
                usage: counts,
            } && says(stop_reason, delta.stop_reason) && says(stop_sequence, delta.stop_sequence)
                && counts == usage && event@.name() == "message_delta"@,
            SseEvent::MessageStop => event@ is MessageStop && event@.name() == "message_stop"@,
            SseEvent::Error { error } => event@ == (EventView::Error {
                error_type: error.error_type@,
                message: error.message@,
            }) && event@.name() == "error"@,
        },
{
}

/// Whether a list of values says what a list of trees holds.
pub open spec fn says_items(view: Seq<JsonView>, items: Seq<Json>) -> bool {
    &&& view.len() == items.len()
    &&& forall|i: int| 0 <= i < items.len() ==> #[trigger] view[i] == items[i]@
}

/// A request for a completion says what it holds.
pub proof fn law_chat_requests_say_what_they_hold(request: ChatCompletionRequest)
    ensures
        request@.model == request.model@,
        says_items(request@.messages, request.messages@),
        request@.max_tokens == request.max_tokens,
        request@.max_completion_tokens == request.max_completion_tokens,
        request@.stream == request.stream,
        request@.stream_options == request.stream_options,
        says(request@.reasoning_effort, request.reasoning_effort),
        says(request@.prompt_cache_key, request.prompt_cache_key),
        request@.thinking is Some <==> request.thinking is Some,
        request.thinking matches Some(switch) ==> {
            &&& request@.thinking->0.thinking_type == switch.thinking_type@
            &&& request@.thinking->0.clear_thinking == switch.clear_thinking
        },
        request@.tool_choice is Some <==> request.tool_choice is Some,
        request.tool_choice matches Some(choice) ==> request@.tool_choice->0 == choice@,
        request@.stop is Some <==> request.stop is Some,
        request@.tools is Some <==> request.tools is Some,
        request.tools matches Some(tools) ==> {
            let told = request@.tools->0;
            &&& told.len() == tools@.len()
            &&& forall|i: int|
                0 <= i < tools@.len() ==> {
                    &&& (#[trigger] told[i]).tool_type == tools@[i].tool_type@
                    &&& told[i].name == tools@[i].function.name@
                    &&& told[i].parameters == tools@[i].function.parameters@
                    &&& says(told[i].description, tools@[i].function.description)
                }
        },
{
}

/// A request for a response says what it holds.
pub proof fn law_responses_requests_say_what_they_hold(request: ResponsesRequest)
    ensures
        request@.model == request.model@,
        says(request@.instructions, request.instructions),
        says_items(request@.input, request.input@),
        request@.parallel_tool_calls == request.parallel_tool_calls,
        request@.max_output_tokens == request.max_output_tokens,
        request@.stream == request.stream,
        request@.synthetic_tail_present == request.synthetic_tail_present,
        request@.input_item_types.len() == request.input_item_types@.len(),
        forall|i: int|
            0 <= i < request.input_item_types@.len() ==> #[trigger] request@.input_item_types[i]
                == request.input_item_types@[i]@,
        request@.tool_choice is Some <==> request.tool_choice is Some,
        request.tool_choice matches Some(choice) ==> request@.tool_choice->0 == choice@,
        request@.reasoning is Some <==> request.reasoning is Some,
        request.reasoning matches Some(reasoning) ==> {
            &&& request@.reasoning->0.effort == reasoning.effort@
            &&& says(request@.reasoning->0.summary, reasoning.summary)
        },
        request@.tools is Some <==> request.tools is Some,
        request.tools matches Some(tools) ==> {
            let told = request@.tools->0;
            &&& told.len() == tools@.len()
            &&& forall|i: int|
                0 <= i < tools@.len() ==> {
                    &&& (#[trigger] told[i]).tool_type == tools@[i].tool_type@
                    &&& told[i].name == tools@[i].name@
                    &&& told[i].parameters == tools@[i].parameters@
                    &&& says(told[i].description, tools@[i].description)
                }
        },
{
}

/// Every block of an assistant message that is known becomes one part, which holds what
/// the block holds, reasoning included.
pub proof fn law_known_blocks_become_parts(
    parts: Seq<AssistantPart>,
    blocks: Vec<ContentBlock>,
)
    requires
        conversation::parts_of(parts, ContentValue::Blocks(blocks)),
        forall|i: int| 0 <= i < blocks@.len() ==> !((#[trigger] blocks@[i]) is Unknown),
    ensures
        parts.len() == blocks@.len(),
        forall|i: int|
            0 <= i < blocks@.len() ==> match #[trigger] blocks@[i] {
                ContentBlock::Text { text } => parts[i] matches AssistantPart::Text(words) && words@
                    == text@,
                ContentBlock::Thinking { thinking, .. } =>
                    parts[i] matches AssistantPart::Reasoning(words) && words@ == thinking@,
                ContentBlock::RedactedThinking { data } =>
                    parts[i] matches AssistantPart::Reasoning(words) && words@ == data@,
                ContentBlock::ToolUse { id, name, input } =>
                    parts[i] matches AssistantPart::ToolCall { id: call_id, name: n, input: v } && call_id@
                    == id@ && n@ == name@ && *v == input,
                ContentBlock::ToolResult { tool_use_id, content, .. } =>
                    parts[i] matches AssistantPart::ToolResult { tool_use_id: t, content: c } && t@
                    == tool_use_id@ && *c == content,
                ContentBlock::Image { source } => parts[i] matches AssistantPart::Image {
                    source: s,
                } && *s == source,
                ContentBlock::Unknown => false,
            },
{
    lemma_all_known(blocks@);
    assert forall|i: int| 0 <= i < parts.len() implies conversation::part_of_block(
        #[trigger] parts[i],
        blocks@[i],
    ) by {}
    assert forall|i: int| 0 <= i < blocks@.len() implies match #[trigger] blocks@[i] {
        ContentBlock::Text { text } => parts[i] matches AssistantPart::Text(words) && words@
            == text@,
        ContentBlock::Thinking { thinking, .. } => parts[i] matches AssistantPart::Reasoning(words)
            && words@ == thinking@,
        ContentBlock::RedactedThinking { data } => parts[i] matches AssistantPart::Reasoning(words)
            && words@ == data@,
        ContentBlock::ToolUse { id, name, input } => parts[i] matches AssistantPart::ToolCall {
            id: call_id,
            name: n,
            input: v,
        } && call_id@ == id@ && n@ == name@ && *v == input,
        ContentBlock::ToolResult { tool_use_id, content, .. } =>
            parts[i] matches AssistantPart::ToolResult { tool_use_id: t, content: c } && t@
            == tool_use_id@ && *c == content,
        ContentBlock::Image { source } => parts[i] matches AssistantPart::Image { source: s } && *s
            == source,
        ContentBlock::Unknown => false,
    } by {
        assert(conversation::part_of_block(parts[i], blocks@[i]));
    }
}

proof fn lemma_all_known(blocks: Seq<ContentBlock>)
    requires
        forall|i: int| 0 <= i < blocks.len() ==> !((#[trigger] blocks[i]) is Unknown),
    ensures
        conversation::known_blocks(blocks) == blocks,
    decreases blocks.len(),
{
    if blocks.len() > 0 {
        let front = blocks.drop_last();
        assert forall|i: int| 0 <= i < front.len() implies !((#[trigger] front[i]) is Unknown) by {
            assert(front[i] == blocks[i]);
        }
        lemma_all_known(front);
        assert(!(blocks[blocks.len() - 1] is Unknown));
        assert(conversation::known_blocks(blocks) =~= blocks);
    }
}

/// A member of an object is found under its name, and a value that is no object has none.
pub proof fn law_members_are_found(members: Map<Seq<char>, JsonView>, name: Seq<char>, v: JsonView)
    ensures
        members.contains_key(name) ==> JsonView::Object(members).get(name) == Some(members[name]),
        !members.contains_key(name) ==> JsonView::Object(members).get(name) is None,
        !(v is Object) ==> v.get(name) is None,
{
}

/// Of two members with one name the later one counts, and the others stay.
pub proof fn law_later_members_count(
    entries: Seq<(String, Json)>,
    name: String,
    value: Json,
    other: Seq<char>,
)
    requires
        other != name@,
    ensures
        ({
            let before = JsonView::Object(json::entries_view(entries));
            let after = JsonView::Object(json::entries_view(entries.push((name, value))));
            &&& after.get(name@) == Some(value@)
            &&& after.get(other) == before.get(other)
        }),
{
    assert(entries.push((name, value)).drop_last() =~= entries);
}

/// Texts and optional texts are taken as they are.
pub proof fn law_texts_are_taken_as_they_are(held: Option<String>, strings: Seq<String>, i: int)
    requires
        0 <= i < strings.len(),
    ensures
        says(text::opt_text(held), held),
        text::texts(strings).len() == strings.len(),
        text::texts(strings)[i] == strings[i]@,
{
}

/// A cache policy says what it holds.
pub proof fn law_policies_say_what_they_hold(policy: CachePolicy)
    ensures
        policy@.usage == policy.usage,
        policy@.prompt_cache_key_enabled == policy.prompt_cache_key_enabled,
        says(policy@.upstream, policy.upstream),
        policy@.effort_enum is Some <==> policy.effort_enum is Some,
        policy@.replay == policy.replay,
        policy@.history == policy.history,
        policy@.relocate == policy.relocate,
        says(policy@.pinned_effort, policy.pinned_effort),
{
}

} // verus!
