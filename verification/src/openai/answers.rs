//! What a whole answer keeps of the completion that it is made of.

use crate::anthropic::types::BlockView;
use crate::cache::{self, CachePolicy, UsagePolicy};
use crate::json::{self, JsonView};
use crate::openai::converter;
use crate::openai::types::{self as openai, ChatCompletionResponse, ChatMessage, ToolCall, Usage};
use crate::text;
use vstd::prelude::*;

verus! {

/// What the text blocks of an answer say, in order.
pub open spec fn texts_in(blocks: Seq<BlockView>) -> Seq<Seq<char>>
    decreases blocks.len(),
{
    if blocks.len() == 0 {
        Seq::empty()
    } else {
        let front = texts_in(blocks.drop_last());
        match blocks.last() {
            BlockView::Text { text } => front.push(text),
            _ => front,
        }
    }
}

/// What the thinking blocks of an answer say, in order, each with its signature.
pub open spec fn thoughts_in(blocks: Seq<BlockView>) -> Seq<(Seq<char>, Seq<char>)>
    decreases blocks.len(),
{
    if blocks.len() == 0 {
        Seq::empty()
    } else {
        let front = thoughts_in(blocks.drop_last());
        match blocks.last() {
            BlockView::Thinking { thinking, signature } => front.push((thinking, signature)),
            _ => front,
        }
    }
}

/// The tool uses of an answer, in order: identifier, name and input.
pub open spec fn calls_in(blocks: Seq<BlockView>) -> Seq<(Seq<char>, Seq<char>, JsonView)>
    decreases blocks.len(),
{
    if blocks.len() == 0 {
        Seq::empty()
    } else {
        let front = calls_in(blocks.drop_last());
        match blocks.last() {
            BlockView::ToolUse { id, name, input } => front.push((id, name, input)),
            _ => front,
        }
    }
}

/// The place of a block in an answer: thinking comes first, then text, then tool use.
pub open spec fn rank(block: BlockView) -> int {
    match block {
        BlockView::Thinking { .. } => 0,
        BlockView::Text { .. } => 1,
        BlockView::ToolUse { .. } => 2,
    }
}

/// Whether thinking comes before text, and text before tool use.
pub open spec fn ranked(blocks: Seq<BlockView>) -> bool {
    forall|i: int, j: int|
        0 <= i < j < blocks.len() ==> rank(#[trigger] blocks[i]) <= rank(#[trigger] blocks[j])
}

/// Whether every character of a text is white space.
pub open spec fn all_white(s: Seq<char>) -> bool {
    forall|i: int| 0 <= i < s.len() ==> text::is_white(#[trigger] s[i])
}

/// What a message says under a name of a reasoning field; the empty text where it says
/// nothing, or where no field has the name.
pub open spec fn under_name(message: ChatMessage, name: Seq<char>) -> Seq<char> {
    let field = if name == "reasoning_content"@ {
        message.reasoning_content
    } else if name == "reasoning"@ {
        message.reasoning
    } else {
        None
    };
    match field {
        Some(words) => words@,
        None => Seq::empty(),
    }
}

/// Whether a text is the reasoning that counts: that of the first name under which the
/// message says something, and nothing where it says nothing under any.
pub open spec fn is_reasoning(
    message: ChatMessage,
    names: Seq<Seq<char>>,
    words: Seq<char>,
) -> bool {
    ||| {
        &&& words.len() == 0
        &&& forall|k: int|
            0 <= k < names.len() ==> under_name(message, #[trigger] names[k]).len() == 0
    }
    ||| {
        &&& words.len() > 0
        &&& exists|k: int|
            {
                &&& 0 <= k < names.len()
                &&& under_name(message, #[trigger] names[k]) == words
                &&& forall|j: int|
                    0 <= j < k ==> under_name(message, #[trigger] names[j]).len() == 0
            }
    }
}

/// Whether a tool use stands for a tool call: it has its identifier, the name of its
/// function and, as JSON, its arguments. Arguments that are no JSON are null.
pub open spec fn stands_for(
    tool_use: (Seq<char>, Seq<char>, JsonView),
    call: ToolCall,
) -> bool {
    let (id, name, input) = tool_use;
    &&& id == call.id@
    &&& match call.function {
        Some(f) => {
            &&& name == f.name@
            &&& match json::json_of_text(f.arguments@) {
                Some(value) => input == value,
                None => input is Null,
            }
        },
        None => name == "unknown"@ && input is Null,
    }
}

/// Whether counts are those of a usage object. With raw reporting, the count of tokens
/// read from the cache is the first one that the upstream gives, and none are called
/// created; without it, the read count is the nested one, and what it leaves of the
/// prompt is called created.
pub open spec fn cache_counts(
    usage: Usage,
    raw: bool,
    read: Option<u32>,
    creation: Option<u32>,
) -> bool {
    let nested = match usage.prompt_tokens_details {
        Some(details) => details.cached_tokens,
        None => None,
    };
    if raw {
        &&& creation is None
        &&& usage.cached_tokens is Some ==> read == usage.cached_tokens
        &&& usage.cached_tokens is None && nested is Some ==> read == nested
        &&& usage.cached_tokens is None && nested is None ==> read
            == usage.prompt_cache_hit_tokens
    } else {
        &&& read == nested
        &&& creation is Some <==> usage.prompt_tokens is Some && nested is Some
        &&& creation is Some ==> if nested->0 <= usage.prompt_tokens->0 {
            creation->0 + nested->0 == usage.prompt_tokens->0
        } else {
            creation->0 == 0
        }
    }
}

/// The blocks of two lists, read one after the other.
proof fn lemma_read_concat(a: Seq<BlockView>, b: Seq<BlockView>)
    ensures
        texts_in(a + b) == texts_in(a) + texts_in(b),
        thoughts_in(a + b) == thoughts_in(a) + thoughts_in(b),
        calls_in(a + b) == calls_in(a) + calls_in(b),
    decreases b.len(),
{
    if b.len() == 0 {
        assert(a + b =~= a);
        assert(texts_in(a) + texts_in(b) =~= texts_in(a));
        assert(thoughts_in(a) + thoughts_in(b) =~= thoughts_in(a));
        assert(calls_in(a) + calls_in(b) =~= calls_in(a));
    } else {
        lemma_read_concat(a, b.drop_last());
        assert((a + b).drop_last() =~= a + b.drop_last());
        assert((a + b).last() == b.last());
        assert(texts_in(a + b) =~= texts_in(a) + texts_in(b));
        assert(thoughts_in(a + b) =~= thoughts_in(a) + thoughts_in(b));
        assert(calls_in(a + b) =~= calls_in(a) + calls_in(b));
    }
}

/// A list of at most one block, read.
proof fn lemma_read_one(blocks: Seq<BlockView>)
    requires
        blocks.len() <= 1,
    ensures
        texts_in(blocks) == if blocks.len() == 1 && blocks[0] is Text {
            seq![blocks[0]->Text_text]
        } else {
            Seq::empty()
        },
        thoughts_in(blocks) == if blocks.len() == 1 && blocks[0] is Thinking {
            seq![(blocks[0]->thinking, blocks[0]->signature)]
        } else {
            Seq::empty()
        },
        calls_in(blocks) == if blocks.len() == 1 && blocks[0] is ToolUse {
            seq![(blocks[0]->id, blocks[0]->name, blocks[0]->input)]
        } else {
            Seq::empty()
        },
{
    if blocks.len() == 1 {
        let none = Seq::<BlockView>::empty();
        assert(blocks.drop_last() =~= none);
        assert(texts_in(none) =~= Seq::empty());
        assert(thoughts_in(none) =~= Seq::empty());
        assert(calls_in(none) =~= Seq::empty());
    }
}

/// Tool uses, read.
proof fn lemma_read_calls(blocks: Seq<BlockView>)
    requires
        forall|i: int| 0 <= i < blocks.len() ==> (#[trigger] blocks[i]) is ToolUse,
    ensures
        texts_in(blocks) == Seq::<Seq<char>>::empty(),
        thoughts_in(blocks) == Seq::<(Seq<char>, Seq<char>)>::empty(),
        calls_in(blocks).len() == blocks.len(),
        forall|i: int|
            0 <= i < blocks.len() ==> #[trigger] calls_in(blocks)[i] == (
                blocks[i]->id,
                blocks[i]->name,
                blocks[i]->input,
            ),
    decreases blocks.len(),
{
    if blocks.len() > 0 {
        let front = blocks.drop_last();
        assert forall|i: int| 0 <= i < front.len() implies (#[trigger] front[i]) is ToolUse by {
            assert(front[i] == blocks[i]);
        }
        lemma_read_calls(front);
        assert(blocks[blocks.len() - 1] is ToolUse);
        assert forall|i: int| 0 <= i < blocks.len() implies #[trigger] calls_in(blocks)[i] == (
            blocks[i]->id,
            blocks[i]->name,
            blocks[i]->input,
        ) by {
            if i < front.len() {
                assert(calls_in(front)[i] == calls_in(blocks)[i]);
                assert(front[i] == blocks[i]);
            }
        }
    }
}

/// The reasoning of a message is that of the first name under which it says something.
proof fn lemma_reasoning(message: ChatMessage, primary: Seq<char>, alternatives: Seq<Seq<char>>)
    ensures
        is_reasoning(
            message,
            seq![primary] + alternatives,
            converter::or_else(message.reasoning_of(primary, alternatives), Seq::empty()),
        ),
    decreases alternatives.len(),
{
    let names = seq![primary] + alternatives;
    let words = converter::or_else(message.reasoning_of(primary, alternatives), Seq::empty());
    assert(names[0] == primary);
    let here = openai::named_text(
        primary,
        text::opt_text(message.reasoning_content),
        text::opt_text(message.reasoning),
    );
    if here is Some {
        assert(under_name(message, names[0]) == words);
    } else if alternatives.len() > 0 {
        let rest = alternatives.drop_first();
        let others = seq![alternatives[0]] + rest;
        lemma_reasoning(message, alternatives[0], rest);
        assert(others =~= alternatives);
        if words.len() == 0 {
            assert forall|k: int| 0 <= k < names.len() implies under_name(
                message,
                #[trigger] names[k],
            ).len() == 0 by {
                if k > 0 {
                    assert(names[k] == others[k - 1]);
                }
            }
        } else {
            let k = choose|k: int|
                {
                    &&& 0 <= k < others.len()
                    &&& under_name(message, #[trigger] others[k]) == words
                    &&& forall|j: int|
                        0 <= j < k ==> under_name(message, #[trigger] others[j]).len() == 0
                };
            assert(names[k + 1] == others[k]);
            assert forall|j: int| 0 <= j < k + 1 implies under_name(
                message,
                #[trigger] names[j],
            ).len() == 0 by {
                if j > 0 {
                    assert(names[j] == others[j - 1]);
                }
            }
        }
    } else {
        assert(names =~= seq![primary]);
    }
}

/// An answer holds the whole message, whatever the message holds: its text exactly, in
/// one block, unless it is all white space; its reasoning exactly, in one signed block,
/// unless it is all white space; and one tool use for each tool call, in order. Thinking
/// comes first, then text, then tool use.
pub proof fn law_answers_hold_the_whole_message(
    response: ChatCompletionResponse,
    message: ChatMessage,
    model: Seq<char>,
    msg_id: Seq<char>,
    primary: Seq<char>,
    alternatives: Seq<Seq<char>>,
    raw: bool,
)
    requires
        response.choices@.len() > 0,
        response.choices@[0].message == Some(message),
    ensures
        ({
            let content = converter::response_of(
                response,
                model,
                msg_id,
                primary,
                alternatives,
                raw,
            ).content;
            &&& ranked(content)
            &&& texts_in(content) == match message.content {
                Some(words) => if all_white(words@) {
                    Seq::empty()
                } else {
                    seq![words@]
                },
                None => Seq::empty(),
            }
            &&& exists|words: Seq<char>|
                {
                    &&& #[trigger] is_reasoning(message, seq![primary] + alternatives, words)
                    &&& thoughts_in(content) == if all_white(words) {
                        Seq::empty()
                    } else {
                        seq![(words, "sig_proxy_placeholder"@)]
                    }
                }
            &&& match message.tool_calls {
                Some(calls) => {
                    &&& calls_in(content).len() == calls@.len()
                    &&& forall|i: int|
                        0 <= i < calls@.len() ==> stands_for(
                            #[trigger] calls_in(content)[i],
                            calls@[i],
                        )
                },
                None => calls_in(content).len() == 0,
            }
        }),
{
    let content = converter::response_of(
        response,
        model,
        msg_id,
        primary,
        alternatives,
        raw,
    ).content;
    let a = converter::thinking_blocks(message, primary, alternatives);
    let b = converter::text_blocks(message);
    let c = converter::tool_blocks(message);
    let words = converter::or_else(message.reasoning_of(primary, alternatives), Seq::empty());
    lemma_reasoning(message, primary, alternatives);
    lemma_read_one(a);
    lemma_read_one(b);
    lemma_read_calls(c);
    lemma_read_concat(a, b);
    lemma_read_concat(a + b, c);
    assert(texts_in(content) =~= texts_in(b));
    assert(thoughts_in(content) =~= thoughts_in(a));
    assert(calls_in(content) =~= calls_in(c));
    assert(thoughts_in(content) == if all_white(words) {
        Seq::empty()
    } else {
        seq![(words, "sig_proxy_placeholder"@)]
    });
    match message.tool_calls {
        Some(calls) => {
            assert forall|i: int| 0 <= i < calls@.len() implies stands_for(
                #[trigger] calls_in(content)[i],
                calls@[i],
            ) by {
                assert(c[i] == converter::tool_block(calls@[i]));
            }
        },
        None => {},
    }
}

/// An answer to a completion without a message is empty.
pub proof fn law_no_message_is_an_empty_answer(
    response: ChatCompletionResponse,
    model: Seq<char>,
    msg_id: Seq<char>,
    primary: Seq<char>,
    alternatives: Seq<Seq<char>>,
    raw: bool,
)
    requires
        response.choices@.len() > 0 ==> response.choices@[0].message is None,
    ensures
        converter::response_of(response, model, msg_id, primary, alternatives, raw).content.len()
            == 0,
{
}

/// Whether a stop reason is the name of a finish reason: three of them have names of
/// their own, and every other one keeps its own.
pub open spec fn names(stop_reason: Seq<char>, reason: Seq<char>) -> bool {
    &&& reason == "stop"@ ==> stop_reason == "end_turn"@
    &&& reason == "tool_calls"@ ==> stop_reason == "tool_use"@
    &&& reason == "length"@ ==> stop_reason == "max_tokens"@
    &&& reason != "stop"@ && reason != "tool_calls"@ && reason != "length"@ ==> stop_reason
        == reason
}

/// Every finish reason has one name.
pub proof fn law_finish_reasons_are_named(reason: Seq<char>)
    ensures
        names(converter::stop_reason_of(reason), reason),
{
    reveal_strlit("stop");
    reveal_strlit("tool_calls");
    reveal_strlit("length");
    assert("stop"@.len() != "tool_calls"@.len());
    assert("stop"@.len() != "length"@.len());
    assert("tool_calls"@.len() != "length"@.len());
}

/// The head of an answer: the identifier and the model are those that are given, and the
/// stop reason is the name of the first finish reason, or none where there is none.
pub proof fn law_answers_tell_how_they_ended(
    response: ChatCompletionResponse,
    model: Seq<char>,
    msg_id: Seq<char>,
    primary: Seq<char>,
    alternatives: Seq<Seq<char>>,
    raw: bool,
)
    ensures
        ({
            let answer = converter::response_of(
                response,
                model,
                msg_id,
                primary,
                alternatives,
                raw,
            );
            &&& answer.id == msg_id
            &&& answer.model == model
            &&& answer.role == "assistant"@
            &&& answer.response_type == "message"@
            &&& answer.stop_sequence is None
            &&& if response.choices@.len() > 0 && response.choices@[0].finish_reason is Some {
                answer.stop_reason matches Some(name) && names(
                    name,
                    response.choices@[0].finish_reason->0@,
                )
            } else {
                answer.stop_reason is None
            }
        }),
{
    if response.choices@.len() > 0 && response.choices@[0].finish_reason is Some {
        law_finish_reasons_are_named(response.choices@[0].finish_reason->0@);
    }
}

/// The counts of an answer are those of the usage object of the completion, whatever the
/// answer holds; where there is none they are zeros, and nothing is said of the cache.
pub proof fn law_answers_report_the_usage(
    response: ChatCompletionResponse,
    model: Seq<char>,
    msg_id: Seq<char>,
    primary: Seq<char>,
    alternatives: Seq<Seq<char>>,
    raw: bool,
)
    ensures
        ({
            let counts = converter::response_of(
                response,
                model,
                msg_id,
                primary,
                alternatives,
                raw,
            ).usage;
            match response.usage {
                Some(usage) => {
                    &&& counts.input_tokens == usage.prompt_tokens.unwrap_or(0)
                    &&& counts.output_tokens == usage.completion_tokens.unwrap_or(0)
                    &&& cache_counts(
                        usage,
                        raw,
                        counts.cache_read_input_tokens,
                        counts.cache_creation_input_tokens,
                    )
                },
                None => {
                    &&& counts.input_tokens == 0
                    &&& counts.output_tokens == 0
                    &&& counts.cache_read_input_tokens is None
                    &&& counts.cache_creation_input_tokens is None
                },
            }
        }),
{
}

/// Raw counts are reported exactly where a policy declares so.
pub proof fn law_raw_counts_are_declared(policy: Option<&CachePolicy>)
    ensures
        cache::raw_usage(policy) <==> policy is Some && policy->0.usage
            == UsagePolicy::TopLevelCachedTokens,
{
}

/// Only the first choice of a completion counts, and its identifier does not count at
/// all.
pub proof fn law_only_the_first_choice_counts(
    a: ChatCompletionResponse,
    b: ChatCompletionResponse,
    model: Seq<char>,
    msg_id: Seq<char>,
    primary: Seq<char>,
    alternatives: Seq<Seq<char>>,
    raw: bool,
)
    requires
        a.choices@.len() > 0,
        b.choices@.len() > 0,
        a.choices@[0].message == b.choices@[0].message,
        a.choices@[0].finish_reason == b.choices@[0].finish_reason,
        a.usage == b.usage,
    ensures
        converter::response_of(a, model, msg_id, primary, alternatives, raw)
            == converter::response_of(b, model, msg_id, primary, alternatives, raw),
{
}

} // verus!
