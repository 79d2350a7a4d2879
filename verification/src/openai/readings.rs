//! How the JSON of a chunk is read: member by member, and part by part.

use crate::json::{self, JsonView};
use crate::openai::types::{
    self as openai, ChatDeltaView, DeltaContentView, FunctionDeltaView, ToolCallDeltaView,
};
use vstd::prelude::*;

verus! {

/// Whether a member says nothing: it is absent or null.
pub open spec fn says_nothing(member: Option<JsonView>) -> bool {
    member is None || member == Some(JsonView::Null)
}

/// Whether a member is read as an optional text: none where it says nothing, and its
/// characters where it is a string.
pub open spec fn reads_text(member: Option<JsonView>, text: Option<Seq<char>>) -> bool {
    match text {
        None => says_nothing(member),
        Some(s) => member == Some(JsonView::String(s)),
    }
}

/// Whether a member is read as an optional count: none where it says nothing, and its
/// value where it is a natural number that fits.
pub open spec fn reads_count(member: Option<JsonView>, count: Option<u32>) -> bool {
    match count {
        None => says_nothing(member),
        Some(n) => member matches Some(JsonView::Number(number)) && json::number_natural(number)
            == Some(n as u64),
    }
}

/// Whether a member can be read as an optional text.
pub open spec fn is_text_or_nothing(member: Option<JsonView>) -> bool {
    says_nothing(member) || member->0 is String
}

/// Whether a member can be read as an optional count.
pub open spec fn is_count_or_nothing(member: Option<JsonView>) -> bool {
    says_nothing(member) || (member matches Some(JsonView::Number(number))
        && json::number_natural(number) matches Some(n) && n <= u32::MAX)
}

/// Whether a member is read as the function part of a tool call.
pub open spec fn reads_function(
    member: Option<JsonView>,
    function: Option<FunctionDeltaView>,
) -> bool {
    match function {
        None => says_nothing(member),
        Some(f) => {
            &&& member matches Some(v)
            &&& v is Object
            &&& reads_text(v.get("name"@), f.name)
            &&& reads_text(v.get("arguments"@), f.arguments)
        },
    }
}

/// Whether a value is read as one part of a tool call.
pub open spec fn reads_call(value: JsonView, call: ToolCallDeltaView) -> bool {
    &&& value is Object
    &&& reads_count(value.get("index"@), call.index)
    &&& reads_text(value.get("id"@), call.id)
    &&& reads_function(value.get("function"@), call.function)
}

/// Whether a member is read as the parts of tool calls: one for each item, in order.
pub open spec fn reads_calls(
    member: Option<JsonView>,
    calls: Option<Seq<ToolCallDeltaView>>,
) -> bool {
    match calls {
        None => says_nothing(member),
        Some(calls) => {
            &&& member matches Some(JsonView::Array(items))
            &&& items.len() == calls.len()
            &&& forall|i: int| 0 <= i < calls.len() ==> reads_call(items[i], #[trigger] calls[i])
        },
    }
}

/// Whether a value can be read as one part of a tool call.
pub open spec fn is_call_part(value: JsonView) -> bool {
    &&& value is Object
    &&& is_count_or_nothing(value.get("index"@))
    &&& is_text_or_nothing(value.get("id"@))
    &&& {
        let function = value.get("function"@);
        says_nothing(function) || (function->0 is Object && is_text_or_nothing(function->0.get("name"@))
            && is_text_or_nothing(function->0.get("arguments"@)))
    }
}

/// Whether a value can be read as a streamed change.
pub open spec fn is_change(value: JsonView) -> bool {
    &&& value is Object
    &&& is_text_or_nothing(value.get("role"@))
    &&& {
        let calls = value.get("tool_calls"@);
        says_nothing(calls) || (calls matches Some(JsonView::Array(items)) && forall|i: int|
            0 <= i < items.len() ==> is_call_part(#[trigger] items[i]))
    }
}

proof fn lemma_text(member: Option<JsonView>)
    ensures
        openai::string_field(member) is Some <==> is_text_or_nothing(member),
        openai::string_field(member) is Some ==> reads_text(
            member,
            openai::string_field(member)->0,
        ),
{
}

proof fn lemma_count(member: Option<JsonView>)
    ensures
        openai::count_field(member) is Some <==> is_count_or_nothing(member),
        openai::count_field(member) is Some ==> reads_count(
            member,
            openai::count_field(member)->0,
        ),
{
}

proof fn lemma_call(value: JsonView)
    ensures
        openai::tool_delta_of(value) is Some <==> is_call_part(value),
        openai::tool_delta_of(value) is Some ==> reads_call(
            value,
            openai::tool_delta_of(value)->0,
        ),
{
    lemma_count(value.get("index"@));
    lemma_text(value.get("id"@));
    match value.get("function"@) {
        Some(f) => {
            lemma_text(f.get("name"@));
            lemma_text(f.get("arguments"@));
        },
        None => {},
    }
}

proof fn lemma_calls(items: Seq<JsonView>)
    ensures
        openai::tool_deltas_of(items) is Some <==> forall|i: int|
            0 <= i < items.len() ==> is_call_part(#[trigger] items[i]),
        openai::tool_deltas_of(items) is Some ==> reads_calls(
            Some(JsonView::Array(items)),
            openai::tool_deltas_of(items),
        ),
    decreases items.len(),
{
    if items.len() > 0 {
        let front = items.drop_last();
        let last = items[items.len() - 1];
        lemma_calls(front);
        lemma_call(last);
        if openai::tool_deltas_of(items) is Some {
            let calls = openai::tool_deltas_of(items)->0;
            assert forall|i: int| 0 <= i < calls.len() implies reads_call(
                items[i],
                #[trigger] calls[i],
            ) by {
                if i < front.len() {
                    assert(front[i] == items[i]);
                    assert(openai::tool_deltas_of(front)->0[i] == calls[i]);
                }
            }
            assert forall|i: int| 0 <= i < items.len() implies is_call_part(#[trigger] items[i]) by {
                if i < front.len() {
                    assert(front[i] == items[i]);
                }
            }
        } else if forall|i: int| 0 <= i < items.len() ==> is_call_part(#[trigger] items[i]) {
            assert forall|i: int| 0 <= i < front.len() implies is_call_part(#[trigger] front[i]) by {
                assert(front[i] == items[i]);
            }
            assert(is_call_part(items[items.len() - 1]));
            assert(false);
        }
    }
}

/// A streamed change can be read exactly where each of its members can, and then each
/// member is read as what it says: no tool call part is lost, and none is added.
pub proof fn law_changes_are_read_member_by_member(value: JsonView)
    ensures
        openai::delta_of(value) is Ok <==> is_change(value),
        openai::delta_of(value) matches Ok(change) ==> {
            &&& reads_text(value.get("role"@), change.role)
            &&& reads_calls(value.get("tool_calls"@), change.tool_calls)
            &&& change.content == openai::content_of(value.get("content"@))
            &&& change.reasoning_content == openai::content_of(value.get("reasoning_content"@))
            &&& change.reasoning == openai::content_of(value.get("reasoning"@))
        },
{
    lemma_text(value.get("role"@));
    match value.get("tool_calls"@) {
        Some(JsonView::Array(items)) => lemma_calls(items),
        _ => {},
    }
}

/// The text of a field, or the empty one.
pub open spec fn words(content: DeltaContentView) -> Seq<char> {
    match content.text {
        Some(s) => s,
        None => Seq::empty(),
    }
}

/// A field that says nothing has no text, and the text of a string is the string.
pub proof fn law_plain_content_is_its_text(member: Option<JsonView>, s: Seq<char>)
    ensures
        says_nothing(member) ==> openai::content_of(member).text is None && openai::content_of(
            member,
        ).raw.len() == 0,
        openai::content_of(Some(JsonView::String(s))).text == Some(s),
        openai::content_of(Some(JsonView::String(s))).raw.len() == 0,
{
}

/// The text of a part, where it has one: a string, or an object with a string under
/// `text` or, failing that, under `summary_text`.
pub open spec fn has_words(part: JsonView, s: Seq<char>) -> bool {
    ||| part == JsonView::String(s)
    ||| part.get("text"@) == Some(JsonView::String(s))
    ||| {
        &&& !(part.get("text"@) matches Some(JsonView::String(_)))
        &&& part.get("summary_text"@) == Some(JsonView::String(s))
    }
}

/// A part is read as its text, on its own as well as in a list of one; a part without a
/// text is kept as it is.
pub proof fn law_parts_are_read_alone(part: JsonView)
    requires
        !(part is Null),
        !(part is Array),
    ensures
        ({
            let alone = openai::content_of(Some(part));
            let listed = openai::content_of(Some(JsonView::Array(seq![part])));
            &&& alone == listed
            &&& alone.text is Some ==> has_words(part, alone.text->0) && alone.raw.len() == 0
            &&& alone.text is None ==> alone.raw == seq![part] && forall|s: Seq<char>|
                !has_words(part, s)
        }),
{
    let list = seq![part];
    let none = Seq::<JsonView>::empty();
    assert(list.drop_last() =~= none);
    assert(openai::parts_text(none) is None);
    assert(openai::parts_raw(none) =~= none);
    assert(openai::content_of(Some(part)) =~= openai::content_of(Some(JsonView::Array(list))));
}

/// A part of a list that is null or a list itself has no text and is kept as it is.
pub proof fn law_nested_parts_have_no_text(part: JsonView)
    requires
        part is Null || part is Array || part is Bool || part is Number,
    ensures
        openai::content_of(Some(JsonView::Array(seq![part]))).text is None,
        openai::content_of(Some(JsonView::Array(seq![part]))).raw == seq![part],
{
    let list = seq![part];
    let none = Seq::<JsonView>::empty();
    assert(list.drop_last() =~= none);
    assert(openai::parts_text(none) is None);
    assert(openai::parts_raw(none) =~= none);
    assert(openai::parts_raw(list) =~= list);
}

/// A list of parts has the texts of its parts, one after the other, and what cannot be
/// read of it is what cannot be read of its parts: nothing is lost where a list is cut
/// in two.
pub proof fn law_parts_join_up(a: Seq<JsonView>, b: Seq<JsonView>)
    ensures
        ({
            let x = openai::content_of(Some(JsonView::Array(a)));
            let y = openai::content_of(Some(JsonView::Array(b)));
            let whole = openai::content_of(Some(JsonView::Array(a + b)));
            &&& words(whole) == words(x) + words(y)
            &&& whole.raw == x.raw + y.raw
            &&& whole.text is Some <==> x.text is Some || y.text is Some
        }),
    decreases b.len(),
{
    let x = openai::content_of(Some(JsonView::Array(a)));
    let y = openai::content_of(Some(JsonView::Array(b)));
    let whole = openai::content_of(Some(JsonView::Array(a + b)));
    if b.len() == 0 {
        assert(a + b =~= a);
        assert(words(whole) =~= words(x) + words(y));
        assert(whole.raw =~= x.raw + y.raw);
    } else {
        law_parts_join_up(a, b.drop_last());
        assert((a + b).drop_last() =~= a + b.drop_last());
        assert((a + b).last() == b.last());
        assert(words(whole) =~= words(x) + words(y));
        assert(whole.raw =~= x.raw + y.raw);
    }
}

/// A usage object is read exactly where each of its counts can be, and then each count
/// is the one that the object gives.
pub proof fn law_usage_is_read_member_by_member(value: JsonView)
    ensures
        openai::usage_of(value) is Some <==> {
            let details = value.get("prompt_tokens_details"@);
            &&& value is Object
            &&& is_count_or_nothing(value.get("prompt_tokens"@))
            &&& is_count_or_nothing(value.get("completion_tokens"@))
            &&& is_count_or_nothing(value.get("total_tokens"@))
            &&& is_count_or_nothing(value.get("prompt_cache_hit_tokens"@))
            &&& is_count_or_nothing(value.get("prompt_cache_miss_tokens"@))
            &&& is_count_or_nothing(value.get("cached_tokens"@))
            &&& says_nothing(details) || (details->0 is Object && is_count_or_nothing(
                details->0.get("cached_tokens"@),
            ))
        },
        openai::usage_of(value) matches Some(usage) ==> {
            let details = value.get("prompt_tokens_details"@);
            &&& reads_count(value.get("prompt_tokens"@), usage.prompt_tokens)
            &&& reads_count(value.get("completion_tokens"@), usage.completion_tokens)
            &&& reads_count(value.get("total_tokens"@), usage.total_tokens)
            &&& reads_count(value.get("prompt_cache_hit_tokens"@), usage.prompt_cache_hit_tokens)
            &&& reads_count(value.get("prompt_cache_miss_tokens"@), usage.prompt_cache_miss_tokens)
            &&& reads_count(value.get("cached_tokens"@), usage.cached_tokens)
            &&& match usage.prompt_tokens_details {
                None => says_nothing(details),
                Some(nested) => details is Some && details->0 is Object && reads_count(
                    details->0.get("cached_tokens"@),
                    nested.cached_tokens,
                ),
            }
        },
{
    lemma_count(value.get("prompt_tokens"@));
    lemma_count(value.get("completion_tokens"@));
    lemma_count(value.get("total_tokens"@));
    lemma_count(value.get("prompt_cache_hit_tokens"@));
    lemma_count(value.get("prompt_cache_miss_tokens"@));
    lemma_count(value.get("cached_tokens"@));
    match value.get("prompt_tokens_details"@) {
        Some(details) => lemma_count(details.get("cached_tokens"@)),
        None => {},
    }
}

/// What a change says under a name of a reasoning field; the empty text where it says
/// nothing, or where no field has the name.
pub open spec fn under_name(change: ChatDeltaView, name: Seq<char>) -> Seq<char> {
    if name == "reasoning_content"@ {
        words(change.reasoning_content)
    } else if name == "reasoning"@ {
        words(change.reasoning)
    } else {
        Seq::empty()
    }
}

/// The reasoning of a change is what it says under the first of the names under which it
/// says something; there is none where it says nothing under any.
pub proof fn law_the_first_reasoning_counts(
    change: ChatDeltaView,
    primary: Seq<char>,
    alternatives: Seq<Seq<char>>,
)
    ensures
        ({
            let names = seq![primary] + alternatives;
            match change.get_reasoning(primary, alternatives) {
                None => forall|k: int|
                    0 <= k < names.len() ==> under_name(change, #[trigger] names[k]).len() == 0,
                Some(thought) => thought.len() > 0 && exists|k: int|
                    {
                        &&& 0 <= k < names.len()
                        &&& under_name(change, #[trigger] names[k]) == thought
                        &&& forall|j: int|
                            0 <= j < k ==> under_name(change, #[trigger] names[j]).len() == 0
                    },
            }
        }),
    decreases alternatives.len(),
{
    let names = seq![primary] + alternatives;
    assert(names[0] == primary);
    let here = openai::named_text(
        primary,
        change.reasoning_content.text,
        change.reasoning.text,
    );
    if here is Some {
        assert(under_name(change, names[0]) == here->0);
    } else if alternatives.len() > 0 {
        let rest = alternatives.drop_first();
        let others = seq![alternatives[0]] + rest;
        law_the_first_reasoning_counts(change, alternatives[0], rest);
        assert(others =~= alternatives);
        match change.get_reasoning(primary, alternatives) {
            None => {
                assert forall|k: int| 0 <= k < names.len() implies under_name(
                    change,
                    #[trigger] names[k],
                ).len() == 0 by {
                    if k > 0 {
                        assert(names[k] == others[k - 1]);
                    }
                }
            },
            Some(thought) => {
                let k = choose|k: int|
                    {
                        &&& 0 <= k < others.len()
                        &&& under_name(change, #[trigger] others[k]) == thought
                        &&& forall|j: int|
                            0 <= j < k ==> under_name(change, #[trigger] others[j]).len() == 0
                    };
                assert(names[k + 1] == others[k]);
                assert forall|j: int| 0 <= j < k + 1 implies under_name(
                    change,
                    #[trigger] names[j],
                ).len() == 0 by {
                    if j > 0 {
                        assert(names[j] == others[j - 1]);
                    }
                }
            },
        }
    } else {
        assert(names =~= seq![primary]);
    }
}

/// A change is refused for what cannot be read of it exactly where none of its fields
/// has any text and something of one of them cannot be read.
pub proof fn law_what_makes_a_change_unreadable(change: ChatDeltaView)
    ensures
        change.has_unparseable_content() <==> change.content.raw.len() > 0
            || change.reasoning_content.raw.len() > 0 || change.reasoning.raw.len() > 0,
        change.has_no_text() <==> words(change.content).len() == 0 && words(
            change.reasoning_content,
        ).len() == 0 && words(change.reasoning).len() == 0,
{
}

/// What cannot be read of a change is shown as JSON, value by value with a mark between
/// two of them, and no more than the beginning of it.
pub proof fn law_previews_show_the_beginning(change: ChatDeltaView)
    ensures
        ({
            let raw = change.content.raw + change.reasoning_content.raw + change.reasoning.raw;
            let shown = openai::raw_texts(raw);
            &&& change.preview().len() <= 500
            &&& change.preview() == shown.take(change.preview().len() as int)
            &&& change.preview().len() < 500 ==> change.preview() == shown
        }),
{
    let raw = change.content.raw + change.reasoning_content.raw + change.reasoning.raw;
    assert(openai::raw_texts(raw).take(openai::raw_texts(raw).len() as int)
        =~= openai::raw_texts(raw));
}

/// A value is shown behind those before it.
pub proof fn law_values_are_shown_in_order(raw: Seq<JsonView>, value: JsonView)
    ensures
        openai::raw_texts(Seq::empty()).len() == 0,
        openai::raw_texts(raw.push(value)) == if openai::raw_texts(raw).len() == 0 {
            json::json_text(value)
        } else {
            openai::raw_texts(raw) + "; "@ + json::json_text(value)
        },
{
    assert(raw.push(value).drop_last() =~= raw);
}

} // verus!
