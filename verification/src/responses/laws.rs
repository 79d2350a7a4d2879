//! What holds of every Responses request.

use crate::anthropic::types::{Message, MessagesRequest};
use crate::config::Config;
use crate::json::{Json, JsonView};
use crate::responses::request::{self, Relocated};
use crate::responses::types::{ReasoningView, ResponsesView};
use crate::text;
use vstd::prelude::*;

verus! {

/// The input is the stored history and at most one item behind it, which is there
/// exactly where texts were moved out of the system prompt: a user message with the
/// texts.
pub proof fn law_input_is_history_and_tail(
    req: MessagesRequest,
    config: Config,
    relocate: bool,
    moved: Relocated,
)
    ensures
        ({
            let converted = request::converted_request(req, config, relocate, moved);
            let history = request::history_items(req.messages@);
            let volatile = request::system_and_tail(req, relocate, moved).1;
            &&& converted.synthetic_tail_present <==> volatile.len() > 0
            &&& converted.input == if converted.synthetic_tail_present {
                history.push(
                    request::message_item(
                        "user"@,
                        seq![
                            request::text_item(
                                "input_text"@,
                                request::tail_intro() + request::lines_of(volatile),
                            ),
                        ],
                    ),
                )
            } else {
                history
            }
        }),
{
    let converted = request::converted_request(req, config, relocate, moved);
    let history = request::history_items(req.messages@);
    let volatile = request::system_and_tail(req, relocate, moved).1;
    if volatile.len() > 0 {
        assert(converted.input =~= history.push(request::tail_items(volatile)[0]));
    } else {
        assert(converted.input =~= history);
    }
}

/// Without relocation nothing is moved, and without messages neither: what relocation
/// would make of the system prompt does not show.
pub proof fn law_unrelocated_requests_move_nothing(
    req: MessagesRequest,
    config: Config,
    relocate: bool,
    x: Relocated,
    y: Relocated,
)
    requires
        !relocate || req.messages@.len() == 0,
    ensures
        request::converted_request(req, config, relocate, x) == request::converted_request(
            req,
            config,
            relocate,
            y,
        ),
        !request::converted_request(req, config, relocate, x).synthetic_tail_present,
        request::converted_request(req, config, relocate, x).input == request::history_items(
            req.messages@,
        ),
{
    law_input_is_history_and_tail(req, config, relocate, x);
}

/// What is moved out of the system prompt never touches the history: two requests with
/// the same messages have the same history items, whatever was moved.
pub proof fn law_moved_texts_leave_history_alone(
    a: MessagesRequest,
    b: MessagesRequest,
    config: Config,
    p: bool,
    q: bool,
    x: Relocated,
    y: Relocated,
)
    requires
        a.messages@ == b.messages@,
    ensures
        ({
            let n = request::history_items(a.messages@).len() as int;
            let one = request::converted_request(a, config, p, x).input;
            let other = request::converted_request(b, config, q, y).input;
            one.take(n) == other.take(n)
        }),
{
    let history = request::history_items(a.messages@);
    let n = history.len() as int;
    let one = request::converted_request(a, config, p, x).input;
    let other = request::converted_request(b, config, q, y).input;
    assert(one.take(n) =~= history);
    assert(other.take(n) =~= history);
}

/// What is moved out of the system prompt shows in the input: two relocated requests with
/// the same messages and other texts have other inputs.
pub proof fn law_moved_texts_show_in_the_input(
    a: MessagesRequest,
    b: MessagesRequest,
    config: Config,
    x: Relocated,
    y: Relocated,
)
    requires
        a.messages@ == b.messages@,
        a.messages@.len() > 0,
        request::lines_of(text::texts(x.volatile_texts@)) != request::lines_of(
            text::texts(y.volatile_texts@),
        ),
    ensures
        request::converted_request(a, config, true, x).input != request::converted_request(
            b,
            config,
            true,
            y,
        ).input,
{
    let history = request::history_items(a.messages@);
    let one = request::converted_request(a, config, true, x).input;
    let other = request::converted_request(b, config, true, y).input;
    let s = text::texts(x.volatile_texts@);
    let t = text::texts(y.volatile_texts@);
    law_input_is_history_and_tail(a, config, true, x);
    law_input_is_history_and_tail(b, config, true, y);
    if one == other {
        assert(one.len() == other.len());
        let u = request::tail_intro() + request::lines_of(s);
        let v = request::tail_intro() + request::lines_of(t);
        let p = request::text_item("input_text"@, u);
        let q = request::text_item("input_text"@, v);
        assert(one.last() == request::message_item("user"@, seq![p]));
        assert(other.last() == request::message_item("user"@, seq![q]));
        assert(one.last().get("content"@) == Some(JsonView::Array(seq![p])));
        assert(other.last().get("content"@) == Some(JsonView::Array(seq![q])));
        assert(seq![p][0] == seq![q][0]);
        assert(p.get("text"@) == Some(JsonView::String(u)));
        assert(q.get("text"@) == Some(JsonView::String(v)));
        let n = request::tail_intro().len() as int;
        assert(u.skip(n) =~= request::lines_of(s));
        assert(v.skip(n) =~= request::lines_of(t));
    }
}

/// Whether a function hashes what a value says, whatever the order of its members.
pub open spec fn hashes_values<F: Fn(&Json) -> String>(hash: F) -> bool {
    forall|j: Json, k: Json, s: String, t: String|
        j@ == k@ && #[trigger] hash.ensures((&j,), s) && #[trigger] hash.ensures((&k,), t) ==> s@
            == t@
}

/// Two requests with the same messages have the same hash of their history, whatever was
/// moved out of their system prompts; and where nothing was moved, the hash of the
/// history is that of the whole input.
pub proof fn law_history_hashes_agree<F: Fn(&Json) -> String>(
    hash: F,
    a: MessagesRequest,
    b: MessagesRequest,
    config: Config,
    p: bool,
    q: bool,
    x: Relocated,
    y: Relocated,
    one: Seq<char>,
    other: Seq<char>,
    whole: Seq<char>,
)
    requires
        hashes_values(hash),
        a.messages@ == b.messages@,
        ({
            let n = request::history_items(a.messages@).len() as int;
            let s = request::converted_request(a, config, p, x).input;
            let t = request::converted_request(b, config, q, y).input;
            &&& request::hashes_to(hash, JsonView::Array(s.take(n)), one)
            &&& request::hashes_to(hash, JsonView::Array(t.take(n)), other)
            &&& request::hashes_to(hash, JsonView::Array(t), whole)
        }),
    ensures
        one == other,
        !request::converted_request(b, config, q, y).synthetic_tail_present ==> other == whole,
{
    law_moved_texts_leave_history_alone(a, b, config, p, q, x, y);
    law_input_is_history_and_tail(b, config, q, y);
    let n = request::history_items(a.messages@).len() as int;
    let t = request::converted_request(b, config, q, y).input;
    if !request::converted_request(b, config, q, y).synthetic_tail_present {
        assert(t.take(n) =~= t);
    }
}

/// A longer conversation begins with the items of the shorter one: earlier turns are
/// never rewritten.
pub proof fn law_later_turns_extend_history(earlier: Seq<Message>, later: Seq<Message>)
    ensures
        request::history_items(earlier + later) == request::history_items(earlier)
            + request::history_items(later),
    decreases later.len(),
{
    if later.len() == 0 {
        assert(earlier + later =~= earlier);
        assert(request::history_items(earlier) + Seq::<JsonView>::empty()
            =~= request::history_items(earlier));
    } else {
        assert((earlier + later).drop_last() =~= earlier + later.drop_last());
        assert((earlier + later).last() == later.last());
        law_later_turns_extend_history(earlier, later.drop_last());
        let items = request::content_items(later.last().role@, later.last().content);
        let front = request::history_items(later.drop_last());
        assert(request::history_items(earlier) + front + items =~= request::history_items(
            earlier,
        ) + (front + items));
    }
}

/// The way in which summaries are asked for is no part of the static prefix, nor of
/// the input.
pub proof fn law_summaries_do_not_change_the_prefix(
    converted: ResponsesView,
    summary: Option<Seq<char>>,
)
    requires
        converted.reasoning is Some,
    ensures
        request::static_prefix_of(converted) == request::static_prefix_of(
            ResponsesView {
                reasoning: Some(ReasoningView { summary, ..converted.reasoning->0 }),
                ..converted
            },
        ),
{
}

/// What is said in the conversation is no part of the static prefix.
pub proof fn law_turns_do_not_change_the_prefix(converted: ResponsesView, input: Seq<JsonView>)
    ensures
        request::static_prefix_of(converted) == request::static_prefix_of(
            ResponsesView {
                input,
                input_item_types: request::item_types(input),
                ..converted
            },
        ),
{
}

} // verus!
