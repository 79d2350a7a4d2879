//! What a client reads of a stream, piece by piece.

use crate::anthropic::types::{BlockView, EventView, PieceView, StreamUsage};
use crate::json::JsonView;
use crate::openai::converter::{self, EmptyTextGuard, MachineView, OpenBlock};
use crate::openai::laws;
use crate::openai::types::{ChatDeltaView, ToolCallDeltaView, Usage};
use crate::text;
use vstd::prelude::*;

verus! {

/// The pieces of blocks that a list of events brings, in order and without signatures.
pub open spec fn pieces(events: Seq<EventView>) -> Seq<PieceView>
    decreases events.len(),
{
    if events.len() == 0 {
        Seq::empty()
    } else {
        let before = pieces(events.drop_last());
        match events.last() {
            EventView::BlockDelta { piece: PieceView::Signature(_), .. } => before,
            EventView::BlockDelta { piece, .. } => before.push(piece),
            _ => before,
        }
    }
}

/// The pieces that parts of tool calls bring: their arguments, in order.
pub open spec fn call_pieces(calls: Seq<ToolCallDeltaView>) -> Seq<PieceView>
    decreases calls.len(),
{
    if calls.len() == 0 {
        Seq::empty()
    } else {
        let before = call_pieces(calls.drop_last());
        match calls.last().function {
            Some(f) => match f.arguments {
                Some(arguments) => before.push(PieceView::InputJson(arguments)),
                None => before,
            },
            None => before,
        }
    }
}

/// The piece of a text, where it is not empty.
pub open spec fn text_pieces(words: Option<Seq<char>>) -> Seq<PieceView> {
    match words {
        Some(s) if s.len() > 0 => seq![PieceView::Text(s)],
        _ => Seq::empty(),
    }
}

/// The piece of reasoning, where there is some and the model reasons.
pub open spec fn thought_pieces(words: Option<Seq<char>>, reasons: bool) -> Seq<PieceView> {
    match words {
        Some(s) if reasons => seq![PieceView::Thinking(s)],
        _ => Seq::empty(),
    }
}

/// The pieces that a change brings: its reasoning, its text and its arguments, in this
/// order.
pub open spec fn change_pieces(m: MachineView, change: ChatDeltaView) -> Seq<PieceView> {
    thought_pieces(m.reasoning(change), m.is_reasoning_model) + text_pieces(change.content.text)
        + match change.tool_calls {
        Some(calls) => call_pieces(calls),
        None => Seq::empty(),
    }
}

/// The pieces that changes bring, one after the other.
pub open spec fn changes_pieces(
    m: MachineView,
    changes: Seq<(ChatDeltaView, Option<Usage>)>,
) -> Seq<PieceView>
    decreases changes.len(),
{
    if changes.len() == 0 {
        Seq::empty()
    } else {
        changes_pieces(m, changes.drop_last()) + change_pieces(m, changes.last().0)
    }
}

/// The pieces of two lists join.
pub proof fn lemma_pieces_concat(a: Seq<EventView>, b: Seq<EventView>)
    ensures
        pieces(a + b) == pieces(a) + pieces(b),
    decreases b.len(),
{
    if b.len() == 0 {
        assert(a + b =~= a);
        assert(pieces(a) + pieces(b) =~= pieces(a));
    } else {
        lemma_pieces_concat(a, b.drop_last());
        assert((a + b).drop_last() =~= a + b.drop_last());
        assert((a + b).last() == b.last());
        assert(pieces(a + b) =~= pieces(a) + pieces(b));
    }
}

/// Events without pieces bring none.
pub proof fn lemma_no_pieces(events: Seq<EventView>)
    requires
        forall|i: int|
            0 <= i < events.len() ==> match #[trigger] events[i] {
                EventView::BlockDelta { piece: PieceView::Signature(_), .. } => true,
                EventView::BlockDelta { .. } => false,
                _ => true,
            },
    ensures
        pieces(events) == Seq::<PieceView>::empty(),
    decreases events.len(),
{
    if events.len() > 0 {
        let last = events[events.len() - 1];
        assert(events.last() == last);
        lemma_no_pieces(events.drop_last());
    }
}

/// Events without pieces and one piece behind them.
proof fn lemma_one_piece(events: Seq<EventView>)
    requires
        events.len() > 0,
        forall|i: int|
            0 <= i < events.len() - 1 ==> match #[trigger] events[i] {
                EventView::BlockDelta { piece: PieceView::Signature(_), .. } => true,
                EventView::BlockDelta { .. } => false,
                _ => true,
            },
        events.last() matches EventView::BlockDelta { piece, .. } && !(piece is Signature),
    ensures
        pieces(events) == seq![events.last()->piece],
{
    let front = events.drop_last();
    assert forall|i: int| 0 <= i < front.len() implies match #[trigger] front[i] {
        EventView::BlockDelta { piece: PieceView::Signature(_), .. } => true,
        EventView::BlockDelta { .. } => false,
        _ => true,
    } by {
        assert(front[i] == events[i]);
    }
    lemma_no_pieces(front);
    assert(pieces(events) =~= seq![events.last()->piece]);
}

proof fn lemma_tool_pieces(m: MachineView, calls: Seq<ToolCallDeltaView>)
    ensures
        pieces(m.after_tools(calls).1) == call_pieces(calls),
    decreases calls.len(),
{
    if calls.len() > 0 {
        let (before, events) = m.after_tools(calls.drop_last());
        let call = calls.last();
        let more = before.after_tool(call).1;
        lemma_tool_pieces(m, calls.drop_last());
        lemma_pieces_concat(events, more);
        if call.function is Some && call.function->0.arguments is Some {
            lemma_one_piece(more);
        } else {
            lemma_no_pieces(more);
        }
        assert(pieces(events + more) =~= call_pieces(calls));
    }
}

/// A change brings its pieces to the client, all of them and in order: its reasoning
/// where the model reasons, then its text, then its arguments.
pub proof fn law_changes_bring_their_pieces(
    m: MachineView,
    change: ChatDeltaView,
    usage: Option<Usage>,
)
    ensures
        pieces(m.after_delta(change, usage).1) == change_pieces(m, change),
{
    let events = m.after_delta(change, usage).1;
    if m.is_usage_only(change) {
        assert(pieces(events) =~= change_pieces(m, change));
    } else {
        let (thought, a) = m.after_reasoning(change);
        let (spoken, b) = thought.after_text(change);
        if m.reasoning(change) is Some && m.is_reasoning_model {
            lemma_one_piece(a);
        } else {
            lemma_no_pieces(a);
        }
        if change.content.text is Some && change.content.text->0.len() > 0 {
            lemma_one_piece(b);
        } else {
            lemma_no_pieces(b);
        }
        lemma_pieces_concat(a, b);
        match change.tool_calls {
            Some(calls) => {
                lemma_tool_pieces(spoken, calls);
                lemma_pieces_concat(a + b, spoken.after_tools(calls).1);
            },
            None => {},
        }
        assert(pieces(events) =~= change_pieces(m, change));
    }
}

/// A stream of changes brings the pieces of all changes, in order.
pub proof fn law_streams_bring_all_pieces(
    m: MachineView,
    changes: Seq<(ChatDeltaView, Option<Usage>)>,
)
    ensures
        pieces(laws::run(m, changes).1) == changes_pieces(m, changes),
    decreases changes.len(),
{
    if changes.len() > 0 {
        let (before, events) = laws::run(m, changes.drop_last());
        let (change, usage) = changes.last();
        law_streams_bring_all_pieces(m, changes.drop_last());
        laws::lemma_run_settings(m, changes.drop_last());
        law_changes_bring_their_pieces(before, change, usage);
        lemma_pieces_concat(events, before.after_delta(change, usage).1);
    }
}

/// Whether an event opens a block with nothing in it, or signs one with the stand-in.
pub open spec fn opens_empty(event: EventView) -> bool {
    match event {
        EventView::BlockStart { block: BlockView::Thinking { thinking, signature }, .. } => {
            thinking.len() == 0 && signature.len() == 0
        },
        EventView::BlockStart { block: BlockView::Text { text }, .. } => text.len() == 0,
        EventView::BlockStart { block: BlockView::ToolUse { input, .. }, .. } => input
            == JsonView::Object(Map::empty()),
        EventView::BlockDelta { piece: PieceView::Signature(signature), .. } => signature
            == "sig_proxy_placeholder"@,
        _ => true,
    }
}

/// Whether all blocks are opened with nothing in them.
pub open spec fn all_open_empty(events: Seq<EventView>) -> bool {
    forall|i: int| 0 <= i < events.len() ==> opens_empty(#[trigger] events[i])
}

proof fn lemma_all_open_empty_concat(a: Seq<EventView>, b: Seq<EventView>)
    requires
        all_open_empty(a),
        all_open_empty(b),
    ensures
        all_open_empty(a + b),
{
    assert forall|i: int| 0 <= i < (a + b).len() implies opens_empty(#[trigger] (a + b)[i]) by {
        if i < a.len() {
            assert((a + b)[i] == a[i]);
        } else {
            assert((a + b)[i] == b[i - a.len()]);
        }
    }
}

proof fn lemma_tools_open_empty(m: MachineView, calls: Seq<ToolCallDeltaView>)
    ensures
        all_open_empty(m.after_tools(calls).1),
    decreases calls.len(),
{
    if calls.len() > 0 {
        let (before, events) = m.after_tools(calls.drop_last());
        let more = before.after_tool(calls.last()).1;
        lemma_tools_open_empty(m, calls.drop_last());
        assert(all_open_empty(more));
        lemma_all_open_empty_concat(events, more);
    }
}

/// Blocks are opened with nothing in them, what they hold comes in pieces, and thinking
/// blocks are signed with the stand-in for a signature; that holds of every change and of
/// every ending.
pub proof fn law_blocks_open_empty(
    m: MachineView,
    change: ChatDeltaView,
    usage: Option<Usage>,
    reason: Option<Seq<char>>,
    output: Option<u32>,
)
    ensures
        all_open_empty(m.after_delta(change, usage).1),
        all_open_empty(m.after_finish(reason, output, usage).1),
{
    if !m.is_usage_only(change) {
        let (thought, a) = m.after_reasoning(change);
        let (spoken, b) = thought.after_text(change);
        assert(all_open_empty(a));
        assert(all_open_empty(b));
        lemma_all_open_empty_concat(a, b);
        match change.tool_calls {
            Some(calls) => {
                lemma_tools_open_empty(spoken, calls);
                lemma_all_open_empty_concat(a + b, spoken.after_tools(calls).1);
            },
            None => {},
        }
    }
    let events = m.after_finish(reason, output, usage).1;
    assert forall|i: int| 0 <= i < events.len() implies opens_empty(#[trigger] events[i]) by {}
}

/// Whether a change brings text and nothing else.
pub open spec fn only_text(m: MachineView, change: ChatDeltaView) -> bool {
    &&& change.content.text is Some
    &&& change.content.text->0.len() > 0
    &&& m.reasoning(change) is None
    &&& change.tool_calls is None
}

/// Whether a change brings reasoning and nothing else.
pub open spec fn only_reasoning(m: MachineView, change: ChatDeltaView) -> bool {
    &&& change.content.text is None
    &&& m.reasoning(change) is Some
    &&& change.tool_calls is None
}

/// Text that follows text goes on in its block, and so does reasoning that follows
/// reasoning: the second of two such changes is one piece and opens nothing.
pub proof fn law_blocks_go_on(
    m: MachineView,
    a: ChatDeltaView,
    b: ChatDeltaView,
    u: Option<Usage>,
    v: Option<Usage>,
)
    requires
        (only_text(m, a) && only_text(m, b)) || (m.is_reasoning_model && only_reasoning(m, a)
            && only_reasoning(m, b)),
    ensures
        ({
            let events = m.after_delta(a, u).0.after_delta(b, v).1;
            &&& events.len() == 1
            &&& events[0] is BlockDelta
            &&& m.after_delta(a, u).1.last() is BlockDelta
            &&& events[0]->BlockDelta_index == m.after_delta(a, u).1.last()->BlockDelta_index
        }),
{
}

/// Arguments that go on come alone: a part of a tool call that is known opens nothing.
pub proof fn law_known_calls_go_on(m: MachineView, a: ToolCallDeltaView, b: ToolCallDeltaView)
    requires
        laws::call_index(a) == laws::call_index(b),
    ensures
        ({
            let events = m.after_tool(a).0.after_tool(b).1;
            &&& events.len() <= 1
            &&& events.len() == 1 <==> b.function is Some && b.function->0.arguments is Some
            &&& events.len() == 1 ==> events[0] is BlockDelta
        }),
{
    laws::lemma_tool_index_push(
        m.tools,
        (laws::call_index(a), m.closed().content_index),
        laws::call_index(a),
    );
}

/// Whether a piece is text with more in it than white space.
pub open spec fn is_heard(piece: PieceView) -> bool {
    piece matches PieceView::Text(words) && exists|i: int|
        0 <= i < words.len() && !text::is_white(#[trigger] words[i])
}

/// Whether something is heard of pieces.
pub open spec fn any_heard(all: Seq<PieceView>) -> bool {
    exists|i: int| 0 <= i < all.len() && is_heard(#[trigger] all[i])
}

proof fn lemma_any_heard_concat(a: Seq<PieceView>, b: Seq<PieceView>)
    ensures
        any_heard(a + b) <==> any_heard(a) || any_heard(b),
{
    let all = a + b;
    if any_heard(a) {
        let i = choose|i: int| 0 <= i < a.len() && is_heard(#[trigger] a[i]);
        assert(all[i] == a[i]);
    }
    if any_heard(b) {
        let i = choose|i: int| 0 <= i < b.len() && is_heard(#[trigger] b[i]);
        assert(all[i + a.len()] == b[i]);
    }
    if any_heard(all) {
        let i = choose|i: int| 0 <= i < all.len() && is_heard(#[trigger] all[i]);
        if i < a.len() {
            assert(all[i] == a[i]);
        } else {
            assert(all[i] == b[i - a.len()]);
        }
    }
}

proof fn lemma_calls_unheard(calls: Seq<ToolCallDeltaView>)
    ensures
        !any_heard(call_pieces(calls)),
    decreases calls.len(),
{
    if calls.len() > 0 {
        let front = call_pieces(calls.drop_last());
        lemma_calls_unheard(calls.drop_last());
        let all = call_pieces(calls);
        assert forall|i: int| 0 <= i < all.len() implies !is_heard(#[trigger] all[i]) by {
            if i < front.len() {
                assert(all[i] == front[i]);
            }
        }
    }
}

proof fn lemma_tools_grow(m: MachineView, calls: Seq<ToolCallDeltaView>)
    ensures
        m.after_tools(calls).0.tools.len() >= m.tools.len(),
        m.after_tools(calls).0.tools.len() == 0 ==> calls.len() == 0,
        m.after_tools(calls).0.emitted_text == m.emitted_text,
    decreases calls.len(),
{
    if calls.len() > 0 {
        lemma_tools_grow(m, calls.drop_last());
        let before = m.after_tools(calls.drop_last()).0;
        let upstream = calls.last().index.unwrap_or(0);
        if before.tools.len() == 0 {
            assert(converter::tool_index(before.tools, upstream) is None);
        }
    }
}

/// A stream is silent exactly where nothing was heard of it: no tool call, and no text
/// but white space.
pub proof fn law_silence_is_what_is_heard(
    m: MachineView,
    changes: Seq<(ChatDeltaView, Option<Usage>)>,
)
    requires
        m.tools.len() == 0,
        !m.emitted_text,
    ensures
        laws::run(m, changes).0.is_silent() <==> laws::calls_of(changes).len() == 0 && !any_heard(
            pieces(laws::run(m, changes).1),
        ),
{
    law_streams_bring_all_pieces(m, changes);
    lemma_heard(m, changes);
}

proof fn lemma_heard(m: MachineView, changes: Seq<(ChatDeltaView, Option<Usage>)>)
    requires
        m.tools.len() == 0,
        !m.emitted_text,
    ensures
        laws::run(m, changes).0.emitted_text <==> any_heard(changes_pieces(m, changes)),
        laws::run(m, changes).0.tools.len() == 0 <==> laws::calls_of(changes).len() == 0,
    decreases changes.len(),
{
    if changes.len() > 0 {
        let front = changes.drop_last();
        let before = laws::run(m, front).0;
        let (change, usage) = changes.last();
        lemma_heard(m, front);
        laws::lemma_run_settings(m, front);
        lemma_any_heard_concat(changes_pieces(m, front), change_pieces(m, change));
        let thinking = thought_pieces(m.reasoning(change), m.is_reasoning_model);
        let spoken = text_pieces(change.content.text);
        let called = match change.tool_calls {
            Some(calls) => call_pieces(calls),
            None => Seq::empty(),
        };
        lemma_any_heard_concat(thinking + spoken, called);
        lemma_any_heard_concat(thinking, spoken);
        match change.tool_calls {
            Some(calls) => lemma_calls_unheard(calls),
            None => {},
        }
        assert(!any_heard(thinking));
        if change.content.text is Some && change.content.text->0.len() > 0 {
            let words = change.content.text->0;
            assert(spoken[0] == PieceView::Text(words));
            assert(any_heard(spoken) <==> is_heard(spoken[0]));
            if is_heard(spoken[0]) {
                let i = choose|i: int|
                    0 <= i < words.len() && !text::is_white(#[trigger] words[i]);
                assert(!text::is_white(words[i]));
            } else {
                assert forall|i: int| 0 <= i < words.len() implies text::is_white(
                    #[trigger] words[i],
                ) by {
                    assert(spoken[0]->Text_0[i] == words[i]);
                }
            }
            assert(is_heard(spoken[0]) <==> !text::is_blank(words));
        } else {
            assert(!any_heard(spoken));
        }
        if !before.is_usage_only(change) {
            let (thought, _) = before.after_reasoning(change);
            let (said, _) = thought.after_text(change);
            match change.tool_calls {
                Some(calls) => lemma_tools_grow(said, calls),
                None => {},
            }
        }
    }
}

/// A fresh stream has no block open and no tool call, and nothing was heard of it; it
/// goes by the settings that it is given, and its guard warns.
pub proof fn law_fresh_streams(
    is_reasoning_model: bool,
    field: Seq<char>,
    alternatives: Seq<Seq<char>>,
    raw: bool,
)
    ensures
        ({
            let m = MachineView::fresh(is_reasoning_model, field, alternatives, raw);
            &&& laws::sound(m)
            &&& laws::next_index(m) == 0
            &&& m.open == OpenBlock::Nothing
            &&& m.tools.len() == 0
            &&& m.is_silent()
            &&& m.is_reasoning_model == is_reasoning_model
            &&& m.reasoning_field == field
            &&& m.reasoning_field_alt == alternatives
            &&& m.raw_usage == raw
            &&& m.guard == EmptyTextGuard::Warn
            &&& m.thinking.len() == 0
            &&& m.input_tokens is None
            &&& m.cached_tokens is None
            &&& m.raw_read_tokens is None
        }),
{
}

/// The reasoning of a change is looked for under the names that the stream goes by.
pub proof fn law_streams_look_under_their_names(m: MachineView, change: ChatDeltaView)
    ensures
        m.reasoning(change) == change.get_reasoning(m.reasoning_field, m.reasoning_field_alt),
{
}

/// The head of a streamed answer tells the identifier and the model that are given, and
/// counts that are zeros.
pub proof fn law_heads_tell_the_message(model: Seq<char>, msg_id: Seq<char>)
    ensures
        converter::start_event(model, msg_id) matches EventView::MessageStart {
            id,
            msg_type,
            role,
            content,
            model: told,
            usage,
        } && id == msg_id && told == model && msg_type == "message"@ && role == "assistant"@
            && content.len() == 0 && usage == Some(
            StreamUsage {
                input_tokens: Some(0),
                output_tokens: Some(0),
                cache_read_input_tokens: Some(0),
                cache_creation_input_tokens: Some(0),
            },
        ),
{
}

/// An enforcing guard answers a silent stream with an error that tells how it ended.
pub proof fn law_empty_endings_are_told(
    m: MachineView,
    reason: Option<Seq<char>>,
    output: Option<u32>,
    usage: Option<Usage>,
)
    requires
        m.is_silent(),
        m.guard == EmptyTextGuard::Enforce,
    ensures
        ({
            let events = m.after_finish(reason, output, usage).1;
            &&& events.len() == 1
            &&& events[0] matches EventView::Error { error_type, message } && error_type
                == "stream_error"@ && message == "upstream returned empty content (finish_reason="@
                + (match reason {
                Some(words) => words,
                None => "(none)"@,
            }) + ", output_tokens="@ + text::decimal(
                match output {
                    Some(n) => n as nat,
                    None => 0,
                },
            ) + ", thinking_chars="@ + text::decimal(vstd::utf8::encode_utf8(m.thinking).len())
                + ")"@
        }),
{
}

/// A setting names a guard: two modes by name, and the warning one under every other
/// word and under none.
pub proof fn law_guards_are_named(setting: Option<Seq<char>>)
    ensures
        EmptyTextGuard::of_setting(setting) == EmptyTextGuard::Off <==> setting == Some("off"@),
        EmptyTextGuard::of_setting(setting) == EmptyTextGuard::Enforce <==> setting == Some(
            "enforce"@,
        ),
{
    reveal_strlit("off");
    reveal_strlit("enforce");
    assert("off"@.len() != "enforce"@.len());
}

/// What is thought so far: the reasoning of the latest thinking block grows with every
/// piece, and a new block starts it anew.
pub proof fn law_thoughts_are_gathered(m: MachineView, change: ChatDeltaView, usage: Option<Usage>)
    requires
        change.tool_calls is None,
    ensures
        ({
            let (after, events) = m.after_delta(change, usage);
            match m.reasoning(change) {
                Some(words) if m.is_reasoning_model => after.thinking == if m.open
                    == OpenBlock::Thinking {
                    m.thinking + words
                } else {
                    words
                },
                _ => after.thinking == m.thinking,
            }
        }),
{
}

/// Counts that come alone are kept; a change that brings something else keeps none.
pub proof fn law_lone_counts_are_kept(m: MachineView, change: ChatDeltaView, usage: Option<Usage>)
    ensures
        ({
            let after = m.after_delta(change, usage).0;
            let lone = change.role is None && change.tool_calls is None && m.reasoning(change) is None
                && change.content.raw.len() == 0 && !(change.content.text matches Some(s)
                && s.len() > 0);
            if lone && usage is Some {
                let u = usage->0;
                let nested = match u.prompt_tokens_details {
                    Some(details) => details.cached_tokens,
                    None => None,
                };
                &&& after.input_tokens == u.prompt_tokens
                &&& after.cached_tokens == nested
                &&& after.raw_read_tokens == if u.cached_tokens is Some {
                    u.cached_tokens
                } else if nested is Some {
                    nested
                } else {
                    u.prompt_cache_hit_tokens
                }
            } else {
                &&& after.input_tokens == m.input_tokens
                &&& after.cached_tokens == m.cached_tokens
                &&& after.raw_read_tokens == m.raw_read_tokens
            }
        }),
{
    let (thought, _) = m.after_reasoning(change);
    let (spoken, _) = thought.after_text(change);
    match change.tool_calls {
        Some(calls) => lemma_tools_keep_counts(spoken, calls),
        None => {},
    }
}

proof fn lemma_tools_keep_counts(m: MachineView, calls: Seq<ToolCallDeltaView>)
    ensures
        m.after_tools(calls).0.input_tokens == m.input_tokens,
        m.after_tools(calls).0.cached_tokens == m.cached_tokens,
        m.after_tools(calls).0.raw_read_tokens == m.raw_read_tokens,
    decreases calls.len(),
{
    if calls.len() > 0 {
        lemma_tools_keep_counts(m, calls.drop_last());
    }
}

} // verus!
