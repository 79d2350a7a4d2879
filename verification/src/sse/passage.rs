//! What of the upstream's text reaches the client, from the bytes to the events.

use crate::anthropic::types::{EventView, PieceView, StreamUsage};
use crate::json::{self, JsonView};
use crate::openai::answers;
use crate::openai::converter::{self, MachineView};
use crate::openai::laws;
use crate::openai::pieces;
use crate::openai::types::{self as openai, ChatDeltaView, Usage};
use crate::sse::laws::{self as stream_laws, Input};
use crate::sse::stream::{self, Phase, RemarkView, StreamView};
use crate::text;
use vstd::prelude::*;

verus! {

/// What was read of the upstream's text so far.
#[verifier::ext_equal]
pub struct Heard {
    /// The changes, in order, each with the usage object of its chunk.
    pub changes: Seq<(ChatDeltaView, Option<Usage>)>,
    /// The first finish reason.
    pub reason: Option<Seq<char>>,
    /// The usage object of the chunk with the first finish reason.
    pub with_reason: Option<Usage>,
    /// The last usage object.
    pub usage: Option<Usage>,
    /// Whether what comes next counts.
    pub open: bool,
    /// Whether the upstream was silent for too long before it gave a finish reason.
    pub abandoned: bool,
}

/// Nothing was read yet.
pub open spec fn nothing_heard() -> Heard {
    Heard {
        changes: Seq::empty(),
        reason: None,
        with_reason: None,
        usage: None,
        open: true,
        abandoned: false,
    }
}

/// Whether a change is refused: it cannot be decoded, or there is something in it that
/// cannot be read and no text besides.
pub open spec fn is_refused(delta: JsonView) -> bool {
    match openai::delta_of(delta) {
        Err(_) => true,
        Ok(change) => change.has_unparseable_content() && change.has_no_text(),
    }
}

/// Whether a choice gives a finish reason: a string that is not empty.
pub open spec fn gives_reason(choice: JsonView) -> bool {
    choice.get("finish_reason"@) matches Some(JsonView::String(reason)) && reason.len() > 0
}

/// One choice more. A refused change ends the reading.
pub open spec fn hearing_choice(h: Heard, choice: JsonView, usage: Option<Usage>) -> Heard {
    match choice.get("delta"@) {
        Some(delta) if is_refused(delta) => Heard { open: false, ..h },
        delta => {
            let told = match delta {
                Some(delta) => Heard {
                    changes: h.changes.push((openai::delta_of(delta)->Ok_0, usage)),
                    ..h
                },
                None => h,
            };
            if gives_reason(choice) && h.reason is None {
                Heard {
                    reason: Some(choice.get("finish_reason"@)->0->String_0),
                    with_reason: usage,
                    ..told
                }
            } else {
                told
            }
        },
    }
}

/// Choices, one after the other, while they count.
pub open spec fn hearing_choices(h: Heard, choices: Seq<JsonView>, usage: Option<Usage>) -> Heard
    decreases choices.len(),
{
    if choices.len() == 0 {
        h
    } else {
        let before = hearing_choices(h, choices.drop_last(), usage);
        if before.open {
            hearing_choice(before, choices.last(), usage)
        } else {
            before
        }
    }
}

/// The usage object of a chunk, where it has one.
pub open spec fn usage_in(value: JsonView) -> Option<Usage> {
    match value.get("usage"@) {
        Some(usage) => openai::usage_of(usage),
        None => None,
    }
}

/// One chunk more. The reading ends once both a finish reason and a usage object were
/// read.
pub open spec fn hearing_chunk(h: Heard, value: JsonView) -> Heard {
    let usage = usage_in(value);
    let counted = if usage is Some {
        Heard { usage, ..h }
    } else {
        h
    };
    let told = match value.get("choices"@) {
        Some(JsonView::Array(choices)) => hearing_choices(counted, choices, usage),
        _ => counted,
    };
    if told.reason is Some && told.usage is Some {
        Heard { open: false, ..told }
    } else {
        told
    }
}

/// One line more: a chunk, the mark at the end of a stream, or nothing.
pub open spec fn hearing_line(h: Heard, line: Seq<char>) -> Heard {
    match stream::payload(line) {
        None => h,
        Some(data) => if data == "[DONE]"@ {
            Heard { open: false, ..h }
        } else {
            match json::json_of_text(data) {
                Some(value) => hearing_chunk(h, value),
                None => h,
            }
        },
    }
}

/// The finished lines of a text, while they count, and what is left of the text.
pub open spec fn hearing_lines(h: Heard, buffer: Seq<char>) -> (Heard, Seq<char>)
    decreases buffer.len(),
{
    if !h.open {
        (h, buffer)
    } else {
        match text::first_index(buffer, '\n') {
            Some(k) if 0 <= k < buffer.len() => hearing_lines(
                hearing_line(h, buffer.take(k)),
                buffer.skip(k + 1),
            ),
            _ => (h, buffer),
        }
    }
}

/// One thing more that happens to a stream.
pub open spec fn hearing_input(h: Heard, buffer: Seq<char>, input: Input) -> (Heard, Seq<char>) {
    if !h.open {
        (h, buffer)
    } else {
        match input {
            Input::Bytes(bytes) => {
                let longer = buffer + text::lossy_text(bytes);
                if text::byte_len(longer) > stream::MAX_SSE_BUF {
                    (Heard { open: false, ..h }, longer)
                } else {
                    hearing_lines(h, longer)
                }
            },
            Input::Silence => (Heard { open: false, abandoned: h.reason is None, ..h }, buffer),
            Input::End | Input::Failure(_) => (Heard { open: false, ..h }, buffer),
            Input::Refusal(_) | Input::Drained => (h, buffer),
        }
    }
}

/// Everything that happens to a stream.
pub open spec fn hearing(inputs: Seq<Input>) -> (Heard, Seq<char>)
    decreases inputs.len(),
{
    if inputs.len() == 0 {
        (nothing_heard(), Seq::empty())
    } else {
        let (before, buffer) = hearing(inputs.drop_last());
        hearing_input(before, buffer, inputs.last())
    }
}

/// Whether two lists of events say the same: the same pieces, the same text, the same
/// reasoning, the same tool blocks and the same arguments.
pub open spec fn alike(a: Seq<EventView>, b: Seq<EventView>) -> bool {
    &&& pieces::pieces(a) == pieces::pieces(b)
    &&& laws::said(a) == laws::said(b)
    &&& laws::thought(a) == laws::thought(b)
    &&& laws::handed(a) == laws::handed(b)
    &&& laws::opened(a) == laws::opened(b)
    &&& laws::starts(a) == laws::starts(b)
}

/// Lists that say the same, one after the other, say the same.
proof fn lemma_alike_concat(
    a: Seq<EventView>,
    b: Seq<EventView>,
    c: Seq<EventView>,
    d: Seq<EventView>,
)
    requires
        alike(a, b),
        alike(c, d),
    ensures
        alike(a + c, b + d),
{
    pieces::lemma_pieces_concat(a, c);
    pieces::lemma_pieces_concat(b, d);
    laws::lemma_words_concat(a, c);
    laws::lemma_words_concat(b, d);
    laws::lemma_handed_concat(a, c);
    laws::lemma_handed_concat(b, d);
    laws::lemma_opened_concat(a, c);
    laws::lemma_opened_concat(b, d);
    laws::lemma_starts_concat(a, c);
    laws::lemma_starts_concat(b, d);
}

/// Whether an event adds nothing to what is said.
spec fn says_nothing(event: EventView) -> bool {
    match event {
        EventView::BlockStart { .. } => false,
        EventView::BlockDelta { piece: PieceView::Signature(_), .. } => true,
        EventView::BlockDelta { .. } => false,
        _ => true,
    }
}

proof fn lemma_no_starts(events: Seq<EventView>)
    requires
        forall|i: int| 0 <= i < events.len() ==> says_nothing(#[trigger] events[i]),
    ensures
        laws::starts(events) == 0,
    decreases events.len(),
{
    if events.len() > 0 {
        let front = events.drop_last();
        assert forall|i: int| 0 <= i < front.len() implies says_nothing(#[trigger] front[i]) by {
            assert(front[i] == events[i]);
        }
        lemma_no_starts(front);
        assert(says_nothing(events[events.len() - 1]));
    }
}

/// Events that add nothing say nothing.
proof fn lemma_silent(events: Seq<EventView>)
    requires
        forall|i: int| 0 <= i < events.len() ==> says_nothing(#[trigger] events[i]),
    ensures
        alike(events, Seq::empty()),
{
    assert forall|i: int| 0 <= i < events.len() implies says_nothing(#[trigger] events[i]) by {}
    pieces::lemma_no_pieces(events);
    laws::lemma_wordless(events);
    laws::lemma_nothing_handed(events);
    laws::lemma_nothing_opened(events);
    lemma_no_starts(events);
    let none = Seq::<EventView>::empty();
    laws::lemma_wordless(none);
    laws::lemma_nothing_handed(none);
    laws::lemma_nothing_opened(none);
}

/// Events that add nothing, behind others.
proof fn lemma_silent_behind(a: Seq<EventView>, b: Seq<EventView>, c: Seq<EventView>)
    requires
        alike(a, b),
        forall|i: int| 0 <= i < c.len() ==> says_nothing(#[trigger] c[i]),
    ensures
        alike(a + c, b),
{
    lemma_silent(c);
    lemma_alike_concat(a, b, c, Seq::empty());
    assert(b + Seq::<EventView>::empty() =~= b);
}

/// The first count that is there.
pub open spec fn first_count(a: Option<u32>, b: Option<u32>) -> Option<u32> {
    match a {
        Some(_) => a,
        None => b,
    }
}

/// The nested cached-token count of a usage object.
pub open spec fn nested_count(usage: Usage) -> Option<u32> {
    match usage.prompt_tokens_details {
        Some(details) => details.cached_tokens,
        None => None,
    }
}

/// The count of a usage object, where there is one.
pub open spec fn output_in(usage: Option<Usage>) -> Option<u32> {
    match usage {
        Some(u) => u.completion_tokens,
        None => None,
    }
}

/// Whether counts at the end of a stream are those of a usage object. A count that the
/// object leaves out is the one kept from an earlier object, where there was one. With
/// raw reporting, the tokens read from the cache are the first such count that the
/// upstream gives, and none are called created; without it, the read count is the nested
/// one, and what it leaves of the prompt is called created.
pub open spec fn reports(counts: StreamUsage, usage: Option<Usage>, kept: MachineView) -> bool {
    let input = counts.input_tokens;
    let read = counts.cache_read_input_tokens;
    let creation = counts.cache_creation_input_tokens;
    &&& match usage {
        Some(u) => {
            &&& input == first_count(u.prompt_tokens, kept.input_tokens)
            &&& kept.raw_usage ==> read == first_count(
                u.cached_tokens,
                first_count(
                    nested_count(u),
                    first_count(u.prompt_cache_hit_tokens, kept.raw_read_tokens),
                ),
            )
            &&& !kept.raw_usage ==> read == first_count(nested_count(u), kept.cached_tokens)
        },
        None => {
            &&& input == kept.input_tokens
            &&& kept.raw_usage ==> read == kept.raw_read_tokens
            &&& !kept.raw_usage ==> read == kept.cached_tokens
        },
    }
    &&& kept.raw_usage ==> creation is None
    &&& !kept.raw_usage ==> {
        &&& creation is Some <==> input is Some && read is Some
        &&& creation is Some ==> if read->0 <= input->0 {
            creation->0 + read->0 == input->0
        } else {
            creation->0 == 0
        }
    }
}

/// Whether the ending of a message is the one that was heard: it names the first finish
/// reason, and its counts are those of the last usage object. A message that ends without
/// a finish reason has no count of its output; and where the upstream was silent for too
/// long before it gave one, only counts kept from before are told.
pub open spec fn well_told(event: EventView, h: Heard, m: MachineView) -> bool {
    match event {
        EventView::MessageDelta { stop_reason, stop_sequence, usage } => {
            &&& stop_sequence is None
            &&& usage is Some
            &&& match h.reason {
                Some(reason) => {
                    &&& stop_reason is Some
                    &&& answers::names(stop_reason->0, reason)
                    &&& usage->0.output_tokens == first_count(
                        output_in(h.usage),
                        output_in(h.with_reason),
                    )
                },
                None => stop_reason is None && usage->0.output_tokens is None,
            }
            &&& reports(
                usage->0,
                if h.abandoned {
                    None
                } else {
                    h.usage
                },
                laws::run(m, h.changes).0,
            )
        },
        _ => true,
    }
}

/// Whether a list of events ends the message, if at all, as it was heard, and not before
/// the reading has ended.
pub open spec fn told_as_heard(events: Seq<EventView>, h: Heard, m: MachineView) -> bool {
    forall|i: int|
        0 <= i < events.len() ==> ((#[trigger] events[i]) is MessageDelta ==> !h.open)
            && well_told(events[i], h, m)
}

/// Whether a stream is in the state of what was heard of it.
spec fn follows(s: StreamView, h: Heard, m: MachineView) -> bool {
    &&& s.phase == Phase::Reading <==> h.open
    &&& !stream_laws::ended(s) ==> s.machine == laws::run(m, h.changes).0
    &&& s.phase == Phase::Reading ==> s.completed == s.pending is Some
    &&& s.completed == h.reason is Some
    &&& s.last_usage == h.usage
    &&& h.abandoned ==> h.reason is None && s.phase == Phase::Closed
    &&& s.pending matches Some(pending) ==> {
        &&& h.reason == Some(pending.reason)
        &&& pending.output_tokens == output_in(h.with_reason)
    }
}

/// Whether events are those of changes with the end of the message behind them, or with
/// an error in its place.
pub open spec fn ended_by(
    events: Seq<EventView>,
    m: MachineView,
    changes: Seq<(ChatDeltaView, Option<Usage>)>,
) -> bool {
    let (after, before) = laws::run(m, changes);
    ||| exists|reason: Option<Seq<char>>, output: Option<u32>, usage: Option<Usage>|
        events == before + (#[trigger] after.after_finish(reason, output, usage)).1
    ||| events.len() > 0 && events.last() is Error && events.drop_last() == before
}

/// Whether events are exactly those of what was heard, with at most one ending.
spec fn exact(s: StreamView, h: Heard, m: MachineView, events: Seq<EventView>) -> bool {
    if stream_laws::ended(s) {
        ended_by(events, m, h.changes)
    } else {
        events == laws::run(m, h.changes).1
    }
}

/// Whether a stream and its events are those of what was heard.
spec fn along(s: StreamView, h: Heard, m: MachineView, events: Seq<EventView>) -> bool {
    &&& exact(s, h, m, events)
    &&& follows(s, h, m)
    &&& alike(events, laws::run(m, h.changes).1)
    &&& told_as_heard(events, h, m)
}

/// The events that end a message.
proof fn lemma_finish(
    m: MachineView,
    reason: Option<Seq<char>>,
    output: Option<u32>,
    usage: Option<Usage>,
)
    ensures
        ({
            let events = m.after_finish(reason, output, usage).1;
            forall|i: int|
                0 <= i < events.len() ==> {
                    &&& says_nothing(#[trigger] events[i])
                    &&& events[i] is MessageDelta ==> {
                        let told = events[i];
                        &&& told->stop_sequence is None
                        &&& told->MessageDelta_usage is Some
                        &&& told->MessageDelta_usage->0.output_tokens == output
                        &&& reports(told->MessageDelta_usage->0, usage, m)
                        &&& match reason {
                            Some(r) => told->stop_reason is Some && answers::names(
                                told->stop_reason->0,
                                r,
                            ),
                            None => told->stop_reason is None,
                        }
                    }
                }
        }),
{
    match reason {
        Some(r) => answers::law_finish_reasons_are_named(r),
        None => {},
    }
    let counts = m.final_usage(output, usage);
    assert(reports(counts, usage, m));
}

/// The message ends as it was heard.
proof fn lemma_told(
    s: StreamView,
    h: Heard,
    m: MachineView,
    prev: Seq<EventView>,
    reason: Option<Seq<char>>,
    output: Option<u32>,
    usage: Option<Usage>,
)
    requires
        alike(prev, laws::run(m, h.changes).1),
        told_as_heard(prev, h, m),
        s.machine == laws::run(m, h.changes).0,
        !h.open,
        reason == h.reason,
        output == if h.reason is Some {
            first_count(output_in(h.usage), output_in(h.with_reason))
        } else {
            None
        },
        usage == if h.abandoned {
            None
        } else {
            h.usage
        },
    ensures
        ({
            let all = prev + s.machine.after_finish(reason, output, usage).1;
            &&& alike(all, laws::run(m, h.changes).1)
            &&& told_as_heard(all, h, m)
            &&& prev == laws::run(m, h.changes).1 ==> ended_by(all, m, h.changes)
        }),
{
    let events = s.machine.after_finish(reason, output, usage).1;
    let all = prev + events;
    lemma_finish(s.machine, reason, output, usage);
    lemma_silent_behind(prev, laws::run(m, h.changes).1, events);
    assert forall|i: int| 0 <= i < all.len() implies ((#[trigger] all[i]) is MessageDelta
        ==> !h.open) && well_told(all[i], h, m) by {
        if i < prev.len() {
            assert(all[i] == prev[i]);
        } else {
            assert(all[i] == events[i - prev.len()]);
        }
    }
}

/// Events of blocks and errors do not end a message with counts.
proof fn lemma_untold(prev: Seq<EventView>, events: Seq<EventView>, h: Heard, m: MachineView)
    requires
        told_as_heard(prev, h, m),
        forall|i: int| 0 <= i < events.len() ==> !((#[trigger] events[i]) is MessageDelta),
    ensures
        told_as_heard(prev + events, h, m),
{
    let all = prev + events;
    assert forall|i: int| 0 <= i < all.len() implies ((#[trigger] all[i]) is MessageDelta
        ==> !h.open) && well_told(all[i], h, m) by {
        if i < prev.len() {
            assert(all[i] == prev[i]);
        } else {
            assert(all[i] == events[i - prev.len()]);
        }
    }
}

/// While the reading goes on nothing is told of the ending.
proof fn lemma_not_yet(events: Seq<EventView>, h: Heard, g: Heard, m: MachineView)
    requires
        told_as_heard(events, h, m),
        h.open,
    ensures
        told_as_heard(events, g, m),
{
    assert forall|i: int| 0 <= i < events.len() implies ((#[trigger] events[i]) is MessageDelta
        ==> !g.open) && well_told(events[i], g, m) by {
        assert(!(events[i] is MessageDelta));
    }
}

/// One change more.
proof fn lemma_run_push(
    m: MachineView,
    changes: Seq<(ChatDeltaView, Option<Usage>)>,
    change: ChatDeltaView,
    usage: Option<Usage>,
)
    ensures
        ({
            let (before, events) = laws::run(m, changes);
            let (after, more) = before.after_delta(change, usage);
            laws::run(m, changes.push((change, usage))) == (after, events + more)
        }),
{
    assert(changes.push((change, usage)).drop_last() =~= changes);
}

proof fn lemma_choice(
    s: StreamView,
    h: Heard,
    m: MachineView,
    prev: Seq<EventView>,
    choice: JsonView,
    usage: Option<Usage>,
)
    requires
        along(s, h, m, prev),
        h.open,
    ensures
        along(
            s.after_choice(choice, usage).0,
            hearing_choice(h, choice, usage),
            m,
            prev + s.after_choice(choice, usage).1,
        ),
{
    let (after, events) = s.after_choice(choice, usage);
    let g = hearing_choice(h, choice, usage);
    lemma_not_yet(prev, h, g, m);
    assert(stream::finish_reason_of(choice) == if gives_reason(choice) {
        Some(choice.get("finish_reason"@)->0->String_0)
    } else {
        None
    });
    match choice.get("delta"@) {
        Some(delta) => match openai::delta_of(delta) {
            Err(_) => {
                assert(prev + events =~= prev);
            },
            Ok(change) => if change.has_unparseable_content() && change.has_no_text() {
                lemma_silent_behind(prev, laws::run(m, h.changes).1, events);
                lemma_untold(prev, events, g, m);
                assert((prev + events).drop_last() =~= prev);
            } else {
                lemma_run_push(m, h.changes, change, usage);
                laws::law_changes_only_move_blocks(s.machine, change, usage);
                lemma_alike_concat(prev, laws::run(m, h.changes).1, events, events);
                lemma_untold(prev, events, g, m);
            },
        },
        None => {
            assert(prev + events =~= prev);
        },
    }
}

proof fn lemma_choices(
    s: StreamView,
    h: Heard,
    m: MachineView,
    prev: Seq<EventView>,
    choices: Seq<JsonView>,
    usage: Option<Usage>,
)
    requires
        along(s, h, m, prev),
        h.open,
    ensures
        along(
            s.after_choices(choices, usage).0,
            hearing_choices(h, choices, usage),
            m,
            prev + s.after_choices(choices, usage).1,
        ),
    decreases choices.len(),
{
    if choices.len() == 0 {
        assert(prev + s.after_choices(choices, usage).1 =~= prev);
    } else {
        let front = choices.drop_last();
        let (before, events) = s.after_choices(front, usage);
        let g = hearing_choices(h, front, usage);
        lemma_choices(s, h, m, prev, front, usage);
        if g.open {
            let more = before.after_choice(choices.last(), usage).1;
            lemma_choice(before, g, m, prev + events, choices.last(), usage);
            assert(prev + events + more =~= prev + (events + more));
        }
    }
}

/// The pending finish reason is passed on as it was heard.
proof fn lemma_settled(s: StreamView, h: Heard, m: MachineView, prev: Seq<EventView>)
    requires
        along(s, h, m, prev),
        s.phase == Phase::Reading || s.phase == Phase::Draining,
    ensures
        ({
            let (after, events) = s.settled();
            let g = Heard { open: false, ..h };
            &&& alike(prev + events, laws::run(m, h.changes).1)
            &&& told_as_heard(prev + events, g, m)
            &&& after.last_usage == s.last_usage
            &&& after.completed == s.completed
            &&& after.pending is None
            &&& s.pending is None ==> after.machine == s.machine
            &&& s.pending is Some ==> ended_by(prev + events, m, h.changes)
            &&& s.pending is None ==> prev + events == prev
        }),
{
    let (after, events) = s.settled();
    let g = Heard { open: false, ..h };
    if h.open {
        lemma_not_yet(prev, h, g, m);
    } else {
        assert(g =~= h);
    }
    match s.pending {
        Some(pending) => {
            assert(!stream_laws::ended(s));
            let output = stream::output_of(s.last_usage);
            let told = if output is Some {
                output
            } else {
                pending.output_tokens
            };
            lemma_told(s, g, m, prev, Some(pending.reason), told, s.last_usage);
        },
        None => {
            assert(prev + events =~= prev);
        },
    }
}

proof fn lemma_chunk(
    s: StreamView,
    h: Heard,
    m: MachineView,
    prev: Seq<EventView>,
    value: JsonView,
)
    requires
        along(s, h, m, prev),
        h.open,
    ensures
        along(s.after_chunk(value).0, hearing_chunk(h, value), m, prev + s.after_chunk(value).1),
{
    let usage = stream::chunk_usage(value);
    let counted = if usage is Some {
        StreamView { last_usage: usage, ..s }
    } else {
        s
    };
    let g = if usage is Some {
        Heard { usage, ..h }
    } else {
        h
    };
    lemma_not_yet(prev, h, g, m);
    assert(along(counted, g, m, prev));
    let (after, events) = match value.get("choices"@) {
        Some(JsonView::Array(choices)) => counted.after_choices(choices, usage),
        _ => (counted, Seq::empty()),
    };
    let told = match value.get("choices"@) {
        Some(JsonView::Array(choices)) => hearing_choices(g, choices, usage),
        _ => g,
    };
    match value.get("choices"@) {
        Some(JsonView::Array(choices)) => lemma_choices(counted, g, m, prev, choices, usage),
        _ => {
            assert(prev + events =~= prev);
        },
    }
    let (end, more) = after.concluding();
    assert(prev + (events + more) =~= prev + events + more);
    if after.phase == Phase::Reading && after.completed && after.last_usage is Some {
        lemma_settled(after, told, m, prev + events);
    } else {
        assert(prev + events + more =~= prev + events);
        if !told.open {
            assert(Heard { open: false, ..told } =~= told);
        }
    }
}

proof fn lemma_line(
    s: StreamView,
    h: Heard,
    m: MachineView,
    prev: Seq<EventView>,
    line: Seq<char>,
)
    requires
        along(s, h, m, prev),
        h.open,
    ensures
        along(s.after_line(line).0, hearing_line(h, line), m, prev + s.after_line(line).1),
{
    reveal(StreamView::after_line);
    assert(prev + Seq::<EventView>::empty() =~= prev);
    match stream::payload(line) {
        Some(data) => if data == "[DONE]"@ {
            lemma_settled(s, h, m, prev);
        } else {
            match json::json_of_text(data) {
                Some(value) => lemma_chunk(s, h, m, prev, value),
                None => {},
            }
        },
        None => {},
    }
}

proof fn lemma_lines(
    s: StreamView,
    h: Heard,
    m: MachineView,
    prev: Seq<EventView>,
    buffer: Seq<char>,
)
    requires
        along(s, h, m, prev),
    ensures
        along(
            s.after_lines(buffer).state,
            hearing_lines(h, buffer).0,
            m,
            prev + s.after_lines(buffer).events,
        ),
        s.after_lines(buffer).buffer == hearing_lines(h, buffer).1,
    decreases buffer.len(),
{
    assert(prev + Seq::<EventView>::empty() =~= prev);
    if h.open {
        match text::first_index(buffer, '\n') {
            Some(k) if 0 <= k < buffer.len() => {
                let (after, events) = s.after_line(buffer.take(k));
                lemma_line(s, h, m, prev, buffer.take(k));
                let g = hearing_line(h, buffer.take(k));
                lemma_lines(after, g, m, prev + events, buffer.skip(k + 1));
                let rest = after.after_lines(buffer.skip(k + 1));
                assert(prev + events + rest.events =~= prev + (events + rest.events));
            },
            _ => {},
        }
    }
}

proof fn lemma_input(
    s: StreamView,
    h: Heard,
    m: MachineView,
    prev: Seq<EventView>,
    buffer: Seq<char>,
    input: Input,
)
    requires
        along(s, h, m, prev),
    ensures
        along(
            stream_laws::step(s, buffer, input).state,
            hearing_input(h, buffer, input).0,
            m,
            prev + stream_laws::step(s, buffer, input).events,
        ),
        stream_laws::step(s, buffer, input).buffer == hearing_input(h, buffer, input).1,
{
    let g = hearing_input(h, buffer, input).0;
    let after = stream_laws::step(s, buffer, input);
    assert(prev + Seq::<EventView>::empty() =~= prev);
    match input {
        Input::Bytes(bytes) => if h.open {
            let longer = buffer + text::lossy_text(bytes);
            if text::byte_len(longer) > stream::MAX_SSE_BUF {
                lemma_not_yet(prev, h, g, m);
            } else {
                lemma_lines(s, h, m, prev, longer);
                assert(s.after_bytes(buffer, bytes) == s.after_lines(longer));
            }
        },
        Input::End => if h.open {
            lemma_settled(s, h, m, prev);
        },
        Input::Silence => if h.open {
            if s.pending is Some {
                lemma_settled(s, h, m, prev);
                assert(g =~= Heard { open: false, ..h });
            } else {
                lemma_not_yet(prev, h, g, m);
                lemma_told(s, g, m, prev, None, None, None);
            }
        },
        Input::Failure(_) => if h.open {
            lemma_not_yet(prev, h, g, m);
            lemma_silent_behind(prev, laws::run(m, h.changes).1, after.events);
            lemma_untold(prev, after.events, g, m);
            assert((prev + after.events).drop_last() =~= prev);
        },
        Input::Refusal(_) => if s.phase == Phase::Undecodable {
            lemma_silent_behind(prev, laws::run(m, h.changes).1, after.events);
            lemma_untold(prev, after.events, g, m);
            assert((prev + after.events).drop_last() =~= prev);
        },
        Input::Drained => if s.phase == Phase::Draining {
            if s.pending is Some {
                lemma_settled(s, h, m, prev);
                assert(Heard { open: false, ..h } =~= h);
            } else if !s.completed {
                lemma_told(s, g, m, prev, None, None, s.last_usage);
            }
        },
    }
}

proof fn lemma_run(m: MachineView, inputs: Seq<Input>)
    ensures
        along(
            stream_laws::run(StreamView::fresh(m), inputs).state,
            hearing(inputs).0,
            m,
            stream_laws::run(StreamView::fresh(m), inputs).events,
        ),
        stream_laws::run(StreamView::fresh(m), inputs).buffer == hearing(inputs).1,
    decreases inputs.len(),
{
    if inputs.len() > 0 {
        let before = stream_laws::run(StreamView::fresh(m), inputs.drop_last());
        let (h, buffer) = hearing(inputs.drop_last());
        lemma_run(m, inputs.drop_last());
        lemma_input(before.state, h, m, before.events, buffer, inputs.last());
    } else {
        assert(alike(Seq::empty(), Seq::empty()));
    }
}

/// Whatever comes of the upstream, and however it is cut, everything that its text says
/// reaches the client and nothing besides: the text of all changes, joined; their
/// reasoning, where the model reasons; and every tool call, with its identifier, its name
/// and all its arguments. The indexes of the blocks have to fit in 32 bits.
pub proof fn law_streams_pass_everything_on(
    is_reasoning_model: bool,
    field: Seq<char>,
    alternatives: Seq<Seq<char>>,
    raw: bool,
    guard: converter::EmptyTextGuard,
    inputs: Seq<Input>,
)
    ensures
        ({
            let m = MachineView {
                guard,
                ..MachineView::fresh(is_reasoning_model, field, alternatives, raw)
            };
            let events = stream_laws::run(StreamView::fresh(m), inputs).events;
            let changes = hearing(inputs).0.changes;
            &&& pieces::pieces(events) == pieces::changes_pieces(m, changes)
            &&& laws::said(events) == laws::texts_of(changes)
            &&& laws::thought(events) == if is_reasoning_model {
                laws::thoughts_of(m, changes)
            } else {
                Seq::empty()
            }
            &&& laws::starts(events) <= u32::MAX ==> laws::told_as_called(
                laws::calls_of(changes),
                events,
            )
        }),
{
    let m = MachineView {
        guard,
        ..MachineView::fresh(is_reasoning_model, field, alternatives, raw)
    };
    let events = stream_laws::run(StreamView::fresh(m), inputs).events;
    let changes = hearing(inputs).0.changes;
    lemma_run(m, inputs);
    pieces::law_streams_bring_all_pieces(m, changes);
    laws::law_words_join_up(m, changes);
    if laws::starts(events) <= u32::MAX {
        laws::law_tool_calls_reach_the_client(m, changes);
    }
}

/// Whatever comes of the upstream, a client can read the events by the rules: blocks
/// start at the next index, pieces go to open blocks of their kind, only open blocks
/// stop, and no block is open when the message stops. The indexes of the blocks have to
/// fit in 32 bits.
pub proof fn law_streams_keep_the_rules(
    is_reasoning_model: bool,
    field: Seq<char>,
    alternatives: Seq<Seq<char>>,
    raw: bool,
    guard: converter::EmptyTextGuard,
    inputs: Seq<Input>,
)
    requires
        ({
            let m = MachineView {
                guard,
                ..MachineView::fresh(is_reasoning_model, field, alternatives, raw)
            };
            laws::starts(stream_laws::run(StreamView::fresh(m), inputs).events) <= u32::MAX
        }),
    ensures
        ({
            let m = MachineView {
                guard,
                ..MachineView::fresh(is_reasoning_model, field, alternatives, raw)
            };
            let events = stream_laws::run(StreamView::fresh(m), inputs).events;
            let read = laws::enter_all(
                Some(laws::Ledger { open: Map::empty(), next: 0, signed: None }),
                events,
            );
            &&& read is Some
            &&& events.len() > 0 && events.last() is MessageStop ==> read->0.open
                == Map::<u32, laws::BlockKind>::empty()
        }),
{
    let m = MachineView {
        guard,
        ..MachineView::fresh(is_reasoning_model, field, alternatives, raw)
    };
    let outcome = stream_laws::run(StreamView::fresh(m), inputs);
    let events = outcome.events;
    let changes = hearing(inputs).0.changes;
    let (after, before) = laws::run(m, changes);
    let empty = laws::Ledger { open: Map::empty(), next: 0, signed: None };
    lemma_run(m, inputs);
    laws::lemma_run(m, changes);
    assert(laws::ledger_of(m) =~= empty);
    stream_laws::law_one_ending_per_stream(m, inputs);
    if stream_laws::ended(outcome.state) {
        if events.last() is Error && events.drop_last() == before {
            assert(laws::enter_all(Some(empty), events) == laws::enter(
                laws::enter_all(Some(empty), before),
                events.last(),
            ));
        } else {
            let (reason, output, usage) = choose|
                reason: Option<Seq<char>>,
                output: Option<u32>,
                usage: Option<Usage>,
            |
                events == before + (#[trigger] after.after_finish(reason, output, usage)).1;
            let ending = after.after_finish(reason, output, usage).1;
            laws::lemma_enter_concat(Some(empty), before, ending);
            if after.is_silent() && after.guard == converter::EmptyTextGuard::Enforce {
                let none = Seq::<EventView>::empty();
                assert(ending.drop_last() =~= none);
                assert(laws::enter_all(Some(laws::ledger_of(after)), none) == Some(
                    laws::ledger_of(after),
                ));
            } else {
                laws::law_the_end_closes_every_block(after, reason, output, usage);
            }
        }
    }
}

/// However a stream ends its message, it names the first finish reason that came, and its
/// counts are those of the last usage object that came while the stream was read.
pub proof fn law_streams_end_as_heard(m: MachineView, inputs: Seq<Input>)
    ensures
        told_as_heard(
            stream_laws::run(StreamView::fresh(m), inputs).events,
            hearing(inputs).0,
            m,
        ),
{
    lemma_run(m, inputs);
}

/// Where the last usage object holds the counts, a streamed answer reports what a whole
/// answer with this object does.
pub proof fn law_streamed_counts_are_those_of_a_whole_answer(
    counts: StreamUsage,
    usage: Usage,
    kept: MachineView,
)
    requires
        reports(counts, Some(usage), kept),
        usage.prompt_tokens is Some,
        nested_count(usage) is Some,
    ensures
        counts.input_tokens == usage.prompt_tokens,
        answers::cache_counts(
            usage,
            kept.raw_usage,
            counts.cache_read_input_tokens,
            counts.cache_creation_input_tokens,
        ),
{
}

/// A stream is read exactly while what comes next counts.
pub proof fn law_streams_are_read_while_it_counts(m: MachineView, inputs: Seq<Input>)
    ensures
        stream_laws::run(StreamView::fresh(m), inputs).state.phase == Phase::Reading <==> hearing(
            inputs,
        ).0.open,
        stream_laws::run(StreamView::fresh(m), inputs).buffer == hearing(inputs).1,
{
    lemma_run(m, inputs);
}

/// The payload of a line is what stands behind `data:` and one space, where there is one.
/// White space around the line does not count, and a line without the mark has none.
pub proof fn law_lines_carry_payloads(line: Seq<char>)
    ensures
        ({
            let inner = text::trimmed(line);
            match stream::payload(line) {
                Some(data) => {
                    ||| inner == "data: "@ + data
                    ||| inner == "data:"@ + data && !"data: "@.is_prefix_of(inner)
                },
                None => !"data:"@.is_prefix_of(inner),
            }
        }),
{
    let inner = text::trimmed(line);
    reveal_strlit("data: ");
    reveal_strlit("data:");
    if "data: "@.is_prefix_of(inner) {
        assert(inner =~= "data: "@ + inner.skip("data: "@.len() as int));
    } else if "data:"@.is_prefix_of(inner) {
        assert(inner =~= "data:"@ + inner.skip("data:"@.len() as int));
    }
}

/// A failed connection ends a stream that is read with an error that tells the failure.
pub proof fn law_failures_are_told(s: StreamView, message: Seq<char>)
    requires
        s.phase == Phase::Reading,
    ensures
        s.after_failure(message).0.phase == Phase::Closed,
        s.after_failure(message).0.pending is None,
        s.after_failure(message).1 == seq![
            EventView::Error { error_type: "stream_error"@, message },
        ],
{
}

/// A change of which nothing can be read ends a stream with an error that shows what it
/// is; one of which something can be read is noted, and one that can be read in full is
/// not.
pub proof fn law_unreadable_content_is_shown(
    s: StreamView,
    choice: JsonView,
    delta: JsonView,
    usage: Option<Usage>,
)
    requires
        choice.get("delta"@) == Some(delta),
        openai::delta_of(delta) is Ok,
    ensures
        ({
            let change = openai::delta_of(delta)->Ok_0;
            let (after, events) = s.after_choice(choice, usage);
            let unread = change.content.raw.len() > 0 || change.reasoning_content.raw.len() > 0
                || change.reasoning.raw.len() > 0;
            if is_refused(delta) {
                &&& after.phase == Phase::Closed
                &&& after.remarks == s.remarks
                &&& events == seq![
                    EventView::Error {
                        error_type: "stream_error"@,
                        message: "streaming delta content could not be decoded: "@
                            + change.preview(),
                    },
                ]
            } else if unread {
                after.remarks == s.remarks.push(RemarkView::Partial(change.preview()))
            } else {
                after.remarks == s.remarks
            }
        }),
{
}

/// A payload that is no JSON is noted and skipped, and nothing else happens.
pub proof fn law_skipped_payloads_are_noted(s: StreamView, line: Seq<char>, data: Seq<char>)
    requires
        stream::payload(line) == Some(data),
        data != "[DONE]"@,
        json::json_of_text(data) is None,
    ensures
        s.after_line(line).0 == (StreamView {
            remarks: s.remarks.push(RemarkView::Skipped(data)),
            ..s
        }),
        s.after_line(line).1.len() == 0,
{
    reveal(StreamView::after_line);
}

/// A line without a payload does nothing.
pub proof fn law_lines_without_payload_do_nothing(s: StreamView, line: Seq<char>)
    requires
        stream::payload(line) is None,
    ensures
        s.after_line(line).0 == s,
        s.after_line(line).1.len() == 0,
{
    reveal(StreamView::after_line);
}

/// An unfinished line that grows too long is noted, and the stream is read no further.
pub proof fn law_overflow_is_noted(s: StreamView, buffer: Seq<char>, bytes: Seq<u8>)
    requires
        s.phase == Phase::Reading,
        text::byte_len(buffer + text::lossy_text(bytes)) > stream::MAX_SSE_BUF,
    ensures
        s.after_bytes(buffer, bytes).state == (StreamView {
            phase: Phase::Draining,
            remarks: s.remarks.push(RemarkView::Overflow),
            ..s
        }),
        s.after_bytes(buffer, bytes).events.len() == 0,
{
}

} // verus!
