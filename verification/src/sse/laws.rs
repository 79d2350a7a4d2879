//! What holds of every streamed completion, whatever the upstream sends.

use crate::anthropic::types::EventView;
use crate::json::JsonView;
use crate::openai::converter;
use crate::openai::laws;
use crate::openai::types::{self as openai, Usage};
use crate::sse::stream::{self, Outcome, Phase, StreamView};
use crate::text;
use vstd::prelude::*;

verus! {

/// Whether a stream is in a state that it can be in: a pending finish reason was
/// received, one that was received is pending while the stream is read and waits for
/// token counts, and none is pending once the stream is closed. A change is refused
/// exactly while the stream waits for the cause.
pub open spec fn well_formed(s: StreamView) -> bool {
    &&& s.refused is Some <==> s.phase == Phase::Undecodable
    &&& s.pending is Some ==> s.completed
    &&& s.phase == Phase::Reading && s.completed ==> s.pending is Some && s.last_usage is None
    &&& s.phase == Phase::Closed ==> s.pending is None
}

/// Whether the end of the message went out.
pub open spec fn ended(s: StreamView) -> bool {
    match s.phase {
        Phase::Reading | Phase::Undecodable => false,
        Phase::Draining => s.completed && s.pending is None,
        Phase::Closed => true,
    }
}

/// Whether a step is sound: its events are of blocks alone, but for the step that ends
/// the message; and nothing goes out after that one.
pub open spec fn sound_step(before: StreamView, after: StreamView, events: Seq<EventView>) -> bool {
    &&& well_formed(after)
    &&& ended(before) ==> ended(after) && events.len() == 0
    &&& if ended(after) && !ended(before) {
        laws::ends(events)
    } else {
        laws::only_blocks(events)
    }
}

/// What can happen to a stream.
pub enum Input {
    Bytes(Seq<u8>),
    End,
    Silence,
    Failure(Seq<char>),
    Refusal(Seq<char>),
    Drained,
}

/// What happens to a stream.
pub open spec fn step(s: StreamView, buffer: Seq<char>, input: Input) -> Outcome {
    match input {
        Input::Bytes(bytes) => s.after_bytes(buffer, bytes),
        Input::End => Outcome { state: s.after_end().0, buffer, events: s.after_end().1 },
        Input::Silence => Outcome {
            state: s.after_silence().0,
            buffer,
            events: s.after_silence().1,
        },
        Input::Failure(message) => Outcome {
            state: s.after_failure(message).0,
            buffer,
            events: s.after_failure(message).1,
        },
        Input::Refusal(cause) => Outcome {
            state: s.after_refusal(cause).0,
            buffer,
            events: s.after_refusal(cause).1,
        },
        Input::Drained => Outcome { state: s.after_drain().0, buffer, events: s.after_drain().1 },
    }
}

/// Everything that happens to a stream.
pub open spec fn run(s: StreamView, inputs: Seq<Input>) -> Outcome
    decreases inputs.len(),
{
    if inputs.len() == 0 {
        Outcome { state: s, buffer: Seq::empty(), events: Seq::empty() }
    } else {
        let before = run(s, inputs.drop_last());
        let after = step(before.state, before.buffer, inputs.last());
        Outcome {
            state: after.state,
            buffer: after.buffer,
            events: before.events + after.events,
        }
    }
}

/// What the choices of a chunk can lead to: the stream goes on, it waits for the cause of
/// a refusal, or it was given up with an error.
spec fn goes_on_or_fails(after: StreamView, events: Seq<EventView>) -> bool {
    ||| {
        &&& after.phase == Phase::Reading
        &&& after.refused is None
        &&& after.completed == after.pending is Some
        &&& laws::only_blocks(events)
    }
    ||| {
        &&& after.phase == Phase::Undecodable
        &&& after.refused is Some
        &&& after.completed == after.pending is Some
        &&& laws::only_blocks(events)
    }
    ||| {
        &&& after.phase == Phase::Closed
        &&& after.refused is None
        &&& after.pending is None
        &&& laws::ends(events)
    }
}

proof fn lemma_choice(s: StreamView, choice: JsonView, usage: Option<Usage>)
    requires
        s.phase == Phase::Reading,
        s.refused is None,
        s.completed == s.pending is Some,
    ensures
        goes_on_or_fails(s.after_choice(choice, usage).0, s.after_choice(choice, usage).1),
        s.after_choice(choice, usage).0.last_usage == s.last_usage,
{
    match choice.get("delta"@) {
        Some(delta) => match openai::delta_of(delta) {
            Err(_) => {},
            Ok(change) => laws::law_changes_only_move_blocks(s.machine, change, usage),
        },
        None => {},
    }
}

proof fn lemma_choices(s: StreamView, choices: Seq<JsonView>, usage: Option<Usage>)
    requires
        s.phase == Phase::Reading,
        s.refused is None,
        s.completed == s.pending is Some,
    ensures
        goes_on_or_fails(s.after_choices(choices, usage).0, s.after_choices(choices, usage).1),
        s.after_choices(choices, usage).0.last_usage == s.last_usage,
    decreases choices.len(),
{
    if choices.len() > 0 {
        let (before, events) = s.after_choices(choices.drop_last(), usage);
        lemma_choices(s, choices.drop_last(), usage);
        if before.phase == Phase::Reading {
            lemma_choice(before, choices.last(), usage);
            laws::lemma_blocks_in_front(events, before.after_choice(choices.last(), usage).1);
        }
    }
}

proof fn lemma_settled(s: StreamView)
    ensures
        s.pending is Some ==> laws::ends(s.settled().1),
        s.pending is None ==> s.settled().1.len() == 0,
{
    match s.pending {
        Some(pending) => {
            let output = stream::output_of(s.last_usage);
            laws::law_the_end_ends_the_message(
                s.machine,
                Some(pending.reason),
                if output is Some {
                    output
                } else {
                    pending.output_tokens
                },
                s.last_usage,
            );
        },
        None => {},
    }
}

proof fn lemma_chunk(s: StreamView, value: JsonView)
    requires
        s.phase == Phase::Reading,
        well_formed(s),
    ensures
        sound_step(s, s.after_chunk(value).0, s.after_chunk(value).1),
{
    let usage = stream::chunk_usage(value);
    let counted = if usage is Some {
        StreamView { last_usage: usage, ..s }
    } else {
        s
    };
    let (after, events) = match value.get("choices"@) {
        Some(JsonView::Array(choices)) => counted.after_choices(choices, usage),
        _ => (counted, Seq::empty()),
    };
    match value.get("choices"@) {
        Some(JsonView::Array(choices)) => lemma_choices(counted, choices, usage),
        _ => {},
    }
    lemma_settled(after);
    if after.phase == Phase::Reading {
        laws::lemma_blocks_in_front(events, after.concluding().1);
    } else {
        assert(events + after.concluding().1 =~= events);
    }
}

proof fn lemma_line(s: StreamView, line: Seq<char>)
    requires
        s.phase == Phase::Reading,
        well_formed(s),
    ensures
        sound_step(s, s.after_line(line).0, s.after_line(line).1),
{
    reveal(StreamView::after_line);
    lemma_settled(s);
    match stream::payload(line) {
        Some(data) => match crate::json::json_of_text(data) {
            Some(value) => lemma_chunk(s, value),
            None => {},
        },
        None => {},
    }
}

proof fn lemma_lines(s: StreamView, buffer: Seq<char>)
    requires
        well_formed(s),
    ensures
        sound_step(s, s.after_lines(buffer).state, s.after_lines(buffer).events),
    decreases buffer.len(),
{
    if s.phase == Phase::Reading {
        match text::first_index(buffer, '\n') {
            Some(k) if 0 <= k < buffer.len() => {
                let (after, events) = s.after_line(buffer.take(k));
                lemma_line(s, buffer.take(k));
                lemma_lines(after, buffer.skip(k + 1));
                let rest = after.after_lines(buffer.skip(k + 1));
                if ended(after) {
                    assert(events + rest.events =~= events);
                } else {
                    laws::lemma_blocks_in_front(events, rest.events);
                }
            },
            _ => {},
        }
    }
}

proof fn lemma_bytes(s: StreamView, buffer: Seq<char>, bytes: Seq<u8>)
    requires
        well_formed(s),
    ensures
        sound_step(s, s.after_bytes(buffer, bytes).state, s.after_bytes(buffer, bytes).events),
{
    let longer = buffer + text::lossy_text(bytes);
    if s.phase == Phase::Reading && text::byte_len(longer) <= stream::MAX_SSE_BUF {
        lemma_lines(s, longer);
        assert(s.after_bytes(buffer, bytes) == s.after_lines(longer));
    }
}

/// Whatever happens to a stream, its events are of blocks alone until one step ends the
/// message, and nothing goes out after that.
pub proof fn law_every_step_is_sound(s: StreamView, buffer: Seq<char>, input: Input)
    requires
        well_formed(s),
    ensures
        sound_step(s, step(s, buffer, input).state, step(s, buffer, input).events),
{
    lemma_settled(s);
    match input {
        Input::Bytes(bytes) => lemma_bytes(s, buffer, bytes),
        Input::End => {},
        Input::Silence => laws::law_the_end_ends_the_message(s.machine, None, None, None),
        Input::Failure(_) => {},
        Input::Refusal(_) => {},
        Input::Drained => laws::law_the_end_ends_the_message(s.machine, None, None, s.last_usage),
    }
}

/// Over its whole life a stream ends the message exactly once where it has ended, and
/// not before: until then all its events are of blocks.
pub proof fn law_one_ending_per_stream(machine: converter::MachineView, inputs: Seq<Input>)
    ensures
        ({
            let outcome = run(StreamView::fresh(machine), inputs);
            &&& well_formed(outcome.state)
            &&& if ended(outcome.state) {
                laws::ends(outcome.events)
            } else {
                laws::only_blocks(outcome.events)
            }
        }),
    decreases inputs.len(),
{
    if inputs.len() > 0 {
        let before = run(StreamView::fresh(machine), inputs.drop_last());
        law_one_ending_per_stream(machine, inputs.drop_last());
        law_every_step_is_sound(before.state, before.buffer, inputs.last());
        let after = step(before.state, before.buffer, inputs.last());
        if ended(before.state) {
            assert(before.events + after.events =~= before.events);
        } else {
            laws::lemma_blocks_in_front(before.events, after.events);
        }
    }
}

/// The frames that a client reads of a stream: the head of the answer, and the events.
pub open spec fn frames(
    machine: converter::MachineView,
    model: Seq<char>,
    msg_id: Seq<char>,
    inputs: Seq<Input>,
) -> Seq<EventView> {
    seq![converter::start_event(model, msg_id)] + run(StreamView::fresh(machine), inputs).events
}

/// Whatever the upstream does, the first frame starts the message and no other one does.
/// Counts come at most once, and the stop of the message follows them at once, as the
/// last frame; it never comes without them. An error is the last frame, and then there
/// are neither counts nor a stop.
pub proof fn law_frames_of_a_stream(
    machine: converter::MachineView,
    model: Seq<char>,
    msg_id: Seq<char>,
    inputs: Seq<Input>,
)
    ensures
        ({
            let all = frames(machine, model, msg_id, inputs);
            let n = all.len() as int;
            &&& n >= 1
            &&& forall|i: int|
                0 <= i < n ==> {
                    &&& (#[trigger] all[i]) is MessageStart <==> i == 0
                    &&& all[i] is MessageDelta ==> i == n - 2 && all[n - 1] is MessageStop
                    &&& all[i] is MessageStop ==> i == n - 1 && n >= 2 && all[n - 2] is MessageDelta
                    &&& all[i] is Error ==> i == n - 1
                }
            &&& all[n - 1] is Error ==> forall|i: int|
                0 <= i < n ==> !((#[trigger] all[i]) is MessageDelta) && !(all[i] is MessageStop)
        }),
{
    let all = frames(machine, model, msg_id, inputs);
    let events = run(StreamView::fresh(machine), inputs).events;
    let n = all.len() as int;
    let k = events.len() as int;
    law_one_ending_per_stream(machine, inputs);
    assert forall|i: int| 0 <= i < n implies {
        &&& (#[trigger] all[i]) is MessageStart <==> i == 0
        &&& all[i] is MessageDelta ==> i == n - 2 && all[n - 1] is MessageStop
        &&& all[i] is MessageStop ==> i == n - 1 && n >= 2 && all[n - 2] is MessageDelta
        &&& all[i] is Error ==> i == n - 1
    } by {
        if i > 0 {
            assert(all[i] == events[i - 1]);
            assert(all[n - 1] == events[k - 1]);
            if i - 1 < k - 1 {
                assert(events.take(k - 1)[i - 1] == events[i - 1]);
            }
            if i - 1 < k - 2 {
                assert(events.take(k - 2)[i - 1] == events[i - 1]);
            }
            if k >= 2 {
                assert(all[n - 2] == events[k - 2]);
            }
        }
    }
}

/// No stream is left hanging: whatever happened to it, once its upstream is done the
/// message has ended. Where a change could not be decoded, the caller has said why.
pub proof fn law_no_stream_is_left_hanging(
    machine: converter::MachineView,
    inputs: Seq<Input>,
    cause: Seq<char>,
)
    ensures
        ({
            let outcome = run(
                StreamView::fresh(machine),
                inputs.push(Input::Refusal(cause)).push(Input::End).push(Input::Drained),
            );
            &&& outcome.state.phase == Phase::Closed
            &&& laws::ends(outcome.events)
        }),
{
    let fresh = StreamView::fresh(machine);
    let told = inputs.push(Input::Refusal(cause));
    let ending = told.push(Input::End);
    assert(told.drop_last() =~= inputs);
    assert(ending.drop_last() =~= told);
    assert(ending.push(Input::Drained).drop_last() =~= ending);
    assert(run(fresh, told).state == run(fresh, inputs).state.after_refusal(cause).0);
    assert(run(fresh, ending).state == run(fresh, told).state.after_end().0);
    law_one_ending_per_stream(machine, ending.push(Input::Drained));
}

/// Only a stream that is read comes to wait for a cause, and only over bytes that the
/// upstream sent.
pub proof fn law_only_bytes_are_refused(s: StreamView, buffer: Seq<char>, input: Input)
    requires
        well_formed(s),
        s.phase != Phase::Undecodable,
        step(s, buffer, input).state.phase == Phase::Undecodable,
    ensures
        input is Bytes,
        s.phase == Phase::Reading,
{
}

/// A message ends as soon as it can: with the chunk that completes what its ending tells,
/// with the mark at the end of a stream or with the end of the upstream where a finish
/// reason was received, and with the silence of the upstream in any case.
pub proof fn law_messages_end_at_once(s: StreamView, value: JsonView, line: Seq<char>)
    requires
        well_formed(s),
        s.phase == Phase::Reading,
    ensures
        ({
            let (after, events) = s.after_chunk(value);
            after.completed && after.last_usage is Some && after.phase != Phase::Undecodable
                ==> ended(after) && laws::ends(events)
        }),
        stream::payload(line) == Some("[DONE]"@) ==> {
            let (after, events) = s.after_line(line);
            &&& after.phase == Phase::Draining
            &&& s.completed ==> ended(after) && laws::ends(events)
            &&& !s.completed ==> events.len() == 0
        },
        s.after_end().0.phase == Phase::Draining,
        s.completed ==> ended(s.after_end().0) && laws::ends(s.after_end().1),
        s.after_silence().0.phase == Phase::Closed,
        laws::ends(s.after_silence().1),
{
    reveal(StreamView::after_line);
    lemma_settled(s);
    lemma_chunk(s, value);
    laws::law_the_end_ends_the_message(s.machine, None, None, None);
    let (after, _) = s.after_chunk(value);
    let usage = stream::chunk_usage(value);
    let counted = if usage is Some {
        StreamView { last_usage: usage, ..s }
    } else {
        s
    };
    match value.get("choices"@) {
        Some(JsonView::Array(choices)) => lemma_choices(counted, choices, usage),
        _ => {},
    }
}

/// A closed stream stays as it is: nothing more goes out.
pub proof fn law_closed_streams_are_silent(s: StreamView, buffer: Seq<char>, input: Input)
    requires
        s.phase == Phase::Closed,
    ensures
        step(s, buffer, input).state == s,
        step(s, buffer, input).events.len() == 0,
{
}

/// A change of which nothing can be read as text is never dropped in silence: the stream
/// is given up, and an error is all that goes out.
pub proof fn law_unreadable_changes_fail_closed(
    s: StreamView,
    choice: JsonView,
    delta: JsonView,
    usage: Option<Usage>,
)
    requires
        choice.get("delta"@) == Some(delta),
        openai::delta_of(delta) matches Ok(change) && change.has_unparseable_content()
            && change.has_no_text(),
    ensures
        s.after_choice(choice, usage).0.phase == Phase::Closed,
        s.after_choice(choice, usage).1.len() == 1,
        s.after_choice(choice, usage).1[0] is Error,
{
}

/// A change that cannot be decoded is never dropped in silence either: the stream waits
/// for the cause, and then it is given up, and an error with the cause is all that goes
/// out.
pub proof fn law_undecodable_changes_fail_closed(
    s: StreamView,
    choice: JsonView,
    delta: JsonView,
    usage: Option<Usage>,
    cause: Seq<char>,
)
    requires
        choice.get("delta"@) == Some(delta),
        openai::delta_of(delta) is Err,
    ensures
        ({
            let (waiting, events) = s.after_choice(choice, usage);
            let (closed, ending) = waiting.after_refusal(cause);
            &&& waiting.phase == Phase::Undecodable
            &&& waiting.refused == Some(delta)
            &&& events.len() == 0
            &&& closed.phase == Phase::Closed
            &&& ending == seq![stream::error_event("undecodable streaming delta: "@ + cause)]
        }),
{
}

/// A change with text passes it on, exactly, even where part of it cannot be read.
pub proof fn law_readable_text_passes_through(
    s: StreamView,
    choice: JsonView,
    delta: JsonView,
    usage: Option<Usage>,
)
    requires
        choice.get("delta"@) == Some(delta),
        openai::delta_of(delta) matches Ok(change) && (!change.has_unparseable_content()
            || !change.has_no_text()),
    ensures
        laws::said(s.after_choice(choice, usage).1) == converter::or_else(
            openai::delta_of(delta)->Ok_0.content.text,
            Seq::empty(),
        ),
{
    laws::law_words_pass_through(s.machine, openai::delta_of(delta)->Ok_0, usage);
}

/// A change that is not refused passes on all its arguments, in their order, each to the
/// block of its tool call, whether the call is new or goes on; and its reasoning, where
/// the model reasons.
pub proof fn law_readable_calls_pass_through(
    s: StreamView,
    choice: JsonView,
    delta: JsonView,
    usage: Option<Usage>,
)
    requires
        choice.get("delta"@) == Some(delta),
        openai::delta_of(delta) matches Ok(change) && (!change.has_unparseable_content()
            || !change.has_no_text()),
    ensures
        ({
            let (after, events) = s.after_choice(choice, usage);
            let change = openai::delta_of(delta)->Ok_0;
            &&& match change.tool_calls {
                Some(calls) => {
                    &&& laws::all_placed(calls, after.machine.tools)
                    &&& laws::handed(events) == laws::given(calls, after.machine.tools)
                },
                None => laws::handed(events).len() == 0,
            }
            &&& laws::thought(events) == if s.machine.is_reasoning_model {
                converter::or_else(s.machine.reasoning(change), Seq::empty())
            } else {
                Seq::empty()
            }
            &&& after.phase == s.phase
        }),
{
    laws::law_words_pass_through(s.machine, openai::delta_of(delta)->Ok_0, usage);
    laws::law_arguments_pass_through(s.machine, openai::delta_of(delta)->Ok_0, usage);
}

/// Only the first finish reason counts.
pub proof fn law_the_first_finish_reason_counts(
    s: StreamView,
    first: Seq<char>,
    then: Option<Seq<char>>,
    a: Option<u32>,
    b: Option<u32>,
)
    ensures
        s.noting(Some(first), a).noting(then, b) == s.noting(Some(first), a),
{
}

/// The first newline of a text is that of the text with more behind it.
proof fn lemma_first_index_concat(x: Seq<char>, y: Seq<char>)
    requires
        text::first_index(x, '\n') is Some,
    ensures
        text::first_index(x + y, '\n') == text::first_index(x, '\n'),
    decreases x.len(),
{
    if x.len() > 0 && x[0] != '\n' {
        lemma_first_index_concat(x.drop_first(), y);
        assert((x + y).drop_first() =~= x.drop_first() + y);
    }
}

/// Where the upstream cuts its text does not matter: two pieces, one after the other,
/// have the effect of both at once.
pub proof fn law_cuts_do_not_matter(s: StreamView, x: Seq<char>, y: Seq<char>)
    ensures
        ({
            let first = s.after_lines(x);
            let second = first.state.after_lines(first.buffer + y);
            s.after_lines(x + y) == Outcome {
                state: second.state,
                buffer: second.buffer,
                events: first.events + second.events,
            }
        }),
    decreases x.len(),
{
    let first = s.after_lines(x);
    let second = first.state.after_lines(first.buffer + y);
    text::lemma_first_index(x, '\n');
    text::lemma_first_index(x + y, '\n');
    if s.phase != Phase::Reading || text::first_index(x, '\n') is None {
        assert(Seq::<EventView>::empty() + second.events =~= second.events);
    } else {
        let k = text::first_index(x, '\n')->0;
        lemma_first_index_concat(x, y);
        assert((x + y).take(k) =~= x.take(k));
        assert((x + y).skip(k + 1) =~= x.skip(k + 1) + y);
        let (after, events) = s.after_line(x.take(k));
        law_cuts_do_not_matter(after, x.skip(k + 1), y);
        let inner = after.after_lines(x.skip(k + 1));
        assert(events + (inner.events + second.events) =~= (events + inner.events)
            + second.events);
    }
}

/// Chunks of bytes that the upstream sends, one after the other.
pub open spec fn fed(s: StreamView, buffer: Seq<char>, chunks: Seq<Seq<u8>>) -> Outcome
    decreases chunks.len(),
{
    if chunks.len() == 0 {
        Outcome { state: s, buffer, events: Seq::empty() }
    } else {
        let before = fed(s, buffer, chunks.drop_last());
        let after = before.state.after_bytes(before.buffer, chunks.last());
        Outcome {
            state: after.state,
            buffer: after.buffer,
            events: before.events + after.events,
        }
    }
}

/// The bytes of chunks.
pub open spec fn all_bytes(chunks: Seq<Seq<u8>>) -> Seq<u8>
    decreases chunks.len(),
{
    if chunks.len() == 0 {
        Seq::empty()
    } else {
        all_bytes(chunks.drop_last()) + chunks.last()
    }
}

/// Whether chunks are cut between characters: each is valid UTF-8.
pub open spec fn whole_characters(chunks: Seq<Seq<u8>>) -> bool {
    forall|i: int| 0 <= i < chunks.len() ==> vstd::utf8::valid_utf8(#[trigger] chunks[i])
}

/// Two texts are encoded one after the other.
proof fn lemma_encode_concat(a: Seq<char>, b: Seq<char>)
    ensures
        vstd::utf8::encode_utf8(a + b) == vstd::utf8::encode_utf8(a) + vstd::utf8::encode_utf8(b),
    decreases a.len(),
{
    if a.len() == 0 {
        assert(a + b =~= b);
        assert(vstd::utf8::encode_utf8(a) + vstd::utf8::encode_utf8(b)
            =~= vstd::utf8::encode_utf8(b));
    } else {
        lemma_encode_concat(a.drop_first(), b);
        assert((a + b).drop_first() =~= a.drop_first() + b);
        assert(vstd::utf8::encode_utf8(a + b) =~= vstd::utf8::encode_utf8(a)
            + vstd::utf8::encode_utf8(b));
    }
}

/// Two pieces of valid UTF-8 are decoded one after the other.
proof fn lemma_decode_concat(a: Seq<u8>, b: Seq<u8>)
    requires
        vstd::utf8::valid_utf8(a),
        vstd::utf8::valid_utf8(b),
    ensures
        vstd::utf8::valid_utf8(a + b),
        text::lossy_text(a + b) == text::lossy_text(a) + text::lossy_text(b),
        text::byte_len(text::lossy_text(a)) == a.len(),
{
    let x = vstd::utf8::decode_utf8(a);
    let y = vstd::utf8::decode_utf8(b);
    vstd::utf8::valid_utf8_concat(a, b);
    vstd::utf8::decode_utf8_encode_utf8(a);
    vstd::utf8::decode_utf8_encode_utf8(b);
    lemma_encode_concat(x, y);
    vstd::utf8::encode_utf8_decode_utf8(x + y);
}

/// What is left of a buffer is its end.
proof fn lemma_rest(s: StreamView, buffer: Seq<char>)
    ensures
        ({
            let rest = s.after_lines(buffer).buffer;
            &&& rest.len() <= buffer.len()
            &&& rest == buffer.skip(buffer.len() - rest.len())
        }),
    decreases buffer.len(),
{
    let rest = s.after_lines(buffer).buffer;
    if s.phase == Phase::Reading {
        match text::first_index(buffer, '\n') {
            Some(k) if 0 <= k < buffer.len() => {
                let after = s.after_line(buffer.take(k)).0;
                lemma_rest(after, buffer.skip(k + 1));
                assert(rest =~= buffer.skip(buffer.len() - rest.len()));
            },
            _ => {
                assert(rest =~= buffer.skip(0));
            },
        }
    } else {
        assert(rest =~= buffer.skip(0));
    }
}

/// Chunks have the effect of their whole text.
proof fn lemma_fed(s: StreamView, buffer: Seq<char>, chunks: Seq<Seq<u8>>)
    requires
        whole_characters(chunks),
        text::first_index(buffer, '\n') is None,
        text::byte_len(buffer) + all_bytes(chunks).len() <= stream::MAX_SSE_BUF,
    ensures
        ({
            let whole = s.after_lines(buffer + text::lossy_text(all_bytes(chunks)));
            let outcome = fed(s, buffer, chunks);
            &&& vstd::utf8::valid_utf8(all_bytes(chunks))
            &&& outcome.state == whole.state
            &&& outcome.events == whole.events
            &&& outcome.state.phase == Phase::Reading ==> outcome.buffer == whole.buffer
        }),
    decreases chunks.len(),
{
    if chunks.len() == 0 {
        let none = Seq::<u8>::empty();
        assert(vstd::utf8::valid_utf8(none));
        assert(vstd::utf8::decode_utf8(none) =~= Seq::empty());
        assert(buffer + text::lossy_text(none) =~= buffer);
    } else {
        let front = chunks.drop_last();
        let last = chunks.last();
        assert(chunks[chunks.len() - 1] == last);
        assert forall|i: int| 0 <= i < front.len() implies vstd::utf8::valid_utf8(
            #[trigger] front[i],
        ) by {
            assert(front[i] == chunks[i]);
        }
        lemma_fed(s, buffer, front);
        lemma_decode_concat(all_bytes(front), last);
        lemma_decode_concat(last, Seq::empty());
        let x = buffer + text::lossy_text(all_bytes(front));
        let y = text::lossy_text(last);
        assert(buffer + text::lossy_text(all_bytes(chunks)) =~= x + y);
        law_cuts_do_not_matter(s, x, y);
        let first = s.after_lines(x);
        let before = fed(s, buffer, front);
        if before.state.phase == Phase::Reading {
            lemma_rest(s, x);
            let k = x.len() - first.buffer.len();
            assert(x =~= x.take(k) + first.buffer);
            lemma_encode_concat(x.take(k), first.buffer);
            lemma_encode_concat(first.buffer, y);
            lemma_encode_concat(buffer, text::lossy_text(all_bytes(front)));
            assert(text::byte_len(x) == text::byte_len(buffer) + all_bytes(front).len());
            assert(text::byte_len(first.buffer) <= text::byte_len(x));
            assert(text::byte_len(y) == last.len());
            assert(all_bytes(chunks).len() == all_bytes(front).len() + last.len());
            assert(before.state.after_bytes(before.buffer, last) == first.state.after_lines(
                first.buffer + y,
            ));
        }
    }
}

/// How bytes are cut into chunks does not matter, as long as no character is cut and the
/// buffer holds them: the same events go out, and the stream is in the same state. The
/// buffer holds an unfinished line at most.
pub proof fn law_chunks_do_not_matter(
    s: StreamView,
    buffer: Seq<char>,
    a: Seq<Seq<u8>>,
    b: Seq<Seq<u8>>,
)
    requires
        whole_characters(a),
        whole_characters(b),
        all_bytes(a) == all_bytes(b),
        text::first_index(buffer, '\n') is None,
        text::byte_len(buffer) + all_bytes(a).len() <= stream::MAX_SSE_BUF,
    ensures
        fed(s, buffer, a).events == fed(s, buffer, b).events,
        fed(s, buffer, a).state == fed(s, buffer, b).state,
{
    lemma_fed(s, buffer, a);
    lemma_fed(s, buffer, b);
}

} // verus!
