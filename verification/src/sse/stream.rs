//! A streamed completion: what is done with each thing that the upstream sends, and
//! with the end of it.
//!
//! The caller reads the upstream and hands over what happened; every method returns
//! the events that go out to the client.

use crate::anthropic::types::{self, ErrorData, EventView, SseEvent};
use crate::cache::CachePolicy;
use crate::json::{self, Json, JsonView};
use crate::openai::converter::{
    self, EmptyTextGuard, MachineView, SseStateMachine,
};
use crate::openai::types::{self as openai, ChatDelta, Usage};
use crate::text::{self, byte_length, find_char, from_utf8_lossy, same, strip_prefix, trim};
use vstd::prelude::*;
use vstd::string::*;

verus! {

/// The most bytes of an unfinished line that are kept: 4 MiB.
pub const MAX_SSE_BUF: usize = 4194304;

/// What a stream waits for.
#[derive(Debug, Clone, Copy, PartialEq, Eq, Structural)]
pub enum Phase {
    /// The next chunk.
    Reading,
    /// That the caller says why a change cannot be decoded.
    Undecodable,
    /// That the upstream is done; what it still sends does not count.
    Draining,
    /// Nothing.
    Closed,
}

/// A finish reason that was received and not yet passed on.
#[derive(Debug)]
pub struct Pending {
    pub reason: String,
    pub output_tokens: Option<u32>,
}

/// What a pending finish reason says.
pub struct PendingView {
    pub reason: Seq<char>,
    pub output_tokens: Option<u32>,
}

/// Something about a stream that the client is not told of.
#[derive(Debug, Clone, PartialEq, Eq)]
pub enum Remark {
    /// The unfinished line grew too long.
    Overflow,
    /// A payload that is no JSON was skipped.
    Skipped(String),
    /// Part of a change could not be read as text, and this is the beginning of it.
    Partial(String),
}

/// What a remark says.
pub enum RemarkView {
    Overflow,
    Skipped(Seq<char>),
    Partial(Seq<char>),
}

/// A streamed completion on its way to the client.
#[derive(Debug)]
pub struct ChatStream {
    machine: SseStateMachine,
    completed: bool,
    last_usage: Option<Usage>,
    pending: Option<Pending>,
    phase: Phase,
    refused: Option<Json>,
    remarks: Vec<Remark>,
    buffer: String,
}

/// The state of a stream, but for the unfinished line.
#[verifier::ext_equal]
pub struct StreamView {
    pub machine: MachineView,
    /// Whether a finish reason was received.
    pub completed: bool,
    pub last_usage: Option<Usage>,
    pub pending: Option<PendingView>,
    pub phase: Phase,
    /// The change that cannot be decoded.
    pub refused: Option<JsonView>,
    pub remarks: Seq<RemarkView>,
}

/// The state of a stream, the unfinished line and the events that go out.
#[verifier::ext_equal]
pub struct Outcome {
    pub state: StreamView,
    pub buffer: Seq<char>,
    pub events: Seq<EventView>,
}

impl View for Pending {
    type V = PendingView;

    open spec fn view(&self) -> PendingView {
        PendingView { reason: self.reason@, output_tokens: self.output_tokens }
    }
}

impl View for Remark {
    type V = RemarkView;

    open spec fn view(&self) -> RemarkView {
        match self {
            Remark::Overflow => RemarkView::Overflow,
            Remark::Skipped(data) => RemarkView::Skipped(data@),
            Remark::Partial(preview) => RemarkView::Partial(preview@),
        }
    }
}

/// What a list of remarks says.
pub open spec fn remarks_view(remarks: Seq<Remark>) -> Seq<RemarkView> {
    Seq::new(remarks.len(), |i: int| remarks[i]@)
}

impl ChatStream {
    /// The state, but for the unfinished line.
    pub closed spec fn state(self) -> StreamView {
        StreamView {
            machine: self.machine@,
            completed: self.completed,
            last_usage: self.last_usage,
            pending: match self.pending {
                Some(pending) => Some(pending@),
                None => None,
            },
            phase: self.phase,
            refused: match self.refused {
                Some(delta) => Some(delta@),
                None => None,
            },
            remarks: remarks_view(self.remarks@),
        }
    }

    /// The unfinished line.
    pub closed spec fn unfinished(self) -> Seq<char> {
        self.buffer@
    }
}

/// A stream error.
pub open spec fn error_event(message: Seq<char>) -> EventView {
    EventView::Error { error_type: "stream_error"@, message }
}

/// The finish reason of a choice: a string that is not empty.
pub open spec fn finish_reason_of(choice: JsonView) -> Option<Seq<char>> {
    match choice.get("finish_reason"@) {
        Some(JsonView::String(reason)) => if reason.len() > 0 {
            Some(reason)
        } else {
            None
        },
        _ => None,
    }
}

/// The output tokens of a usage object.
pub open spec fn output_of(usage: Option<Usage>) -> Option<u32> {
    match usage {
        Some(u) => u.completion_tokens,
        None => None,
    }
}

/// The usage object of a chunk.
pub open spec fn chunk_usage(value: JsonView) -> Option<Usage> {
    match value.get("usage"@) {
        Some(usage) => openai::usage_of(usage),
        None => None,
    }
}

/// The payload of a line: what stands behind `data:` and at most one space.
pub open spec fn payload(line: Seq<char>) -> Option<Seq<char>> {
    let line = text::trimmed(line);
    match text::without_prefix(line, "data: "@) {
        Some(data) => Some(data),
        None => text::without_prefix(line, "data:"@),
    }
}

impl StreamView {
    /// A stream that nothing was received of yet.
    pub open spec fn fresh(machine: MachineView) -> StreamView {
        StreamView {
            machine,
            completed: false,
            last_usage: None,
            pending: None,
            phase: Phase::Reading,
            refused: None,
            remarks: Seq::empty(),
        }
    }

    /// The pending finish reason is passed on, if there is one: the message ends. The
    /// output tokens are those of the last usage object, or else those that came with
    /// the reason.
    pub open spec fn settled(self) -> (StreamView, Seq<EventView>) {
        match self.pending {
            Some(pending) => {
                let output = output_of(self.last_usage);
                let (machine, events) = self.machine.after_finish(
                    Some(pending.reason),
                    if output is Some {
                        output
                    } else {
                        pending.output_tokens
                    },
                    self.last_usage,
                );
                (StreamView { machine, pending: None, ..self }, events)
            },
            None => (self, Seq::empty()),
        }
    }

    /// The first finish reason is kept until the message ends; later ones do not count.
    pub open spec fn noting(self, reason: Option<Seq<char>>, output_tokens: Option<u32>) -> StreamView {
        match reason {
            Some(reason) if !self.completed => StreamView {
                completed: true,
                pending: Some(PendingView { reason, output_tokens }),
                ..self
            },
            _ => self,
        }
    }

    /// The stream is given up with an error.
    pub open spec fn failed(self, message: Seq<char>) -> (StreamView, Seq<EventView>) {
        (
            StreamView { phase: Phase::Closed, pending: None, ..self },
            seq![error_event(message)],
        )
    }

    /// The state with one remark more.
    pub open spec fn remarking(self, remark: RemarkView) -> StreamView {
        StreamView { remarks: self.remarks.push(remark), ..self }
    }

    /// One choice of a chunk. A change that cannot be decoded stops the stream until the
    /// caller says why; one of which nothing can be read as text ends it with an error.
    pub open spec fn after_choice(self, choice: JsonView, usage: Option<Usage>) -> (
        StreamView,
        Seq<EventView>,
    ) {
        match choice.get("delta"@) {
            Some(delta) => match openai::delta_of(delta) {
                Err(_) => (
                    StreamView { phase: Phase::Undecodable, refused: Some(delta), ..self },
                    Seq::empty(),
                ),
                Ok(change) => if change.has_unparseable_content() && change.has_no_text() {
                    self.failed(
                        "streaming delta content could not be decoded: "@ + change.preview(),
                    )
                } else {
                    let (machine, events) = self.machine.after_delta(change, usage);
                    let noted = if change.has_unparseable_content() {
                        self.remarking(RemarkView::Partial(change.preview()))
                    } else {
                        self
                    };
                    (
                        (StreamView { machine, ..noted }).noting(
                            finish_reason_of(choice),
                            output_of(usage),
                        ),
                        events,
                    )
                },
            },
            None => (self.noting(finish_reason_of(choice), output_of(usage)), Seq::empty()),
        }
    }

    /// The choices of a chunk, one after the other, until one stops the stream.
    pub open spec fn after_choices(self, choices: Seq<JsonView>, usage: Option<Usage>) -> (
        StreamView,
        Seq<EventView>,
    )
        decreases choices.len(),
    {
        if choices.len() == 0 {
            (self, Seq::empty())
        } else {
            let (before, events) = self.after_choices(choices.drop_last(), usage);
            if before.phase != Phase::Reading {
                (before, events)
            } else {
                let (after, more) = before.after_choice(choices.last(), usage);
                (after, events + more)
            }
        }
    }

    /// The message ends, and the rest of the upstream does not count, once both a finish
    /// reason and token counts were received.
    pub open spec fn concluding(self) -> (StreamView, Seq<EventView>) {
        if self.phase == Phase::Reading && self.completed && self.last_usage is Some {
            let (after, events) = self.settled();
            (StreamView { phase: Phase::Draining, ..after }, events)
        } else {
            (self, Seq::empty())
        }
    }

    /// One chunk of the completion.
    pub open spec fn after_chunk(self, value: JsonView) -> (StreamView, Seq<EventView>) {
        let usage = chunk_usage(value);
        let counted = if usage is Some {
            StreamView { last_usage: usage, ..self }
        } else {
            self
        };
        let (after, events) = match value.get("choices"@) {
            Some(JsonView::Array(choices)) => counted.after_choices(choices, usage),
            _ => (counted, Seq::empty()),
        };
        let (end, more) = after.concluding();
        (end, events + more)
    }

    /// One line. `[DONE]` ends the message where a finish reason is pending, and the
    /// rest of the upstream does not count; lines that are no JSON payload do not count
    /// either.
    #[verifier::opaque]
    pub open spec fn after_line(self, line: Seq<char>) -> (StreamView, Seq<EventView>) {
        match payload(line) {
            None => (self, Seq::empty()),
            Some(data) => if data == "[DONE]"@ {
                let (after, events) = self.settled();
                (StreamView { phase: Phase::Draining, ..after }, events)
            } else {
                match json::json_of_text(data) {
                    Some(value) => self.after_chunk(value),
                    None => (self.remarking(RemarkView::Skipped(data)), Seq::empty()),
                }
            },
        }
    }

    /// The finished lines of a buffer, one after the other, while the stream is read.
    pub open spec fn after_lines(self, buffer: Seq<char>) -> Outcome
        decreases buffer.len(),
    {
        if self.phase != Phase::Reading {
            Outcome { state: self, buffer, events: Seq::empty() }
        } else {
            match text::first_index(buffer, '\n') {
                Some(k) if 0 <= k < buffer.len() => {
                    let (after, events) = self.after_line(buffer.take(k));
                    let rest = after.after_lines(buffer.skip(k + 1));
                    Outcome {
                        state: rest.state,
                        buffer: rest.buffer,
                        events: events + rest.events,
                    }
                },
                _ => Outcome { state: self, buffer, events: Seq::empty() },
            }
        }
    }

    /// Bytes that the upstream sent. The stream is read no further once an unfinished
    /// line is too long.
    pub open spec fn after_bytes(self, buffer: Seq<char>, bytes: Seq<u8>) -> Outcome {
        if self.phase != Phase::Reading {
            Outcome { state: self, buffer, events: Seq::empty() }
        } else {
            let longer = buffer + text::lossy_text(bytes);
            if text::byte_len(longer) > MAX_SSE_BUF {
                Outcome {
                    state: StreamView {
                        phase: Phase::Draining,
                        ..self.remarking(RemarkView::Overflow)
                    },
                    buffer: longer,
                    events: Seq::empty(),
                }
            } else {
                self.after_lines(longer)
            }
        }
    }

    /// The upstream ended: a pending finish reason is passed on.
    pub open spec fn after_end(self) -> (StreamView, Seq<EventView>) {
        if self.phase != Phase::Reading {
            (self, Seq::empty())
        } else {
            let (after, events) = self.settled();
            (StreamView { phase: Phase::Draining, ..after }, events)
        }
    }

    /// The upstream was silent for too long: the message ends with what is there.
    pub open spec fn after_silence(self) -> (StreamView, Seq<EventView>) {
        if self.phase != Phase::Reading {
            (self, Seq::empty())
        } else {
            let (after, events) = if self.pending is Some {
                self.settled()
            } else {
                let (machine, events) = self.machine.after_finish(None, None, None);
                (StreamView { machine, ..self }, events)
            };
            (StreamView { phase: Phase::Closed, ..after }, events)
        }
    }

    /// The connection to the upstream failed.
    pub open spec fn after_failure(self, message: Seq<char>) -> (StreamView, Seq<EventView>) {
        if self.phase != Phase::Reading {
            (self, Seq::empty())
        } else {
            self.failed(message)
        }
    }

    /// The caller says why a change cannot be decoded: the stream is given up with that.
    pub open spec fn after_refusal(self, cause: Seq<char>) -> (StreamView, Seq<EventView>) {
        if self.phase != Phase::Undecodable {
            (self, Seq::empty())
        } else {
            (StreamView { refused: None, ..self }).failed(
                "undecodable streaming delta: "@ + cause,
            )
        }
    }

    /// The upstream is done. A finish reason that is still pending is passed on; where
    /// none was received, the message ends without one.
    pub open spec fn after_drain(self) -> (StreamView, Seq<EventView>) {
        if self.phase != Phase::Draining {
            (self, Seq::empty())
        } else if self.pending is Some {
            let (after, events) = self.settled();
            (StreamView { phase: Phase::Closed, ..after }, events)
        } else if self.completed {
            (StreamView { phase: Phase::Closed, ..self }, Seq::empty())
        } else {
            let (machine, events) = self.machine.after_finish(None, None, self.last_usage);
            (StreamView { machine, phase: Phase::Closed, ..self }, events)
        }
    }
}

/// A stream error.
fn stream_error(message: String) -> (r: SseEvent)
    ensures
        r@ == error_event(message@),
{
    SseEvent::Error { error: ErrorData { error_type: "stream_error".to_owned(), message } }
}

/// Adds events to a list.
fn emit_all(events: &mut Vec<SseEvent>, more: Vec<SseEvent>)
    ensures
        types::events_view(final(events)@) == types::events_view(old(events)@)
            + types::events_view(more@),
{
    let ghost before = events@;
    let ghost added = more@;
    let mut more = more;
    events.append(&mut more);
    assert(types::events_view(events@) =~= types::events_view(before) + types::events_view(added));
}

/// The output tokens of a usage object.
fn output_tokens_of(usage: &Option<Usage>) -> (r: Option<u32>)
    ensures
        r == output_of(*usage),
{
    match usage {
        Some(u) => u.completion_tokens,
        None => None,
    }
}

impl ChatStream {
    /// Starts a stream: the head of the answer goes out.
    pub fn start(
        model: &str,
        msg_id: &str,
        is_reasoning_model: bool,
        reasoning_field: String,
        reasoning_field_alt: Vec<String>,
        cache_policy: Option<CachePolicy>,
        guard: EmptyTextGuard,
    ) -> (r: (ChatStream, Vec<SseEvent>))
        ensures
            r.0.state() == StreamView::fresh(
                MachineView {
                    guard,
                    ..MachineView::fresh(
                        is_reasoning_model,
                        reasoning_field@,
                        text::texts(reasoning_field_alt@),
                        cache_policy matches Some(policy) && policy.reports_raw(),
                    )
                },
            ),
            r.0.unfinished() == Seq::<char>::empty(),
            types::events_view(r.1@) == seq![converter::start_event(model@, msg_id@)],
    {
        let mut machine = SseStateMachine::new(
            is_reasoning_model,
            reasoning_field,
            reasoning_field_alt,
            cache_policy,
        );
        machine.set_empty_text_guard(guard);
        let mut events: Vec<SseEvent> = Vec::new();
        events.push(machine.message_start(model, msg_id));
        assert(types::events_view(events@) =~= seq![converter::start_event(model@, msg_id@)]);
        let stream = ChatStream {
            machine,
            completed: false,
            last_usage: None,
            pending: None,
            phase: Phase::Reading,
            refused: None,
            remarks: Vec::new(),
            buffer: String::new(),
        };
        assert(remarks_view(stream.remarks@) =~= Seq::empty());
        (stream, events)
    }

    /// What the stream waits for.
    pub fn phase(&self) -> (r: Phase)
        ensures
            r == self.state().phase,
    {
        self.phase
    }

    /// The change that cannot be decoded, where the stream waits for the cause.
    pub fn undecodable(&self) -> (r: Option<&Json>)
        ensures
            match r {
                Some(delta) => self.state().refused == Some(delta@),
                None => self.state().refused is None,
            },
    {
        match &self.refused {
            Some(delta) => Some(delta),
            None => None,
        }
    }

    /// Whether neither text nor a tool call went out.
    pub fn is_silent(&self) -> (r: bool)
        ensures
            r == self.state().machine.is_silent(),
    {
        self.machine.is_silent()
    }

    /// Takes the remarks that were made.
    pub fn take_remarks(&mut self) -> (r: Vec<Remark>)
        ensures
            remarks_view(r@) == old(self).state().remarks,
            final(self).state() == (StreamView { remarks: Seq::empty(), ..old(self).state() }),
            final(self).unfinished() == old(self).unfinished(),
    {
        let mut taken: Vec<Remark> = Vec::new();
        std::mem::swap(&mut taken, &mut self.remarks);
        assert(remarks_view(self.remarks@) =~= Seq::empty());
        taken
    }

    /// Makes a remark.
    fn remark(&mut self, remark: Remark)
        ensures
            final(self).state() == old(self).state().remarking(remark@),
            final(self).unfinished() == old(self).unfinished(),
    {
        let ghost before = self.remarks@;
        self.remarks.push(remark);
        assert(remarks_view(self.remarks@) =~= remarks_view(before).push(remark@));
    }

    /// Passes a pending finish reason on.
    fn settle(&mut self, events: &mut Vec<SseEvent>)
        ensures
            final(self).state() == old(self).state().settled().0,
            final(self).unfinished() == old(self).unfinished(),
            types::events_view(final(events)@) == types::events_view(old(events)@) + old(
                self,
            ).state().settled().1,
    {
        let ghost before = types::events_view(events@);
        let pending = self.pending.take();
        match pending {
            Some(pending) => {
                let output_tokens = match output_tokens_of(&self.last_usage) {
                    Some(n) => Some(n),
                    None => pending.output_tokens,
                };
                let more = self.machine.finalize(
                    Some(pending.reason.as_str()),
                    output_tokens,
                    self.last_usage.as_ref(),
                );
                emit_all(events, more);
            },
            None => {
                assert(before + Seq::<EventView>::empty() =~= before);
            },
        }
    }

    /// Keeps the first finish reason.
    fn note(&mut self, reason: Option<&str>, output_tokens: Option<u32>)
        ensures
            final(self).state() == old(self).state().noting(text::opt_str(reason), output_tokens),
            final(self).unfinished() == old(self).unfinished(),
    {
        match reason {
            Some(reason) => if !self.completed {
                self.completed = true;
                self.pending = Some(Pending { reason: reason.to_owned(), output_tokens });
            },
            None => {},
        }
    }

    /// Gives the stream up with an error.
    fn fail(&mut self, message: String, events: &mut Vec<SseEvent>)
        ensures
            final(self).state() == old(self).state().failed(message@).0,
            final(self).unfinished() == old(self).unfinished(),
            types::events_view(final(events)@) == types::events_view(old(events)@) + old(
                self,
            ).state().failed(message@).1,
    {
        let ghost before = types::events_view(events@);
        self.phase = Phase::Closed;
        self.pending = None;
        types::emit(events, stream_error(message));
        assert(types::events_view(events@) =~= before + old(self).state().failed(message@).1);
    }

    /// Handles one choice of a chunk.
    fn process_choice(
        &mut self,
        choice: &Json,
        usage: &Option<Usage>,
        events: &mut Vec<SseEvent>,
    )
        ensures
            final(self).state() == old(self).state().after_choice(choice@, *usage).0,
            final(self).unfinished() == old(self).unfinished(),
            types::events_view(final(events)@) == types::events_view(old(events)@) + old(
                self,
            ).state().after_choice(choice@, *usage).1,
    {
        let ghost before = types::events_view(events@);
        let ghost start = self.state();
        let reason = match choice.get("finish_reason") {
            Some(Json::String(reason)) => if reason.as_str().unicode_len() > 0 {
                Some(reason.as_str())
            } else {
                None
            },
            _ => None,
        };
        match choice.get("delta") {
            Some(delta) => match ChatDelta::from_json(delta) {
                Err(_) => {
                    self.phase = Phase::Undecodable;
                    self.refused = Some(delta.clone());
                    assert(before + Seq::<EventView>::empty() =~= before);
                },
                Ok(change) => {
                    if change.has_unparseable_content() && change.has_no_text() {
                        let mut message =
                            "streaming delta content could not be decoded: ".to_owned();
                        message.append(change.unparseable_preview().as_str());
                        self.fail(message, events);
                        return;
                    }
                    if change.has_unparseable_content() {
                        self.remark(Remark::Partial(change.unparseable_preview()));
                    }
                    let more = self.machine.process_delta(&change, usage.as_ref());
                    emit_all(events, more);
                    self.note(reason, output_tokens_of(usage));
                },
            },
            None => {
                self.note(reason, output_tokens_of(usage));
                assert(before + Seq::<EventView>::empty() =~= before);
            },
        }
    }

    /// Handles the choices of a chunk.
    fn process_choices(
        &mut self,
        choices: &Vec<Json>,
        usage: &Option<Usage>,
        events: &mut Vec<SseEvent>,
    )
        ensures
            final(self).state() == old(self).state().after_choices(
                json::items_view(choices@),
                *usage,
            ).0,
            final(self).unfinished() == old(self).unfinished(),
            types::events_view(final(events)@) == types::events_view(old(events)@) + old(
                self,
            ).state().after_choices(json::items_view(choices@), *usage).1,
    {
        let ghost before = types::events_view(events@);
        let ghost start = self.state();
        let ghost all = json::items_view(choices@);
        let mut i: usize = 0;
        assert(before + Seq::<EventView>::empty() =~= before);
        while i < choices.len()
            invariant
                i <= choices@.len(),
                all == json::items_view(choices@),
                self.state() == start.after_choices(all.take(i as int), *usage).0,
                self.unfinished() == old(self).unfinished(),
                types::events_view(events@) == before + start.after_choices(
                    all.take(i as int),
                    *usage,
                ).1,
            decreases choices@.len() - i,
        {
            proof {
                assert(all.take(i + 1).drop_last() =~= all.take(i as int));
                assert(all.take(i + 1).last() == choices@[i as int]@);
            }
            match self.phase {
                Phase::Reading => {
                    self.process_choice(&choices[i], usage, events);
                    assert(types::events_view(events@) =~= before + start.after_choices(
                        all.take(i + 1),
                        *usage,
                    ).1);
                },
                _ => {},
            }
            i = i + 1;
        }
        assert(all.take(i as int) =~= all);
    }

    /// Ends the message once both a finish reason and token counts were received.
    fn conclude(&mut self, events: &mut Vec<SseEvent>)
        ensures
            final(self).state() == old(self).state().concluding().0,
            final(self).unfinished() == old(self).unfinished(),
            types::events_view(final(events)@) == types::events_view(old(events)@) + old(
                self,
            ).state().concluding().1,
    {
        let ghost before = types::events_view(events@);
        let reading = match self.phase {
            Phase::Reading => true,
            _ => false,
        };
        if reading && self.completed && self.last_usage.is_some() {
            self.settle(events);
            self.phase = Phase::Draining;
        } else {
            assert(before + Seq::<EventView>::empty() =~= before);
        }
    }

    /// Handles one chunk of the completion.
    fn process_chunk(&mut self, value: &Json, events: &mut Vec<SseEvent>)
        ensures
            final(self).state() == old(self).state().after_chunk(value@).0,
            final(self).unfinished() == old(self).unfinished(),
            types::events_view(final(events)@) == types::events_view(old(events)@) + old(
                self,
            ).state().after_chunk(value@).1,
    {
        let ghost before = types::events_view(events@);
        let usage = match value.get("usage") {
            Some(usage) => Usage::from_json(usage),
            None => None,
        };
        if usage.is_some() {
            self.last_usage = usage;
        }
        match value.get("choices") {
            Some(Json::Array(choices)) => {
                self.process_choices(choices, &usage, events);
            },
            _ => {
                assert(before + Seq::<EventView>::empty() =~= before);
            },
        }
        self.conclude(events);
        assert(types::events_view(events@) =~= before + old(self).state().after_chunk(value@).1);
    }

    /// Handles one line.
    fn process_line(&mut self, line: &str, events: &mut Vec<SseEvent>)
        ensures
            final(self).state() == old(self).state().after_line(line@).0,
            final(self).unfinished() == old(self).unfinished(),
            types::events_view(final(events)@) == types::events_view(old(events)@) + old(
                self,
            ).state().after_line(line@).1,
    {
        let ghost before = types::events_view(events@);
        proof {
            reveal(StreamView::after_line);
            assert(before + Seq::<EventView>::empty() =~= before);
        }
        let line = trim(line);
        let data = match strip_prefix(line, "data: ") {
            Some(data) => data,
            None => match strip_prefix(line, "data:") {
                Some(data) => data,
                None => {
                    return;
                },
            },
        };
        if same(data, "[DONE]") {
            self.settle(events);
            self.phase = Phase::Draining;
            return;
        }
        match Json::parse(data) {
            Some(value) => {
                self.process_chunk(&value, events);
            },
            None => {
                self.remark(Remark::Skipped(data.to_owned()));
            },
        }
    }

    /// Handles the finished lines of the buffer.
    fn process_lines(&mut self, events: &mut Vec<SseEvent>)
        ensures
            ({
                let outcome = old(self).state().after_lines(old(self).unfinished());
                &&& final(self).state() == outcome.state
                &&& final(self).unfinished() == outcome.buffer
                &&& types::events_view(final(events)@) == types::events_view(old(events)@)
                    + outcome.events
            }),
    {
        let ghost outcome = self.state().after_lines(self.unfinished());
        let ghost before = types::events_view(events@);
        assert(before + outcome.events =~= types::events_view(events@) + self.state().after_lines(
            self.unfinished(),
        ).events);
        loop
            invariant
                self.state().after_lines(self.unfinished()).state == outcome.state,
                self.state().after_lines(self.unfinished()).buffer == outcome.buffer,
                types::events_view(events@) + self.state().after_lines(self.unfinished()).events
                    == before + outcome.events,
            ensures
                self.state() == outcome.state,
                self.unfinished() == outcome.buffer,
                types::events_view(events@) == before + outcome.events,
            decreases self.unfinished().len(),
        {
            let reading = match self.phase {
                Phase::Reading => true,
                _ => false,
            };
            if !reading {
                assert(types::events_view(events@) + Seq::<EventView>::empty()
                    =~= types::events_view(events@));
                break;
            }
            let at: usize = match find_char(self.buffer.as_str(), '\n') {
                Some(at) => at,
                None => {
                    assert(types::events_view(events@) + Seq::<EventView>::empty()
                        =~= types::events_view(events@));
                    break;
                },
            };
            proof {
                text::lemma_first_index(self.unfinished(), '\n');
            }
            let ghost whole = self.unfinished();
            let ghost state = self.state();
            let ghost sent = types::events_view(events@);
            let length: usize = self.buffer.as_str().unicode_len();
            let line = self.buffer.as_str().substring_char(0, at).to_owned();
            let rest = self.buffer.as_str().substring_char(at + 1, length).to_owned();
            assert(line@ =~= whole.take(at as int));
            assert(rest@ =~= whole.skip(at + 1));
            self.buffer = rest;
            self.process_line(line.as_str(), events);
            proof {
                let (after, more) = state.after_line(whole.take(at as int));
                assert(self.state() == after);
                let tail = after.after_lines(whole.skip(at + 1));
                assert(types::events_view(events@) + tail.events =~= sent + (more + tail.events));
            }
        }
    }

    /// The upstream sent bytes.
    pub fn on_bytes(&mut self, bytes: &[u8]) -> (events: Vec<SseEvent>)
        ensures
            ({
                let outcome = old(self).state().after_bytes(old(self).unfinished(), bytes@);
                &&& final(self).state() == outcome.state
                &&& final(self).unfinished() == outcome.buffer
                &&& types::events_view(events@) == outcome.events
            }),
    {
        let mut events: Vec<SseEvent> = Vec::new();
        assert(types::events_view(events@) =~= Seq::empty());
        match self.phase {
            Phase::Reading => {
                let chunk = from_utf8_lossy(bytes);
                self.buffer.append(chunk.as_str());
                if byte_length(self.buffer.as_str()) > MAX_SSE_BUF {
                    self.remark(Remark::Overflow);
                    self.phase = Phase::Draining;
                } else {
                    self.process_lines(&mut events);
                    let ghost outcome = old(self).state().after_bytes(
                        old(self).unfinished(),
                        bytes@,
                    );
                    assert(Seq::<EventView>::empty() + outcome.events =~= outcome.events);
                }
            },
            _ => {},
        }
        events
    }

    /// The upstream ended.
    pub fn on_end(&mut self) -> (events: Vec<SseEvent>)
        ensures
            final(self).state() == old(self).state().after_end().0,
            final(self).unfinished() == old(self).unfinished(),
            types::events_view(events@) == old(self).state().after_end().1,
    {
        let mut events: Vec<SseEvent> = Vec::new();
        assert(types::events_view(events@) =~= Seq::empty());
        match self.phase {
            Phase::Reading => {
                self.settle(&mut events);
                self.phase = Phase::Draining;
                let ghost more = old(self).state().after_end().1;
                assert(Seq::<EventView>::empty() + more =~= more);
            },
            _ => {},
        }
        events
    }

    /// The upstream was silent for too long.
    pub fn on_idle_timeout(&mut self) -> (events: Vec<SseEvent>)
        ensures
            final(self).state() == old(self).state().after_silence().0,
            final(self).unfinished() == old(self).unfinished(),
            types::events_view(events@) == old(self).state().after_silence().1,
    {
        let mut events: Vec<SseEvent> = Vec::new();
        assert(types::events_view(events@) =~= Seq::empty());
        match self.phase {
            Phase::Reading => {
                if self.pending.is_some() {
                    self.settle(&mut events);
                } else {
                    let more = self.machine.finalize(None, None, None);
                    emit_all(&mut events, more);
                }
                self.phase = Phase::Closed;
                let ghost more = old(self).state().after_silence().1;
                assert(Seq::<EventView>::empty() + more =~= more);
            },
            _ => {},
        }
        events
    }

    /// The connection to the upstream failed.
    pub fn on_transport_error(&mut self, message: String) -> (events: Vec<SseEvent>)
        ensures
            final(self).state() == old(self).state().after_failure(message@).0,
            final(self).unfinished() == old(self).unfinished(),
            types::events_view(events@) == old(self).state().after_failure(message@).1,
    {
        let mut events: Vec<SseEvent> = Vec::new();
        assert(types::events_view(events@) =~= Seq::empty());
        match self.phase {
            Phase::Reading => {
                self.fail(message, &mut events);
                let ghost more = old(self).state().after_failure(message@).1;
                assert(Seq::<EventView>::empty() + more =~= more);
            },
            _ => {},
        }
        events
    }

    /// The caller says why a change cannot be decoded.
    pub fn on_undecodable(&mut self, cause: &str) -> (events: Vec<SseEvent>)
        ensures
            final(self).state() == old(self).state().after_refusal(cause@).0,
            final(self).unfinished() == old(self).unfinished(),
            types::events_view(events@) == old(self).state().after_refusal(cause@).1,
    {
        let mut events: Vec<SseEvent> = Vec::new();
        assert(types::events_view(events@) =~= Seq::empty());
        match self.phase {
            Phase::Undecodable => {
                self.refused = None;
                let mut message = "undecodable streaming delta: ".to_owned();
                message.append(cause);
                self.fail(message, &mut events);
                let ghost more = old(self).state().after_refusal(cause@).1;
                assert(Seq::<EventView>::empty() + more =~= more);
            },
            _ => {},
        }
        events
    }

    /// The upstream is done, or was waited for long enough.
    pub fn on_drained(&mut self) -> (events: Vec<SseEvent>)
        ensures
            final(self).state() == old(self).state().after_drain().0,
            final(self).unfinished() == old(self).unfinished(),
            types::events_view(events@) == old(self).state().after_drain().1,
    {
        let mut events: Vec<SseEvent> = Vec::new();
        assert(types::events_view(events@) =~= Seq::empty());
        match self.phase {
            Phase::Draining => {
                if self.pending.is_some() {
                    self.settle(&mut events);
                    let ghost more = old(self).state().after_drain().1;
                    assert(Seq::<EventView>::empty() + more =~= more);
                } else if !self.completed {
                    events = self.machine.finalize(None, None, self.last_usage.as_ref());
                }
                self.phase = Phase::Closed;
            },
            _ => {},
        }
        events
    }

    /// The last token counts of the upstream.
    pub fn last_usage(&self) -> (r: Option<Usage>)
        ensures
            r == self.state().last_usage,
    {
        self.last_usage
    }
}

} // verus!
