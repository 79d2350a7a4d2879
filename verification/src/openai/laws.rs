//! What holds of every stream that the state machine produces.

use crate::anthropic::types::{BlockView, EventView, PieceView};
use crate::openai::converter::{self, EmptyTextGuard, MachineView, OpenBlock};
use crate::openai::types::{ChatDeltaView, ToolCallDeltaView, Usage};
use crate::text;
use vstd::prelude::*;

verus! {

/// What a block is for.
pub enum BlockKind {
    Thinking,
    Text,
    ToolUse,
}

/// The blocks that a client has open, the index of the next one, and the thinking block
/// that has been signed and stops next.
#[verifier::ext_equal]
pub struct Ledger {
    pub open: Map<u32, BlockKind>,
    pub next: int,
    pub signed: Option<u32>,
}

/// What a block is for.
pub open spec fn kind_of(block: BlockView) -> BlockKind {
    match block {
        BlockView::Thinking { .. } => BlockKind::Thinking,
        BlockView::Text { .. } => BlockKind::Text,
        BlockView::ToolUse { .. } => BlockKind::ToolUse,
    }
}

/// Whether a piece belongs to a block of a kind.
pub open spec fn fits(kind: BlockKind, piece: PieceView) -> bool {
    match piece {
        PieceView::Thinking(_) => kind is Thinking,
        PieceView::Signature(_) => kind is Thinking,
        PieceView::Text(_) => kind is Text,
        PieceView::InputJson(_) => kind is ToolUse,
    }
}

/// What a client makes of one event: blocks start at the next index, pieces go to
/// open blocks of their kind, only open blocks stop, and the message stops when no
/// block is open. A thinking block is signed once, and its stop follows at once. `None`
/// where the event breaks these rules.
pub open spec fn enter(ledger: Option<Ledger>, event: EventView) -> Option<Ledger> {
    match ledger {
        None => None,
        Some(l) => match l.signed {
            Some(signed) => if event == (EventView::BlockStop { index: signed }) {
                Some(Ledger { open: l.open.remove(signed), next: l.next, signed: None })
            } else {
                None
            },
            None => match event {
                EventView::BlockStart { index, block } => if index == l.next {
                    Some(
                        Ledger {
                            open: l.open.insert(index, kind_of(block)),
                            next: l.next + 1,
                            signed: None,
                        },
                    )
                } else {
                    None
                },
                EventView::BlockDelta { index, piece } => if l.open.contains_key(index) && fits(
                    l.open[index],
                    piece,
                ) {
                    match piece {
                        PieceView::Signature(_) => Some(Ledger { signed: Some(index), ..l }),
                        _ => Some(l),
                    }
                } else {
                    None
                },
                EventView::BlockStop { index } => if l.open.contains_key(index)
                    && !(l.open[index] is Thinking) {
                    Some(Ledger { open: l.open.remove(index), next: l.next, signed: None })
                } else {
                    None
                },
                EventView::MessageStop => if l.open.dom() == Set::<u32>::empty() {
                    Some(l)
                } else {
                    None
                },
                _ => Some(l),
            },
        },
    }
}

/// What a client makes of a list of events.
pub open spec fn enter_all(ledger: Option<Ledger>, events: Seq<EventView>) -> Option<Ledger>
    decreases events.len(),
{
    if events.len() == 0 {
        ledger
    } else {
        enter(enter_all(ledger, events.drop_last()), events.last())
    }
}

/// The index that the next block gets.
pub open spec fn next_index(m: MachineView) -> int {
    m.content_index + if m.open == OpenBlock::Nothing {
        0int
    } else {
        1
    }
}

/// The blocks of tool calls.
pub open spec fn tool_map(tools: Seq<(u32, u32)>) -> Map<u32, BlockKind> {
    Map::new(
        |index: u32| exists|k: int| 0 <= k < tools.len() && (#[trigger] tools[k]).1 == index,
        |index: u32| BlockKind::ToolUse,
    )
}

/// The blocks that the client of a stream has open.
pub open spec fn ledger_of(m: MachineView) -> Ledger {
    let tools = tool_map(m.tools);
    Ledger {
        open: match m.open {
            OpenBlock::Nothing => tools,
            OpenBlock::Thinking => tools.insert(m.content_index, BlockKind::Thinking),
            OpenBlock::Text => tools.insert(m.content_index, BlockKind::Text),
        },
        next: next_index(m),
        signed: None,
    }
}

/// Whether every tool call has a block of its own, before the current index.
pub open spec fn sound(m: MachineView) -> bool {
    &&& forall|k: int| 0 <= k < m.tools.len() ==> (#[trigger] m.tools[k]).1 < m.content_index
    &&& forall|j: int, k: int|
        0 <= j < k < m.tools.len() ==> (#[trigger] m.tools[j]).1 != (#[trigger] m.tools[k]).1
}

/// How many tool call parts a change brings.
pub open spec fn call_count(delta: ChatDeltaView) -> nat {
    match delta.tool_calls {
        Some(calls) => calls.len(),
        None => 0,
    }
}

/// Entering two lists is entering the one after the other.
pub proof fn lemma_enter_concat(ledger: Option<Ledger>, a: Seq<EventView>, b: Seq<EventView>)
    ensures
        enter_all(ledger, a + b) == enter_all(enter_all(ledger, a), b),
    decreases b.len(),
{
    if b.len() == 0 {
        assert(a + b =~= a);
    } else {
        lemma_enter_concat(ledger, a, b.drop_last());
        assert((a + b).drop_last() =~= a + b.drop_last());
        assert((a + b).last() == b.last());
    }
}

/// Entering one event.
proof fn lemma_enter_one(ledger: Option<Ledger>, e: EventView)
    ensures
        enter_all(ledger, seq![e]) == enter(ledger, e),
{
    assert(seq![e].drop_last() =~= Seq::empty());
    assert(enter_all(ledger, Seq::<EventView>::empty()) == ledger);
}

/// Entering two events.
proof fn lemma_enter_two(ledger: Option<Ledger>, a: EventView, b: EventView)
    ensures
        enter_all(ledger, seq![a, b]) == enter(enter(ledger, a), b),
{
    lemma_enter_one(ledger, a);
    assert(seq![a, b].drop_last() =~= seq![a]);
}

/// Entering one event more.
proof fn lemma_enter_push(ledger: Option<Ledger>, events: Seq<EventView>, e: EventView)
    ensures
        enter_all(ledger, events.push(e)) == enter(enter_all(ledger, events), e),
{
    assert(events.push(e).drop_last() =~= events);
}

/// How many blocks a list of events starts.
pub open spec fn starts(events: Seq<EventView>) -> nat
    decreases events.len(),
{
    if events.len() == 0 {
        0
    } else {
        starts(events.drop_last()) + if events.last() is BlockStart {
            1nat
        } else {
            0
        }
    }
}

/// The starts of two lists add up.
pub proof fn lemma_starts_concat(a: Seq<EventView>, b: Seq<EventView>)
    ensures
        starts(a + b) == starts(a) + starts(b),
    decreases b.len(),
{
    if b.len() == 0 {
        assert(a + b =~= a);
    } else {
        lemma_starts_concat(a, b.drop_last());
        assert((a + b).drop_last() =~= a + b.drop_last());
    }
}

/// A list starts at least as many blocks as one of its events.
proof fn lemma_starts_at(events: Seq<EventView>, k: int)
    requires
        0 <= k < events.len(),
        events[k] is BlockStart,
    ensures
        starts(events) >= 1,
    decreases events.len(),
{
    if k < events.len() - 1 {
        lemma_starts_at(events.drop_last(), k);
    }
}

/// The next index of a client counts the blocks that were started.
proof fn lemma_next_counts_starts(ledger: Ledger, events: Seq<EventView>)
    requires
        enter_all(Some(ledger), events) is Some,
    ensures
        enter_all(Some(ledger), events)->0.next == ledger.next + starts(events),
    decreases events.len(),
{
    if events.len() > 0 {
        lemma_next_counts_starts(ledger, events.drop_last());
    }
}

/// The current block is none of a tool call.
proof fn lemma_current_is_no_tool(m: MachineView)
    requires
        sound(m),
    ensures
        !tool_map(m.tools).contains_key(m.content_index),
{
}

/// Ending the open block keeps the rules.
proof fn lemma_closing(m: MachineView)
    requires
        sound(m),
        next_index(m) <= u32::MAX,
    ensures
        enter_all(Some(ledger_of(m)), m.closing()) == Some(ledger_of(m.closed())),
        sound(m.closed()),
        m.closed().open == OpenBlock::Nothing,
        m.closed().content_index == next_index(m),
{
    let l = Some(ledger_of(m));
    lemma_current_is_no_tool(m);
    match m.open {
        OpenBlock::Nothing => {},
        OpenBlock::Thinking => {
            lemma_enter_two(l, m.closing()[0], m.closing()[1]);
            assert(m.closing() =~= seq![m.closing()[0], m.closing()[1]]);
            assert(ledger_of(m).open.remove(m.content_index) =~= tool_map(m.tools));
        },
        OpenBlock::Text => {
            lemma_enter_one(l, m.closing()[0]);
            assert(m.closing() =~= seq![m.closing()[0]]);
            assert(ledger_of(m).open.remove(m.content_index) =~= tool_map(m.tools));
        },
    }
}

proof fn lemma_reasoning(m: MachineView, delta: ChatDeltaView)
    requires
        sound(m),
        next_index(m) + starts(m.after_reasoning(delta).1) <= u32::MAX,
    ensures
        ({
            let (after, events) = m.after_reasoning(delta);
            &&& enter_all(Some(ledger_of(m)), events) == Some(ledger_of(after))
            &&& sound(after)
        }),
{
    let l = Some(ledger_of(m));
    let (after, events) = m.after_reasoning(delta);
    match m.reasoning(delta) {
        Some(words) if m.is_reasoning_model => {
            match m.open {
                OpenBlock::Thinking => {
                    lemma_enter_one(l, events[0]);
                    assert(events =~= seq![events[0]]);
                },
                _ => {
                    let opening = events.skip(m.closing().len() as int);
                    lemma_starts_at(events, m.closing().len() as int);
                    lemma_closing(m);
                    assert(opening =~= seq![opening[0], opening[1]]);
                    assert(events =~= m.closing() + opening);
                    lemma_enter_concat(l, m.closing(), opening);
                    lemma_enter_two(enter_all(l, m.closing()), opening[0], opening[1]);
                },
            }
        },
        _ => {},
    }
}

proof fn lemma_text(m: MachineView, delta: ChatDeltaView)
    requires
        sound(m),
        next_index(m) + starts(m.after_text(delta).1) <= u32::MAX,
    ensures
        ({
            let (after, events) = m.after_text(delta);
            &&& enter_all(Some(ledger_of(m)), events) == Some(ledger_of(after))
            &&& sound(after)
        }),
{
    let l = Some(ledger_of(m));
    let (after, events) = m.after_text(delta);
    match delta.content.text {
        Some(words) if words.len() > 0 => {
            let ready = if m.open == OpenBlock::Text {
                m
            } else {
                m.closed()
            };
            let piece = EventView::BlockDelta {
                index: ready.content_index,
                piece: PieceView::Text(words),
            };
            if m.open == OpenBlock::Text {
                assert(events =~= seq![piece]);
                lemma_enter_one(l, piece);
            } else {
                let start = EventView::BlockStart {
                    index: ready.content_index,
                    block: BlockView::Text { text: Seq::empty() },
                };
                lemma_starts_at(events, m.closing().len() as int);
                lemma_closing(m);
                lemma_enter_push(l, m.closing(), start);
                lemma_enter_push(l, m.closing().push(start), piece);
                assert(events =~= m.closing().push(start).push(piece));
            }
        },
        _ => {},
    }
}

/// A known tool call has its block in the map.
proof fn lemma_known_tool(tools: Seq<(u32, u32)>, upstream: u32)
    ensures
        tool_index_ok(tools, upstream),
    decreases tools.len(),
{
    if tools.len() > 0 && tools[0].0 != upstream {
        let rest = tools.drop_first();
        lemma_known_tool(rest, upstream);
        match converter::tool_index(rest, upstream) {
            Some(index) => {
                let k = choose|k: int| 0 <= k < rest.len() && (#[trigger] rest[k]).1 == index;
                assert(tools[k + 1].1 == index);
            },
            None => {},
        }
    }
}

spec fn tool_index_ok(tools: Seq<(u32, u32)>, upstream: u32) -> bool {
    match converter::tool_index(tools, upstream) {
        Some(index) => tool_map(tools).contains_key(index),
        None => true,
    }
}

proof fn lemma_tool(m: MachineView, call: ToolCallDeltaView)
    requires
        sound(m),
        next_index(m) + starts(m.after_tool(call).1) <= u32::MAX,
    ensures
        ({
            let (after, events) = m.after_tool(call);
            &&& enter_all(Some(ledger_of(m)), events) == Some(ledger_of(after))
            &&& sound(after)
        }),
{
    let l = Some(ledger_of(m));
    let (after, events) = m.after_tool(call);
    let known = converter::tool_index(m.tools, call.index.unwrap_or(0));
    lemma_known_tool(m.tools, call.index.unwrap_or(0));
    lemma_current_is_no_tool(m);
    match known {
        Some(index) => {
            if events.len() > 0 {
                assert(events =~= seq![events[0]]);
                lemma_enter_one(l, events[0]);
            }
        },
        None => {
            let ready = m.closed();
            let opening = m.opening_tool(call).1;
            lemma_starts_at(events, m.closing().len() as int);
            lemma_closing(m);
            lemma_current_is_no_tool(ready);
            lemma_enter_push(l, m.closing(), opening.last());
            assert(opening =~= m.closing().push(opening.last()));
            assert(after.tools.last() == (call.index.unwrap_or(0), ready.content_index));
            assert forall|index: u32|
                tool_map(after.tools).contains_key(index) == ledger_of(ready).open.insert(
                    ready.content_index,
                    BlockKind::ToolUse,
                ).contains_key(index) by {
                if index == ready.content_index {
                    assert(after.tools[after.tools.len() - 1].1 == index);
                } else {
                    if tool_map(ready.tools).contains_key(index) {
                        let k = choose|k: int|
                            0 <= k < ready.tools.len() && (#[trigger] ready.tools[k]).1 == index;
                        assert(after.tools[k].1 == index);
                    }
                    if tool_map(after.tools).contains_key(index) {
                        let k = choose|k: int|
                            0 <= k < after.tools.len() && (#[trigger] after.tools[k]).1 == index;
                        assert(ready.tools[k].1 == index);
                    }
                }
            }
            assert(ledger_of(after).open =~= ledger_of(ready).open.insert(
                ready.content_index,
                BlockKind::ToolUse,
            ));
            assert forall|k: int| 0 <= k < after.tools.len() implies (#[trigger] after.tools[k]).1
                < after.content_index by {
                if k < ready.tools.len() {
                    assert(after.tools[k] == ready.tools[k]);
                }
            }
            assert forall|j: int, k: int| 0 <= j < k < after.tools.len() implies (
            #[trigger] after.tools[j]).1 != (#[trigger] after.tools[k]).1 by {
                assert(after.tools[j] == ready.tools[j]);
                if k < ready.tools.len() {
                    assert(after.tools[k] == ready.tools[k]);
                }
            }
            assert(enter_all(l, opening) == Some(ledger_of(after)));
            if events.len() > opening.len() {
                assert(events =~= opening.push(events.last()));
                lemma_enter_push(l, opening, events.last());
            } else {
                assert(events =~= opening);
            }
        },
    }
}

proof fn lemma_tools(m: MachineView, calls: Seq<ToolCallDeltaView>)
    requires
        sound(m),
        next_index(m) + starts(m.after_tools(calls).1) <= u32::MAX,
    ensures
        ({
            let (after, events) = m.after_tools(calls);
            &&& enter_all(Some(ledger_of(m)), events) == Some(ledger_of(after))
            &&& sound(after)
        }),
    decreases calls.len(),
{
    if calls.len() > 0 {
        let (before, events) = m.after_tools(calls.drop_last());
        let more = before.after_tool(calls.last()).1;
        lemma_starts_concat(events, more);
        lemma_tools(m, calls.drop_last());
        lemma_next_counts_starts(ledger_of(m), events);
        lemma_tool(before, calls.last());
        lemma_enter_concat(Some(ledger_of(m)), events, more);
    }
}

/// The events of a streamed change keep the rules of blocks: each block starts at the
/// next index, pieces go to open blocks of their kind, only open blocks stop, and a
/// thinking block is signed right before its stop. The indexes of the blocks have to fit
/// in 32 bits.
pub proof fn law_blocks_keep_order(m: MachineView, delta: ChatDeltaView, usage: Option<Usage>)
    requires
        sound(m),
        next_index(m) + starts(m.after_delta(delta, usage).1) <= u32::MAX,
    ensures
        ({
            let (after, events) = m.after_delta(delta, usage);
            &&& enter_all(Some(ledger_of(m)), events) == Some(ledger_of(after))
            &&& sound(after)
            &&& next_index(after) == next_index(m) + starts(events)
        }),
{
    if m.is_usage_only(delta) {
        match usage {
            Some(u) => {
                assert(ledger_of(m.with_usage(u)) =~= ledger_of(m));
            },
            None => {},
        }
    } else {
        let l = Some(ledger_of(m));
        let (thought, a) = m.after_reasoning(delta);
        let (spoken, b) = thought.after_text(delta);
        lemma_starts_concat(a, b);
        match delta.tool_calls {
            Some(calls) => lemma_starts_concat(a + b, spoken.after_tools(calls).1),
            None => {},
        }
        lemma_reasoning(m, delta);
        lemma_next_counts_starts(ledger_of(m), a);
        lemma_text(thought, delta);
        lemma_enter_concat(l, a, b);
        lemma_next_counts_starts(ledger_of(m), a + b);
        match delta.tool_calls {
            Some(calls) => {
                lemma_tools(spoken, calls);
                lemma_enter_concat(l, a + b, spoken.after_tools(calls).1);
            },
            None => {},
        }
        lemma_next_counts_starts(ledger_of(m), m.after_delta(delta, usage).1);
    }
}

/// Stopping the tool blocks one by one closes all of them.
proof fn lemma_tool_stops(m: MachineView, n: int)
    requires
        sound(m),
        0 <= n <= m.tools.len(),
    ensures
        enter_all(
            Some(Ledger { open: tool_map(m.tools), next: next_index(m), signed: None }),
            converter::tool_stops(m.tools).take(n),
        ) == Some(Ledger { open: tool_map(m.tools.skip(n)), next: next_index(m), signed: None }),
    decreases n,
{
    let l = Some(Ledger { open: tool_map(m.tools), next: next_index(m), signed: None });
    let stops = converter::tool_stops(m.tools);
    if n == 0 {
        assert(stops.take(0) =~= Seq::empty());
        assert(m.tools.skip(0) =~= m.tools);
    } else {
        lemma_tool_stops(m, n - 1);
        assert(stops.take(n) =~= stops.take(n - 1).push(stops[n - 1]));
        lemma_enter_push(l, stops.take(n - 1), stops[n - 1]);
        let rest = m.tools.skip(n - 1);
        let index = m.tools[n - 1].1;
        assert(rest[0] == m.tools[n - 1]);
        assert(rest.drop_first() =~= m.tools.skip(n));
        assert forall|i: u32|
            tool_map(m.tools.skip(n)).contains_key(i) == tool_map(rest).remove(index).contains_key(
                i,
            ) by {
            if tool_map(m.tools.skip(n)).contains_key(i) {
                let k = choose|k: int|
                    0 <= k < m.tools.skip(n).len() && (#[trigger] m.tools.skip(n)[k]).1 == i;
                assert(m.tools[k + n].1 == i);
                assert(m.tools[n - 1].1 != m.tools[k + n].1);
                assert(rest[k + 1].1 == i);
            }
            if tool_map(rest).contains_key(i) && i != index {
                let k = choose|k: int| 0 <= k < rest.len() && (#[trigger] rest[k]).1 == i;
                assert(m.tools.skip(n)[k - 1].1 == i);
            }
        }
        assert(tool_map(rest).remove(index) =~= tool_map(m.tools.skip(n)));
        assert(tool_map(rest).contains_key(index));
    }
}

/// The end of a stream stops every open block before the message stops. Left out is
/// the error that the guard puts in place of a silent ending.
pub proof fn law_the_end_closes_every_block(
    m: MachineView,
    reason: Option<Seq<char>>,
    output_tokens: Option<u32>,
    usage: Option<Usage>,
)
    requires
        sound(m),
        next_index(m) <= u32::MAX,
        !(m.is_silent() && m.guard == EmptyTextGuard::Enforce),
    ensures
        enter_all(Some(ledger_of(m)), m.after_finish(reason, output_tokens, usage).1) == Some(
            Ledger { open: Map::empty(), next: next_index(m), signed: None },
        ),
{
    let l = Some(ledger_of(m));
    let events = m.after_finish(reason, output_tokens, usage).1;
    let stops = converter::tool_stops(m.tools);
    let n = m.tools.len() as int;
    lemma_closing(m);
    lemma_tool_stops(m, n);
    assert(stops.take(n) =~= stops);
    assert(tool_map(m.tools.skip(n)) =~= Map::empty());
    assert(tool_map(m.tools.skip(n)).dom() =~= Set::empty());
    lemma_enter_concat(l, m.closing(), stops);
    let front = m.closing() + stops;
    let a = events[events.len() - 2];
    let b = events[events.len() - 1];
    assert(events =~= front + seq![a, b]);
    lemma_enter_concat(l, front, seq![a, b]);
    lemma_enter_two(enter_all(l, front), a, b);
}

/// A stream of changes.
pub open spec fn run(m: MachineView, deltas: Seq<(ChatDeltaView, Option<Usage>)>) -> (
    MachineView,
    Seq<EventView>,
)
    decreases deltas.len(),
{
    if deltas.len() == 0 {
        (m, Seq::empty())
    } else {
        let (before, events) = run(m, deltas.drop_last());
        let (after, more) = before.after_delta(deltas.last().0, deltas.last().1);
        (after, events + more)
    }
}

pub proof fn lemma_run(m: MachineView, deltas: Seq<(ChatDeltaView, Option<Usage>)>)
    requires
        sound(m),
        next_index(m) + starts(run(m, deltas).1) <= u32::MAX,
    ensures
        enter_all(Some(ledger_of(m)), run(m, deltas).1) == Some(ledger_of(run(m, deltas).0)),
        sound(run(m, deltas).0),
        next_index(run(m, deltas).0) == next_index(m) + starts(run(m, deltas).1),
        run(m, deltas).0.guard == m.guard,
    decreases deltas.len(),
{
    if deltas.len() > 0 {
        let (before, events) = run(m, deltas.drop_last());
        let more = before.after_delta(deltas.last().0, deltas.last().1).1;
        lemma_starts_concat(events, more);
        lemma_run(m, deltas.drop_last());
        law_blocks_keep_order(before, deltas.last().0, deltas.last().1);
        lemma_enter_concat(Some(ledger_of(m)), events, more);
        lemma_settings_stay(before, deltas.last().0, deltas.last().1);
    }
}

/// Whether two states have the same settings.
pub open spec fn same_settings(a: MachineView, b: MachineView) -> bool {
    &&& a.guard == b.guard
    &&& a.is_reasoning_model == b.is_reasoning_model
    &&& a.reasoning_field == b.reasoning_field
    &&& a.reasoning_field_alt == b.reasoning_field_alt
}

/// A change leaves the settings of a stream alone.
proof fn lemma_settings_stay(m: MachineView, delta: ChatDeltaView, usage: Option<Usage>)
    ensures
        same_settings(m.after_delta(delta, usage).0, m),
{
    let (thought, _) = m.after_reasoning(delta);
    let (spoken, _) = thought.after_text(delta);
    match delta.tool_calls {
        Some(calls) => lemma_tools_settings_stay(spoken, calls),
        None => {},
    }
}

proof fn lemma_tools_settings_stay(m: MachineView, calls: Seq<ToolCallDeltaView>)
    ensures
        same_settings(m.after_tools(calls).0, m),
    decreases calls.len(),
{
    if calls.len() > 0 {
        lemma_tools_settings_stay(m, calls.drop_last());
    }
}

/// A whole stream, from its first change to its end, opens and closes every block by
/// the rules, and no block is open when the message stops. The indexes of the blocks have
/// to fit in 32 bits. Left out is the error that the guard puts in place of a silent
/// ending.
pub proof fn law_every_block_is_closed(
    is_reasoning_model: bool,
    field: Seq<char>,
    alternatives: Seq<Seq<char>>,
    raw: bool,
    guard: EmptyTextGuard,
    deltas: Seq<(ChatDeltaView, Option<Usage>)>,
    reason: Option<Seq<char>>,
    output_tokens: Option<u32>,
    usage: Option<Usage>,
)
    requires
        ({
            let m = MachineView {
                guard,
                ..MachineView::fresh(is_reasoning_model, field, alternatives, raw)
            };
            &&& starts(run(m, deltas).1) <= u32::MAX
            &&& !(run(m, deltas).0.is_silent() && guard == EmptyTextGuard::Enforce)
        }),
    ensures
        ({
            let m = MachineView {
                guard,
                ..MachineView::fresh(is_reasoning_model, field, alternatives, raw)
            };
            let (before, events) = run(m, deltas);
            let ending = before.after_finish(reason, output_tokens, usage).1;
            enter_all(
                Some(Ledger { open: Map::empty(), next: 0, signed: None }),
                events + ending,
            ) == Some(Ledger { open: Map::empty(), next: next_index(before), signed: None })
        }),
{
    let m = MachineView {
        guard,
        ..MachineView::fresh(is_reasoning_model, field, alternatives, raw)
    };
    let (before, events) = run(m, deltas);
    let ending = before.after_finish(reason, output_tokens, usage).1;
    assert(ledger_of(m).open =~= Map::empty());
    lemma_run(m, deltas);
    law_the_end_closes_every_block(before, reason, output_tokens, usage);
    lemma_enter_concat(Some(ledger_of(m)), events, ending);
}

/// Whether an event is one of a block.
pub open spec fn of_a_block(event: EventView) -> bool {
    event is BlockStart || event is BlockDelta || event is BlockStop
}

/// Whether events are of blocks alone: none starts the message and none ends it.
pub open spec fn only_blocks(events: Seq<EventView>) -> bool {
    forall|i: int| 0 <= i < events.len() ==> of_a_block(#[trigger] events[i])
}

/// Whether events end the message: behind events of blocks come the counts and the stop
/// of the message, or an error in their place.
pub open spec fn ends(events: Seq<EventView>) -> bool {
    let n = events.len() as int;
    ||| {
        &&& n >= 1
        &&& events[n - 1] is Error
        &&& only_blocks(events.take(n - 1))
    }
    ||| {
        &&& n >= 2
        &&& events[n - 1] is MessageStop
        &&& events[n - 2] is MessageDelta
        &&& only_blocks(events.take(n - 2))
    }
}

/// Events of blocks in front change nothing.
pub proof fn lemma_blocks_in_front(a: Seq<EventView>, b: Seq<EventView>)
    requires
        only_blocks(a),
    ensures
        only_blocks(b) ==> only_blocks(a + b),
        ends(b) ==> ends(a + b),
{
    let n = b.len() as int;
    if n >= 1 {
        assert((a + b).take(a.len() + n - 1) =~= a + b.take(n - 1));
    }
    if n >= 2 {
        assert((a + b).take(a.len() + n - 2) =~= a + b.take(n - 2));
    }
}

proof fn lemma_tools_only_blocks(m: MachineView, calls: Seq<ToolCallDeltaView>)
    ensures
        only_blocks(m.after_tools(calls).1),
    decreases calls.len(),
{
    if calls.len() > 0 {
        lemma_tools_only_blocks(m, calls.drop_last());
    }
}

/// No streamed change starts or ends the message: all its events are of blocks.
pub proof fn law_changes_only_move_blocks(
    m: MachineView,
    delta: ChatDeltaView,
    usage: Option<Usage>,
)
    ensures
        only_blocks(m.after_delta(delta, usage).1),
{
    let (thought, a) = m.after_reasoning(delta);
    let (spoken, b) = thought.after_text(delta);
    match delta.tool_calls {
        Some(calls) => lemma_tools_only_blocks(spoken, calls),
        None => {},
    }
}

/// A stream ends with its counts and the stop of the message; or with an error alone,
/// exactly where a silent stream meets an enforcing guard.
pub proof fn law_the_end_ends_the_message(
    m: MachineView,
    reason: Option<Seq<char>>,
    output_tokens: Option<u32>,
    usage: Option<Usage>,
)
    ensures
        ({
            let events = m.after_finish(reason, output_tokens, usage).1;
            &&& ends(events)
            &&& events.last() is Error <==> m.is_silent() && m.guard == EmptyTextGuard::Enforce
            &&& events.last() is Error ==> events.len() == 1
        }),
{
}

/// Guards that do not enforce change nothing on the wire, and an enforcing one leaves
/// streams with text or tool use alone.
pub proof fn law_guards_agree(
    m: MachineView,
    a: EmptyTextGuard,
    b: EmptyTextGuard,
    reason: Option<Seq<char>>,
    output_tokens: Option<u32>,
    usage: Option<Usage>,
)
    requires
        (a != EmptyTextGuard::Enforce && b != EmptyTextGuard::Enforce) || !m.is_silent(),
    ensures
        (MachineView { guard: a, ..m }).after_finish(reason, output_tokens, usage).1 == (
        MachineView { guard: b, ..m }).after_finish(reason, output_tokens, usage).1,
{
    let x = MachineView { guard: a, ..m };
    let y = MachineView { guard: b, ..m };
    assert(x.after_finish(reason, output_tokens, usage).1 =~= y.after_finish(
        reason,
        output_tokens,
        usage,
    ).1);
}

/// The text that a list of events brings.
pub open spec fn said(events: Seq<EventView>) -> Seq<char>
    decreases events.len(),
{
    if events.len() == 0 {
        Seq::empty()
    } else {
        said(events.drop_last()) + match events.last() {
            EventView::BlockDelta { piece: PieceView::Text(words), .. } => words,
            _ => Seq::empty(),
        }
    }
}

/// The reasoning that a list of events brings.
pub open spec fn thought(events: Seq<EventView>) -> Seq<char>
    decreases events.len(),
{
    if events.len() == 0 {
        Seq::empty()
    } else {
        thought(events.drop_last()) + match events.last() {
            EventView::BlockDelta { piece: PieceView::Thinking(words), .. } => words,
            _ => Seq::empty(),
        }
    }
}

/// Texts of two lists join.
pub proof fn lemma_words_concat(a: Seq<EventView>, b: Seq<EventView>)
    ensures
        said(a + b) == said(a) + said(b),
        thought(a + b) == thought(a) + thought(b),
    decreases b.len(),
{
    if b.len() == 0 {
        assert(a + b =~= a);
        assert(said(a) + said(b) =~= said(a));
        assert(thought(a) + thought(b) =~= thought(a));
    } else {
        lemma_words_concat(a, b.drop_last());
        assert((a + b).drop_last() =~= a + b.drop_last());
        assert(said(a + b) =~= said(a) + said(b));
        assert(thought(a + b) =~= thought(a) + thought(b));
    }
}

/// One event more.
proof fn lemma_words_push(events: Seq<EventView>, e: EventView)
    ensures
        said(events.push(e)) == said(events) + match e {
            EventView::BlockDelta { piece: PieceView::Text(words), .. } => words,
            _ => Seq::empty(),
        },
        thought(events.push(e)) == thought(events) + match e {
            EventView::BlockDelta { piece: PieceView::Thinking(words), .. } => words,
            _ => Seq::empty(),
        },
{
    assert(events.push(e).drop_last() =~= events);
}

/// Events without text and without reasoning bring none.
pub proof fn lemma_wordless(events: Seq<EventView>)
    requires
        forall|i: int|
            0 <= i < events.len() ==> match #[trigger] events[i] {
                EventView::BlockDelta { piece: PieceView::Text(_), .. } => false,
                EventView::BlockDelta { piece: PieceView::Thinking(_), .. } => false,
                _ => true,
            },
    ensures
        said(events) == Seq::<char>::empty(),
        thought(events) == Seq::<char>::empty(),
    decreases events.len(),
{
    if events.len() > 0 {
        lemma_wordless(events.drop_last());
        let last = events[events.len() - 1];
        assert(said(events) =~= Seq::empty());
        assert(thought(events) =~= Seq::empty());
    }
}

proof fn lemma_tools_wordless(m: MachineView, calls: Seq<ToolCallDeltaView>)
    ensures
        said(m.after_tools(calls).1) == Seq::<char>::empty(),
        thought(m.after_tools(calls).1) == Seq::<char>::empty(),
    decreases calls.len(),
{
    if calls.len() > 0 {
        let (before, events) = m.after_tools(calls.drop_last());
        lemma_tools_wordless(m, calls.drop_last());
        let more = before.after_tool(calls.last()).1;
        lemma_wordless(more);
        lemma_words_concat(events, more);
    }
}

/// A streamed change passes on exactly the text that it brings, and the reasoning
/// exactly where the model reasons: nothing is lost and nothing is added.
pub proof fn law_words_pass_through(m: MachineView, delta: ChatDeltaView, usage: Option<Usage>)
    ensures
        said(m.after_delta(delta, usage).1) == converter::or_else(
            delta.content.text,
            Seq::empty(),
        ),
        thought(m.after_delta(delta, usage).1) == if m.is_reasoning_model {
            converter::or_else(m.reasoning(delta), Seq::empty())
        } else {
            Seq::empty()
        },
{
    let events = m.after_delta(delta, usage).1;
    let spoken_words = converter::or_else(delta.content.text, Seq::empty());
    let thought_words = if m.is_reasoning_model {
        converter::or_else(m.reasoning(delta), Seq::empty())
    } else {
        Seq::empty()
    };
    if m.is_usage_only(delta) {
        assert(spoken_words =~= Seq::empty());
        assert(thought_words =~= Seq::empty());
    } else {
        let (reasoned, a) = m.after_reasoning(delta);
        let (spoken, b) = reasoned.after_text(delta);
        if m.reasoning(delta) is Some && m.is_reasoning_model {
            lemma_wordless(a.drop_last());
            lemma_words_push(a.drop_last(), a.last());
            assert(a =~= a.drop_last().push(a.last()));
            assert(Seq::<char>::empty() + thought_words =~= thought_words);
        }
        assert(said(a) =~= Seq::empty());
        assert(thought(a) =~= thought_words);
        if spoken_words.len() > 0 {
            lemma_wordless(b.drop_last());
            lemma_words_push(b.drop_last(), b.last());
            assert(b =~= b.drop_last().push(b.last()));
        } else {
            assert(spoken_words =~= Seq::empty());
        }
        assert(said(b) =~= spoken_words);
        assert(thought(b) =~= Seq::empty());
        lemma_words_concat(a, b);
        match delta.tool_calls {
            Some(calls) => {
                lemma_tools_wordless(spoken, calls);
                lemma_words_concat(a + b, spoken.after_tools(calls).1);
            },
            None => {},
        }
        assert(said(events) =~= spoken_words);
        assert(thought(events) =~= thought_words);
    }
}

/// The pieces of arguments that a list of events brings, each with its block.
pub open spec fn handed(events: Seq<EventView>) -> Seq<(u32, Seq<char>)>
    decreases events.len(),
{
    if events.len() == 0 {
        Seq::empty()
    } else {
        let before = handed(events.drop_last());
        match events.last() {
            EventView::BlockDelta { index, piece: PieceView::InputJson(arguments) } => before.push(
                (index, arguments),
            ),
            _ => before,
        }
    }
}

/// The pieces of arguments that parts of tool calls bring, each with the block of its
/// call.
pub open spec fn given(calls: Seq<ToolCallDeltaView>, tools: Seq<(u32, u32)>) -> Seq<
    (u32, Seq<char>),
>
    decreases calls.len(),
{
    if calls.len() == 0 {
        Seq::empty()
    } else {
        let before = given(calls.drop_last(), tools);
        match calls.last().function {
            Some(f) => match f.arguments {
                Some(arguments) => before.push(
                    (
                        converter::tool_index(tools, calls.last().index.unwrap_or(0))->0,
                        arguments,
                    ),
                ),
                None => before,
            },
            None => before,
        }
    }
}

/// Whether every part of a tool call has a block.
pub open spec fn all_placed(calls: Seq<ToolCallDeltaView>, tools: Seq<(u32, u32)>) -> bool {
    forall|i: int|
        0 <= i < calls.len() ==> converter::tool_index(
            tools,
            (#[trigger] calls[i]).index.unwrap_or(0),
        ) is Some
}

/// The pieces of two lists join.
pub proof fn lemma_handed_concat(a: Seq<EventView>, b: Seq<EventView>)
    ensures
        handed(a + b) == handed(a) + handed(b),
    decreases b.len(),
{
    if b.len() == 0 {
        assert(a + b =~= a);
        assert(handed(a) + handed(b) =~= handed(a));
    } else {
        lemma_handed_concat(a, b.drop_last());
        assert((a + b).drop_last() =~= a + b.drop_last());
        assert(handed(a + b) =~= handed(a) + handed(b));
    }
}

/// Events without arguments bring none.
pub proof fn lemma_nothing_handed(events: Seq<EventView>)
    requires
        forall|i: int|
            0 <= i < events.len() ==> !((#[trigger] events[i]) matches EventView::BlockDelta {
                piece: PieceView::InputJson(_),
                ..
            }),
    ensures
        handed(events) == Seq::<(u32, Seq<char>)>::empty(),
    decreases events.len(),
{
    if events.len() > 0 {
        lemma_nothing_handed(events.drop_last());
        let last = events[events.len() - 1];
        assert(events.last() == last);
    }
}

/// A block that a tool call has does not change when another call gets one.
pub proof fn lemma_tool_index_push(tools: Seq<(u32, u32)>, entry: (u32, u32), upstream: u32)
    ensures
        converter::tool_index(tools, upstream) is Some ==> converter::tool_index(
            tools.push(entry),
            upstream,
        ) == converter::tool_index(tools, upstream),
        converter::tool_index(tools, upstream) is None ==> converter::tool_index(
            tools.push(entry),
            upstream,
        ) == if entry.0 == upstream {
            Some(entry.1)
        } else {
            None
        },
    decreases tools.len(),
{
    if tools.len() > 0 {
        lemma_tool_index_push(tools.drop_first(), entry, upstream);
        assert(tools.push(entry).drop_first() =~= tools.drop_first().push(entry));
    } else {
        assert(tools.push(entry).drop_first() =~= Seq::empty());
        assert(converter::tool_index(Seq::empty(), upstream) is None);
    }
}

/// Pieces keep their blocks when another call gets one.
proof fn lemma_given_push(
    calls: Seq<ToolCallDeltaView>,
    tools: Seq<(u32, u32)>,
    entry: (u32, u32),
)
    requires
        all_placed(calls, tools),
    ensures
        all_placed(calls, tools.push(entry)),
        given(calls, tools.push(entry)) == given(calls, tools),
    decreases calls.len(),
{
    assert forall|i: int| 0 <= i < calls.len() implies converter::tool_index(
        tools.push(entry),
        (#[trigger] calls[i]).index.unwrap_or(0),
    ) is Some by {
        lemma_tool_index_push(tools, entry, calls[i].index.unwrap_or(0));
    }
    if calls.len() > 0 {
        let front = calls.drop_last();
        assert forall|i: int| 0 <= i < front.len() implies converter::tool_index(
            tools,
            (#[trigger] front[i]).index.unwrap_or(0),
        ) is Some by {
            assert(front[i] == calls[i]);
        }
        lemma_given_push(front, tools, entry);
        let last = calls[calls.len() - 1];
        lemma_tool_index_push(tools, entry, last.index.unwrap_or(0));
    }
}

proof fn lemma_tools_hand_on(m: MachineView, calls: Seq<ToolCallDeltaView>)
    ensures
        all_placed(calls, m.after_tools(calls).0.tools),
        handed(m.after_tools(calls).1) == given(calls, m.after_tools(calls).0.tools),
    decreases calls.len(),
{
    if calls.len() > 0 {
        let front = calls.drop_last();
        let call = calls.last();
        let upstream = call.index.unwrap_or(0);
        let (before, events) = m.after_tools(front);
        let (after, more) = before.after_tool(call);
        lemma_tools_hand_on(m, front);
        match converter::tool_index(before.tools, upstream) {
            Some(_) => {},
            None => {
                let entry = (upstream, before.closed().content_index);
                lemma_given_push(front, before.tools, entry);
                lemma_tool_index_push(before.tools, entry, upstream);
                assert(after.tools == before.tools.push(entry));
            },
        }
        assert forall|i: int| 0 <= i < calls.len() implies converter::tool_index(
            after.tools,
            (#[trigger] calls[i]).index.unwrap_or(0),
        ) is Some by {
            if i < front.len() {
                assert(front[i] == calls[i]);
            }
        }
        let opening = match converter::tool_index(before.tools, upstream) {
            Some(_) => Seq::empty(),
            None => before.opening_tool(call).1,
        };
        lemma_nothing_handed(opening);
        if call.function is Some && call.function->0.arguments is Some {
            assert(more.drop_last() =~= opening);
        }
        lemma_handed_concat(events, more);
        assert(handed(events) + handed(more) =~= given(calls, after.tools));
    }
}

/// A streamed change passes on exactly the arguments that it brings, in their order,
/// each to the block of its tool call.
pub proof fn law_arguments_pass_through(m: MachineView, delta: ChatDeltaView, usage: Option<Usage>)
    ensures
        ({
            let (after, events) = m.after_delta(delta, usage);
            match delta.tool_calls {
                Some(calls) => {
                    &&& all_placed(calls, after.tools)
                    &&& handed(events) == given(calls, after.tools)
                },
                None => handed(events) == Seq::<(u32, Seq<char>)>::empty(),
            }
        }),
{
    if !m.is_usage_only(delta) {
        let (reasoned, a) = m.after_reasoning(delta);
        let (spoken, b) = reasoned.after_text(delta);
        lemma_nothing_handed(a + b);
        match delta.tool_calls {
            Some(calls) => {
                lemma_tools_hand_on(spoken, calls);
                let c = spoken.after_tools(calls).1;
                lemma_handed_concat(a + b, c);
                assert(handed(a + b) + handed(c) =~= handed(c));
            },
            None => {},
        }
    }
}

/// The text that a stream of changes brings.
pub open spec fn texts_of(deltas: Seq<(ChatDeltaView, Option<Usage>)>) -> Seq<char>
    decreases deltas.len(),
{
    if deltas.len() == 0 {
        Seq::empty()
    } else {
        texts_of(deltas.drop_last()) + converter::or_else(
            deltas.last().0.content.text,
            Seq::empty(),
        )
    }
}

/// The reasoning that a stream of changes brings.
pub open spec fn thoughts_of(m: MachineView, deltas: Seq<(ChatDeltaView, Option<Usage>)>) -> Seq<
    char,
>
    decreases deltas.len(),
{
    if deltas.len() == 0 {
        Seq::empty()
    } else {
        thoughts_of(m, deltas.drop_last()) + converter::or_else(
            m.reasoning(deltas.last().0),
            Seq::empty(),
        )
    }
}

/// The parts of tool calls that a stream of changes brings.
pub open spec fn calls_of(deltas: Seq<(ChatDeltaView, Option<Usage>)>) -> Seq<ToolCallDeltaView>
    decreases deltas.len(),
{
    if deltas.len() == 0 {
        Seq::empty()
    } else {
        calls_of(deltas.drop_last()) + match deltas.last().0.tool_calls {
            Some(calls) => calls,
            None => Seq::empty(),
        }
    }
}

/// Whether an event opens a thinking block.
pub open spec fn opens_thinking(event: EventView) -> bool {
    event matches EventView::BlockStart { block: BlockView::Thinking { .. }, .. }
}

/// Whether no event opens a thinking block.
pub open spec fn without_thinking(events: Seq<EventView>) -> bool {
    forall|i: int| 0 <= i < events.len() ==> !opens_thinking(#[trigger] events[i])
}

proof fn lemma_tools_without_thinking(m: MachineView, calls: Seq<ToolCallDeltaView>)
    ensures
        without_thinking(m.after_tools(calls).1),
    decreases calls.len(),
{
    if calls.len() > 0 {
        lemma_tools_without_thinking(m, calls.drop_last());
        let (before, events) = m.after_tools(calls.drop_last());
        let more = before.after_tool(calls.last()).1;
        assert(without_thinking(more));
        assert forall|i: int| 0 <= i < (events + more).len() implies !opens_thinking(
            #[trigger] (events + more)[i],
        ) by {
            if i < events.len() {
                assert((events + more)[i] == events[i]);
            } else {
                assert((events + more)[i] == more[i - events.len()]);
            }
        }
    }
}

/// The settings that a stream started with are those that it has.
pub proof fn lemma_run_settings(m: MachineView, deltas: Seq<(ChatDeltaView, Option<Usage>)>)
    ensures
        same_settings(run(m, deltas).0, m),
    decreases deltas.len(),
{
    if deltas.len() > 0 {
        lemma_run_settings(m, deltas.drop_last());
        lemma_settings_stay(
            run(m, deltas.drop_last()).0,
            deltas.last().0,
            deltas.last().1,
        );
    }
}

/// Over a whole stream, the text that goes out is the text that came in, and so is the
/// reasoning where the model reasons; where it does not, no thinking block is opened.
pub proof fn law_words_join_up(m: MachineView, deltas: Seq<(ChatDeltaView, Option<Usage>)>)
    ensures
        said(run(m, deltas).1) == texts_of(deltas),
        m.is_reasoning_model ==> thought(run(m, deltas).1) == thoughts_of(m, deltas),
        !m.is_reasoning_model ==> thought(run(m, deltas).1) == Seq::<char>::empty(),
        !m.is_reasoning_model ==> without_thinking(run(m, deltas).1),
    decreases deltas.len(),
{
    if deltas.len() > 0 {
        let (before, events) = run(m, deltas.drop_last());
        let (delta, usage) = deltas.last();
        let more = before.after_delta(delta, usage).1;
        law_words_join_up(m, deltas.drop_last());
        lemma_run_settings(m, deltas.drop_last());
        law_words_pass_through(before, delta, usage);
        lemma_words_concat(events, more);
        assert(Seq::<char>::empty() + Seq::<char>::empty() =~= Seq::empty());
        if !m.is_reasoning_model {
            let (reasoned, _) = before.after_reasoning(delta);
            let (spoken, _) = reasoned.after_text(delta);
            match delta.tool_calls {
                Some(calls) => lemma_tools_without_thinking(spoken, calls),
                None => {},
            }
            assert(without_thinking(more));
        }
    }
}

/// The arguments among pieces that go to one block, joined.
pub open spec fn handed_to(pieces: Seq<(u32, Seq<char>)>, index: u32) -> Seq<char>
    decreases pieces.len(),
{
    if pieces.len() == 0 {
        Seq::empty()
    } else if pieces.last().0 == index {
        handed_to(pieces.drop_last(), index) + pieces.last().1
    } else {
        handed_to(pieces.drop_last(), index)
    }
}

/// The arguments that the parts of one tool call bring, joined. A part without an index
/// belongs to the first call.
pub open spec fn arguments_of(calls: Seq<ToolCallDeltaView>, upstream: u32) -> Seq<char>
    decreases calls.len(),
{
    if calls.len() == 0 {
        Seq::empty()
    } else {
        let before = arguments_of(calls.drop_last(), upstream);
        match calls.last().function {
            Some(f) => if calls.last().index.unwrap_or(0) == upstream {
                before + converter::or_else(f.arguments, Seq::empty())
            } else {
                before
            },
            None => before,
        }
    }
}

/// The block of a tool call stands in the list.
proof fn lemma_tool_index_entry(tools: Seq<(u32, u32)>, upstream: u32) -> (k: int)
    requires
        converter::tool_index(tools, upstream) is Some,
    ensures
        0 <= k < tools.len(),
        tools[k] == (upstream, converter::tool_index(tools, upstream)->0),
    decreases tools.len(),
{
    if tools[0].0 == upstream {
        0
    } else {
        lemma_tool_index_entry(tools.drop_first(), upstream) + 1
    }
}

/// Pieces keep their blocks through more parts of tool calls.
proof fn lemma_tools_keep_blocks(
    m: MachineView,
    calls: Seq<ToolCallDeltaView>,
    placed: Seq<ToolCallDeltaView>,
)
    requires
        all_placed(placed, m.tools),
    ensures
        all_placed(placed, m.after_tools(calls).0.tools),
        given(placed, m.after_tools(calls).0.tools) == given(placed, m.tools),
    decreases calls.len(),
{
    if calls.len() > 0 {
        let front = calls.drop_last();
        let before = m.after_tools(front).0;
        let upstream = calls.last().index.unwrap_or(0);
        lemma_tools_keep_blocks(m, front, placed);
        if converter::tool_index(before.tools, upstream) is None {
            let entry = (upstream, before.closed().content_index);
            lemma_given_push(placed, before.tools, entry);
            assert(m.after_tools(calls).0.tools == before.tools.push(entry));
        }
    }
}

/// The pieces of two lists of parts join.
proof fn lemma_given_concat(
    a: Seq<ToolCallDeltaView>,
    b: Seq<ToolCallDeltaView>,
    tools: Seq<(u32, u32)>,
)
    ensures
        given(a + b, tools) == given(a, tools) + given(b, tools),
    decreases b.len(),
{
    if b.len() == 0 {
        assert(a + b =~= a);
        assert(given(a, tools) + given(b, tools) =~= given(a, tools));
    } else {
        lemma_given_concat(a, b.drop_last(), tools);
        assert((a + b).drop_last() =~= a + b.drop_last());
        assert((a + b).last() == b.last());
        assert(given(a + b, tools) =~= given(a, tools) + given(b, tools));
    }
}

/// A stream of changes passes all arguments on, each to the block of its tool call.
proof fn lemma_run_hands_on(m: MachineView, deltas: Seq<(ChatDeltaView, Option<Usage>)>)
    ensures
        all_placed(calls_of(deltas), run(m, deltas).0.tools),
        handed(run(m, deltas).1) == given(calls_of(deltas), run(m, deltas).0.tools),
    decreases deltas.len(),
{
    if deltas.len() > 0 {
        let (before, events) = run(m, deltas.drop_last());
        let (delta, usage) = deltas.last();
        let (after, more) = before.after_delta(delta, usage);
        let placed = calls_of(deltas.drop_last());
        lemma_run_hands_on(m, deltas.drop_last());
        law_arguments_pass_through(before, delta, usage);
        lemma_handed_concat(events, more);
        match delta.tool_calls {
            Some(calls) => {
                let (reasoned, _) = before.after_reasoning(delta);
                let (spoken, _) = reasoned.after_text(delta);
                assert(spoken.tools == before.tools);
                lemma_tools_keep_blocks(spoken, calls, placed);
                lemma_given_concat(placed, calls, after.tools);
                assert forall|i: int| 0 <= i < (placed + calls).len() implies converter::tool_index(
                    after.tools,
                    (#[trigger] (placed + calls)[i]).index.unwrap_or(0),
                ) is Some by {
                    if i < placed.len() {
                        assert((placed + calls)[i] == placed[i]);
                    } else {
                        assert((placed + calls)[i] == calls[i - placed.len()]);
                    }
                }
            },
            None => {
                assert(after.tools == before.tools);
                assert(calls_of(deltas) =~= placed);
                assert(handed(events) + handed(more) =~= handed(events));
            },
        }
    }
}

/// Where no two tool calls share a block, a block gets the arguments of its call.
proof fn lemma_given_to(
    calls: Seq<ToolCallDeltaView>,
    tools: Seq<(u32, u32)>,
    upstream: u32,
    index: u32,
)
    requires
        all_placed(calls, tools),
        converter::tool_index(tools, upstream) == Some(index),
        forall|j: int, k: int|
            0 <= j < k < tools.len() ==> (#[trigger] tools[j]).1 != (#[trigger] tools[k]).1,
    ensures
        handed_to(given(calls, tools), index) == arguments_of(calls, upstream),
    decreases calls.len(),
{
    if calls.len() > 0 {
        let front = calls.drop_last();
        let call = calls[calls.len() - 1];
        let other = call.index.unwrap_or(0);
        assert forall|i: int| 0 <= i < front.len() implies converter::tool_index(
            tools,
            (#[trigger] front[i]).index.unwrap_or(0),
        ) is Some by {
            assert(front[i] == calls[i]);
        }
        lemma_given_to(front, tools, upstream, index);
        let j = lemma_tool_index_entry(tools, upstream);
        let k = lemma_tool_index_entry(tools, other);
        let block = converter::tool_index(tools, other)->0;
        assert(block == index <==> other == upstream);
        let pieces = given(calls, tools);
        if call.function is Some && call.function->0.arguments is Some {
            assert(pieces.drop_last() =~= given(front, tools));
        } else {
            assert(arguments_of(front, upstream) + Seq::<char>::empty() =~= arguments_of(
                front,
                upstream,
            ));
        }
    }
}

/// A tool call without a block has no arguments.
proof fn lemma_unplaced(calls: Seq<ToolCallDeltaView>, tools: Seq<(u32, u32)>, upstream: u32)
    requires
        all_placed(calls, tools),
        converter::tool_index(tools, upstream) is None,
    ensures
        arguments_of(calls, upstream) == Seq::<char>::empty(),
    decreases calls.len(),
{
    if calls.len() > 0 {
        let front = calls.drop_last();
        assert forall|i: int| 0 <= i < front.len() implies converter::tool_index(
            tools,
            (#[trigger] front[i]).index.unwrap_or(0),
        ) is Some by {
            assert(front[i] == calls[i]);
        }
        assert(calls[calls.len() - 1] == calls.last());
        lemma_unplaced(front, tools, upstream);
    }
}

/// Over a whole stream, the arguments that go out to the block of a tool call are those
/// that came in for it; a call without a block has none. The indexes of the blocks have
/// to fit in 32 bits.
pub proof fn law_arguments_join_up(
    m: MachineView,
    deltas: Seq<(ChatDeltaView, Option<Usage>)>,
    upstream: u32,
)
    requires
        sound(m),
        next_index(m) + starts(run(m, deltas).1) <= u32::MAX,
    ensures
        ({
            let (after, events) = run(m, deltas);
            let arguments = arguments_of(calls_of(deltas), upstream);
            match converter::tool_index(after.tools, upstream) {
                Some(index) => handed_to(handed(events), index) == arguments,
                None => arguments == Seq::<char>::empty(),
            }
        }),
{
    let after = run(m, deltas).0;
    lemma_run(m, deltas);
    lemma_run_hands_on(m, deltas);
    match converter::tool_index(after.tools, upstream) {
        Some(index) => lemma_given_to(calls_of(deltas), after.tools, upstream, index),
        None => lemma_unplaced(calls_of(deltas), after.tools, upstream),
    }
}

/// The tool blocks that a list of events opens, in order: index, identifier and name.
pub open spec fn opened(events: Seq<EventView>) -> Seq<(u32, Seq<char>, Seq<char>)>
    decreases events.len(),
{
    if events.len() == 0 {
        Seq::empty()
    } else {
        let before = opened(events.drop_last());
        match events.last() {
            EventView::BlockStart { index, block: BlockView::ToolUse { id, name, .. } } =>
                before.push((index, id, name)),
            _ => before,
        }
    }
}

/// The tool call that a part belongs to. A part without an index belongs to the first one.
pub open spec fn call_index(part: ToolCallDeltaView) -> u32 {
    match part.index {
        Some(index) => index,
        None => 0,
    }
}

/// Whether a part of a tool call is among parts.
pub open spec fn occurs(parts: Seq<ToolCallDeltaView>, upstream: u32) -> bool {
    exists|i: int| 0 <= i < parts.len() && call_index(#[trigger] parts[i]) == upstream
}

/// The first part of each tool call, in order.
pub open spec fn first_parts(parts: Seq<ToolCallDeltaView>) -> Seq<ToolCallDeltaView>
    decreases parts.len(),
{
    if parts.len() == 0 {
        Seq::empty()
    } else if occurs(parts.drop_last(), call_index(parts.last())) {
        first_parts(parts.drop_last())
    } else {
        first_parts(parts.drop_last()).push(parts.last())
    }
}

/// The identifier that a part gives, or a stand-in.
pub open spec fn call_id(part: ToolCallDeltaView) -> Seq<char> {
    match part.id {
        Some(id) => id,
        None => "unknown_call"@,
    }
}

/// The name that a part gives, or a stand-in.
pub open spec fn call_name(part: ToolCallDeltaView) -> Seq<char> {
    match part.function {
        Some(f) => match f.name {
            Some(name) => name,
            None => "unknown_tool"@,
        },
        None => "unknown_tool"@,
    }
}

/// The pieces of arguments that parts of tool calls bring, in order.
pub open spec fn arguments_in(parts: Seq<ToolCallDeltaView>) -> Seq<Seq<char>>
    decreases parts.len(),
{
    if parts.len() == 0 {
        Seq::empty()
    } else {
        let before = arguments_in(parts.drop_last());
        match parts.last().function {
            Some(f) => match f.arguments {
                Some(arguments) => before.push(arguments),
                None => before,
            },
            None => before,
        }
    }
}

/// The blocks that two lists open, one after the other.
pub proof fn lemma_opened_concat(a: Seq<EventView>, b: Seq<EventView>)
    ensures
        opened(a + b) == opened(a) + opened(b),
    decreases b.len(),
{
    if b.len() == 0 {
        assert(a + b =~= a);
        assert(opened(a) + opened(b) =~= opened(a));
    } else {
        lemma_opened_concat(a, b.drop_last());
        assert((a + b).drop_last() =~= a + b.drop_last());
        assert((a + b).last() == b.last());
        assert(opened(a + b) =~= opened(a) + opened(b));
    }
}

/// Events that start no tool block open none.
pub proof fn lemma_nothing_opened(events: Seq<EventView>)
    requires
        forall|i: int|
            0 <= i < events.len() ==> !((#[trigger] events[i]) matches EventView::BlockStart {
                block: BlockView::ToolUse { .. },
                ..
            }),
    ensures
        opened(events) == Seq::<(u32, Seq<char>, Seq<char>)>::empty(),
    decreases events.len(),
{
    if events.len() > 0 {
        lemma_nothing_opened(events.drop_last());
        let last = events[events.len() - 1];
        assert(events.last() == last);
    }
}

/// A tool call with a part has a first one.
proof fn lemma_first_parts(parts: Seq<ToolCallDeltaView>, upstream: u32)
    ensures
        occurs(parts, upstream) <==> exists|j: int|
            0 <= j < first_parts(parts).len() && call_index(#[trigger] first_parts(parts)[j])
                == upstream,
        forall|j: int, k: int|
            0 <= j < k < first_parts(parts).len() ==> call_index(
                #[trigger] first_parts(parts)[j],
            ) != call_index(#[trigger] first_parts(parts)[k]),
    decreases parts.len(),
{
    if parts.len() > 0 {
        let front = parts.drop_last();
        let last = parts[parts.len() - 1];
        let before = first_parts(front);
        let firsts = first_parts(parts);
        lemma_first_parts(front, upstream);
        lemma_first_parts(front, call_index(last));
        if occurs(front, upstream) {
            let i = choose|i: int| 0 <= i < front.len() && call_index(#[trigger] front[i])
                == upstream;
            assert(parts[i] == front[i]);
            let j = choose|j: int| 0 <= j < before.len() && call_index(#[trigger] before[j])
                == upstream;
            assert(firsts[j] == before[j]);
        } else if call_index(last) == upstream {
            assert(call_index(parts[parts.len() - 1]) == upstream);
            assert(firsts[firsts.len() - 1] == last);
        } else {
            if occurs(parts, upstream) {
                let i = choose|i: int| 0 <= i < parts.len() && call_index(#[trigger] parts[i])
                    == upstream;
                assert(front[i] == parts[i]);
            }
            assert forall|j: int| 0 <= j < firsts.len() implies call_index(#[trigger] firsts[j])
                != upstream by {
                if j < before.len() {
                    assert(firsts[j] == before[j]);
                }
            }
        }
        assert forall|j: int, k: int| 0 <= j < k < firsts.len() implies call_index(
            #[trigger] firsts[j],
        ) != call_index(#[trigger] firsts[k]) by {
            assert(firsts[j] == before[j]);
            if k < before.len() {
                assert(firsts[k] == before[k]);
            }
        }
    }
}

/// Whether each tool call has a block, which was opened with what its first part gives.
spec fn announced(
    parts: Seq<ToolCallDeltaView>,
    tools: Seq<(u32, u32)>,
    blocks: Seq<(u32, Seq<char>, Seq<char>)>,
) -> bool {
    let firsts = first_parts(parts);
    &&& tools.len() == firsts.len()
    &&& blocks.len() == firsts.len()
    &&& forall|j: int|
        #![trigger tools[j]]
        0 <= j < tools.len() ==> {
            &&& tools[j] == (call_index(firsts[j]), blocks[j].0)
            &&& blocks[j].1 == call_id(firsts[j])
            &&& blocks[j].2 == call_name(firsts[j])
        }
}

/// A tool call has a block exactly where it stands in the list.
proof fn lemma_tool_index_listed(tools: Seq<(u32, u32)>, upstream: u32)
    ensures
        converter::tool_index(tools, upstream) is Some <==> exists|j: int|
            0 <= j < tools.len() && (#[trigger] tools[j]).0 == upstream,
    decreases tools.len(),
{
    if tools.len() > 0 {
        let rest = tools.drop_first();
        lemma_tool_index_listed(rest, upstream);
        if converter::tool_index(rest, upstream) is Some {
            let j = choose|j: int| 0 <= j < rest.len() && (#[trigger] rest[j]).0 == upstream;
            assert(tools[j + 1] == rest[j]);
        }
        if tools[0].0 != upstream {
            if exists|j: int| 0 <= j < tools.len() && (#[trigger] tools[j]).0 == upstream {
                let j = choose|j: int| 0 <= j < tools.len() && (#[trigger] tools[j]).0
                    == upstream;
                assert(rest[j - 1] == tools[j]);
            }
        }
    }
}

/// One part more keeps every tool call announced.
proof fn lemma_announced_tool(
    m: MachineView,
    parts: Seq<ToolCallDeltaView>,
    blocks: Seq<(u32, Seq<char>, Seq<char>)>,
    part: ToolCallDeltaView,
)
    requires
        announced(parts, m.tools, blocks),
    ensures
        announced(
            parts.push(part),
            m.after_tool(part).0.tools,
            blocks + opened(m.after_tool(part).1),
        ),
{
    let (after, events) = m.after_tool(part);
    let more = parts.push(part);
    let upstream = call_index(part);
    let known = converter::tool_index(m.tools, part.index.unwrap_or(0));
    let firsts = first_parts(parts);
    assert(more.drop_last() =~= parts);
    assert(upstream == part.index.unwrap_or(0));
    lemma_tool_index_listed(m.tools, upstream);
    lemma_first_parts(parts, upstream);
    if known is Some {
        let j = choose|j: int| 0 <= j < m.tools.len() && (#[trigger] m.tools[j]).0 == upstream;
        assert(call_index(firsts[j]) == upstream);
        assert(occurs(parts, upstream));
        lemma_nothing_opened(events);
        assert(blocks + opened(events) =~= blocks);
        assert(first_parts(more) == firsts);
        assert(after.tools == m.tools);
        assert(announced(more, after.tools, blocks));
    } else {
        if occurs(parts, upstream) {
            let j = choose|j: int| 0 <= j < firsts.len() && call_index(#[trigger] firsts[j])
                == upstream;
            assert(m.tools[j].0 == upstream);
            assert(false);
        }
        let opening = m.opening_tool(part).1;
        assert(opening.drop_last() =~= m.closing());
        lemma_nothing_opened(m.closing());
        let start = (m.closed().content_index, call_id(part), call_name(part));
        assert(opened(opening) =~= seq![start]);
        if part.function is Some && part.function->0.arguments is Some {
            assert(events.drop_last() =~= opening);
            assert(opened(events) =~= seq![start]);
        } else {
            assert(events == opening);
        }
        assert(after.tools == m.tools.push((upstream, start.0)));
        let all = blocks + opened(events);
        assert(all =~= blocks.push(start));
        assert(first_parts(more) == firsts.push(part));
        assert(all.len() == first_parts(more).len());
        assert forall|j: int|
            #![trigger after.tools[j]]
            0 <= j < after.tools.len() implies {
            &&& after.tools[j] == (call_index(first_parts(more)[j]), all[j].0)
            &&& all[j].1 == call_id(first_parts(more)[j])
            &&& all[j].2 == call_name(first_parts(more)[j])
        } by {
            if j < m.tools.len() {
                assert(after.tools[j] == m.tools[j]);
                assert(m.tools[j] == (call_index(firsts[j]), blocks[j].0));
            }
        }
        assert(announced(more, after.tools, all));
    }
}

proof fn lemma_announced_tools(
    m: MachineView,
    parts: Seq<ToolCallDeltaView>,
    blocks: Seq<(u32, Seq<char>, Seq<char>)>,
    calls: Seq<ToolCallDeltaView>,
)
    requires
        announced(parts, m.tools, blocks),
    ensures
        announced(
            parts + calls,
            m.after_tools(calls).0.tools,
            blocks + opened(m.after_tools(calls).1),
        ),
    decreases calls.len(),
{
    if calls.len() == 0 {
        assert(parts + calls =~= parts);
        assert(blocks + opened(Seq::empty()) =~= blocks);
    } else {
        let front = calls.drop_last();
        let (before, events) = m.after_tools(front);
        let more = before.after_tool(calls.last()).1;
        lemma_announced_tools(m, parts, blocks, front);
        lemma_announced_tool(before, parts + front, blocks + opened(events), calls.last());
        lemma_opened_concat(events, more);
        assert((parts + front).push(calls.last()) =~= parts + calls);
        assert(blocks + opened(events) + opened(more) =~= blocks + (opened(events) + opened(
            more,
        )));
    }
}

proof fn lemma_run_announces(m: MachineView, deltas: Seq<(ChatDeltaView, Option<Usage>)>)
    requires
        m.tools.len() == 0,
    ensures
        announced(calls_of(deltas), run(m, deltas).0.tools, opened(run(m, deltas).1)),
    decreases deltas.len(),
{
    if deltas.len() > 0 {
        let (before, events) = run(m, deltas.drop_last());
        let (delta, usage) = deltas.last();
        let (after, more) = before.after_delta(delta, usage);
        let parts = calls_of(deltas.drop_last());
        lemma_run_announces(m, deltas.drop_last());
        lemma_opened_concat(events, more);
        if before.is_usage_only(delta) {
            assert(calls_of(deltas) =~= parts);
            assert(opened(events) + opened(more) =~= opened(events));
        } else {
            let (reasoned, a) = before.after_reasoning(delta);
            let (spoken, b) = reasoned.after_text(delta);
            lemma_nothing_opened(a + b);
            match delta.tool_calls {
                Some(calls) => {
                    let c = spoken.after_tools(calls).1;
                    lemma_announced_tools(spoken, parts, opened(events), calls);
                    lemma_opened_concat(a + b, c);
                    assert(opened(a + b) + opened(c) =~= opened(c));
                },
                None => {
                    assert(calls_of(deltas) =~= parts);
                    assert(opened(events) + opened(more) =~= opened(events));
                },
            }
        }
    }
}

/// The pieces of arguments that go out, without their blocks.
pub open spec fn pieces_of(handed: Seq<(u32, Seq<char>)>) -> Seq<Seq<char>> {
    Seq::new(handed.len(), |i: int| handed[i].1)
}

proof fn lemma_given_pieces(parts: Seq<ToolCallDeltaView>, tools: Seq<(u32, u32)>)
    ensures
        pieces_of(given(parts, tools)) == arguments_in(parts),
    decreases parts.len(),
{
    if parts.len() > 0 {
        lemma_given_pieces(parts.drop_last(), tools);
        assert(pieces_of(given(parts, tools)) =~= arguments_in(parts));
    } else {
        assert(pieces_of(given(parts, tools)) =~= arguments_in(parts));
    }
}

/// The arguments of parts that belong to one tool call, joined.
proof fn lemma_arguments_by_call(parts: Seq<ToolCallDeltaView>, upstream: u32)
    ensures
        arguments_of(parts, upstream) == joined_arguments(parts, upstream),
    decreases parts.len(),
{
    if parts.len() > 0 {
        lemma_arguments_by_call(parts.drop_last(), upstream);
    }
}

/// The arguments that the parts of one tool call bring, joined.
pub open spec fn joined_arguments(parts: Seq<ToolCallDeltaView>, upstream: u32) -> Seq<char>
    decreases parts.len(),
{
    if parts.len() == 0 {
        Seq::empty()
    } else {
        let before = joined_arguments(parts.drop_last(), upstream);
        if call_index(parts.last()) == upstream && parts.last().function is Some {
            before + converter::or_else(parts.last().function->0.arguments, Seq::empty())
        } else {
            before
        }
    }
}

/// What a client reads of the tool calls of a stream: a block for each of them, in the
/// order in which they came and opened with the identifier and the name that came with
/// the first part; no two share a block; each block gets the arguments that came for its
/// call, joined; and the pieces go out in the order in which they came. The indexes of
/// the blocks have to fit in 32 bits.
pub proof fn law_tool_calls_reach_the_client(
    m: MachineView,
    deltas: Seq<(ChatDeltaView, Option<Usage>)>,
)
    requires
        sound(m),
        m.tools.len() == 0,
        next_index(m) + starts(run(m, deltas).1) <= u32::MAX,
    ensures
        told_as_called(calls_of(deltas), run(m, deltas).1),
{
    let (after, events) = run(m, deltas);
    let calls = calls_of(deltas);
    let firsts = first_parts(calls);
    let blocks = opened(events);
    lemma_run(m, deltas);
    lemma_run_announces(m, deltas);
    lemma_run_hands_on(m, deltas);
    lemma_given_pieces(calls, after.tools);
    lemma_first_parts(calls, 0);
    assert forall|j: int| 0 <= j < blocks.len() implies {
        &&& (#[trigger] blocks[j]).1 == call_id(firsts[j])
        &&& blocks[j].2 == call_name(firsts[j])
        &&& handed_to(handed(events), blocks[j].0) == joined_arguments(
            calls,
            call_index(firsts[j]),
        )
    } by {
        let upstream = call_index(firsts[j]);
        assert(after.tools[j] == (upstream, blocks[j].0));
        lemma_tool_index_listed(after.tools, upstream);
        let k = lemma_tool_index_entry(after.tools, upstream);
        assert(after.tools[k].0 == call_index(firsts[k]));
        assert(k == j);
        law_arguments_join_up(m, deltas, upstream);
        lemma_arguments_by_call(calls, upstream);
    }
    assert forall|j: int, k: int| 0 <= j < k < blocks.len() implies (#[trigger] blocks[j]).0 != (
    #[trigger] blocks[k]).0 by {
        assert(after.tools[j].1 == blocks[j].0);
        assert(after.tools[k].1 == blocks[k].0);
    }
}

/// Whether events tell a client of tool calls as their parts came.
pub open spec fn told_as_called(parts: Seq<ToolCallDeltaView>, events: Seq<EventView>) -> bool {
    let firsts = first_parts(parts);
    let blocks = opened(events);
    &&& blocks.len() == firsts.len()
    &&& forall|j: int|
        0 <= j < blocks.len() ==> {
            &&& (#[trigger] blocks[j]).1 == call_id(firsts[j])
            &&& blocks[j].2 == call_name(firsts[j])
            &&& handed_to(handed(events), blocks[j].0) == joined_arguments(
                parts,
                call_index(firsts[j]),
            )
        }
    &&& forall|j: int, k: int|
        0 <= j < k < blocks.len() ==> (#[trigger] blocks[j]).0 != (#[trigger] blocks[k]).0
    &&& pieces_of(handed(events)) == arguments_in(parts)
}

/// Blank text keeps a stream silent: it takes text that is not blank, or a tool call,
/// to make it heard.
pub proof fn law_blank_text_is_silence(m: MachineView, delta: ChatDeltaView, usage: Option<Usage>)
    requires
        m.is_silent(),
        call_count(delta) == 0,
        text::is_blank(converter::or_else(delta.content.text, Seq::empty())),
    ensures
        m.after_delta(delta, usage).0.is_silent(),
{
    let (thought, _) = m.after_reasoning(delta);
    let (spoken, _) = thought.after_text(delta);
    match delta.tool_calls {
        Some(calls) => {
            assert(calls.len() == 0);
        },
        None => {},
    }
}

/// Counts that came on their own count at the end as if they came with it.
pub proof fn law_early_counts_are_kept(m: MachineView, usage: Usage, output_tokens: Option<u32>)
    ensures
        m.with_usage(usage).final_usage(output_tokens, None) == m.with_usage(usage).final_usage(
            output_tokens,
            Some(usage),
        ),
{
}

/// With raw reporting the end of a stream never reports created tokens.
pub proof fn law_raw_endings_report_no_creation(
    m: MachineView,
    output_tokens: Option<u32>,
    usage: Option<Usage>,
)
    requires
        m.raw_usage,
    ensures
        m.final_usage(output_tokens, usage).cache_creation_input_tokens is None,
{
}

} // verus!
