//! What both upstream APIs share: the order of tools and the turns of a conversation.

use crate::anthropic::types::{
    ContentBlock, ContentValue, ImageSource, Message, SystemPrompt, ToolResultContent,
};
use crate::json::Json;
use crate::openai::types::{OpenAiTool, ToolView};
use crate::text::{self, at_most, same};
use vstd::prelude::*;

verus! {

/// Something that is a tool on the wire.
pub trait NamedTool: Sized {
    /// What the tool says.
    spec fn tool(&self) -> ToolView;

    /// The name of the tool.
    fn tool_name(&self) -> (r: &str)
        ensures
            r@ == self.tool().name,
    ;
}

impl NamedTool for OpenAiTool {
    open spec fn tool(&self) -> ToolView {
        self@
    }

    fn tool_name(&self) -> (r: &str) {
        self.function.name.as_str()
    }
}

/// What a list of tools says.
pub open spec fn tools_of<T: NamedTool>(items: Seq<T>) -> Seq<ToolView> {
    Seq::new(items.len(), |i: int| items[i].tool())
}

/// Where a tool goes in a sorted list: behind all tools that do not come after it.
pub open spec fn slot(tools: Seq<ToolView>, name: Seq<char>) -> int
    decreases tools.len(),
{
    if tools.len() == 0 {
        0
    } else if text::lex_le(tools.last().name, name) {
        tools.len() as int
    } else {
        slot(tools.drop_last(), name)
    }
}

/// The tools in the order of their names; tools of one name stay in their order.
pub open spec fn by_name(tools: Seq<ToolView>) -> Seq<ToolView>
    decreases tools.len(),
{
    if tools.len() == 0 {
        Seq::empty()
    } else {
        let front = by_name(tools.drop_last());
        front.insert(slot(front, tools.last().name), tools.last())
    }
}

/// Whether tools stand in the order of their names.
pub open spec fn in_name_order(tools: Seq<ToolView>) -> bool {
    forall|i: int, j: int|
        0 <= i < j < tools.len() ==> text::lex_le(
            (#[trigger] tools[i]).name,
            (#[trigger] tools[j]).name,
        )
}

/// Whether no two tools have one name.
pub open spec fn distinct_tool_names(tools: Seq<ToolView>) -> bool {
    forall|i: int, j: int|
        0 <= i < j < tools.len() ==> (#[trigger] tools[i]).name != (#[trigger] tools[j]).name
}

/// The slot is a position of the list.
proof fn lemma_slot_bounds(tools: Seq<ToolView>, name: Seq<char>)
    ensures
        0 <= slot(tools, name) <= tools.len(),
    decreases tools.len(),
{
    if tools.len() > 0 {
        lemma_slot_bounds(tools.drop_last(), name);
    }
}

/// Before the slot no tool comes after the name, from the slot on every tool does.
proof fn lemma_slot_splits(tools: Seq<ToolView>, name: Seq<char>)
    requires
        in_name_order(tools),
    ensures
        0 <= slot(tools, name) <= tools.len(),
        forall|i: int|
            0 <= i < slot(tools, name) ==> text::lex_le((#[trigger] tools[i]).name, name),
        forall|i: int|
            slot(tools, name) <= i < tools.len() ==> text::lex_le(name, (#[trigger] tools[i]).name),
    decreases tools.len(),
{
    lemma_slot_bounds(tools, name);
    if tools.len() > 0 {
        let last = tools[tools.len() - 1];
        let front = tools.drop_last();
        if text::lex_le(last.name, name) {
            assert forall|i: int| 0 <= i < tools.len() implies text::lex_le(
                (#[trigger] tools[i]).name,
                name,
            ) by {
                if i < tools.len() - 1 {
                    text::lemma_lex_transitive(tools[i].name, last.name, name);
                }
            }
        } else {
            assert forall|i: int, j: int| 0 <= i < j < front.len() implies text::lex_le(
                (#[trigger] front[i]).name,
                (#[trigger] front[j]).name,
            ) by {
                assert(text::lex_le(tools[i].name, tools[j].name));
            }
            lemma_slot_splits(front, name);
            text::lemma_lex_total(last.name, name);
            assert forall|i: int| 0 <= i < slot(tools, name) implies text::lex_le(
                (#[trigger] tools[i]).name,
                name,
            ) by {
                assert(front[i] == tools[i]);
            }
            assert forall|i: int| slot(tools, name) <= i < tools.len() implies text::lex_le(
                name,
                (#[trigger] tools[i]).name,
            ) by {
                if i < front.len() {
                    assert(front[i] == tools[i]);
                }
            }
        }
    }
}

/// The sorted list is in the order of names, and it holds the same tools.
pub proof fn law_sorting_orders_and_keeps(tools: Seq<ToolView>)
    ensures
        in_name_order(by_name(tools)),
        by_name(tools).to_multiset() == tools.to_multiset(),
        by_name(tools).len() == tools.len(),
    decreases tools.len(),
{
    broadcast use vstd::seq_lib::group_to_multiset_ensures;

    if tools.len() > 0 {
        let front = by_name(tools.drop_last());
        let last = tools.last();
        let at = slot(front, last.name);
        let all = by_name(tools);
        law_sorting_orders_and_keeps(tools.drop_last());
        lemma_slot_splits(front, last.name);
        assert forall|i: int, j: int| 0 <= i < j < all.len() implies text::lex_le(
            (#[trigger] all[i]).name,
            (#[trigger] all[j]).name,
        ) by {
            let a = if i < at {
                i
            } else {
                i - 1
            };
            let b = if j < at {
                j
            } else {
                j - 1
            };
            if i != at {
                assert(all[i] == front[a]);
            }
            if j != at {
                assert(all[j] == front[b]);
            }
        }
        assert(tools =~= tools.drop_last().push(last));
        assert(all.to_multiset() =~= front.to_multiset().insert(last));
    }
}

/// Lists of the same tools hold the same tools.
proof fn lemma_same_tools(a: Seq<ToolView>, b: Seq<ToolView>, i: int)
    requires
        a.to_multiset() == b.to_multiset(),
        0 <= i < a.len(),
    ensures
        exists|j: int| 0 <= j < b.len() && b[j] == a[i],
        a.len() == b.len(),
{
    broadcast use vstd::seq_lib::group_to_multiset_ensures;

    assert(a.contains(a[i]));
    assert(a.to_multiset().count(a[i]) > 0);
    assert(b.contains(a[i]));
    assert(a.to_multiset().len() == a.len());
    assert(b.to_multiset().len() == b.len());
}

/// Sorting keeps names distinct.
proof fn lemma_sorting_keeps_distinct(tools: Seq<ToolView>)
    requires
        distinct_tool_names(tools),
    ensures
        distinct_tool_names(by_name(tools)),
    decreases tools.len(),
{
    if tools.len() > 0 {
        let rest = tools.drop_last();
        let front = by_name(rest);
        let last = tools.last();
        let all = by_name(tools);
        assert forall|i: int, j: int| 0 <= i < j < rest.len() implies (#[trigger] rest[i]).name != (
        #[trigger] rest[j]).name by {
            assert(tools[i].name != tools[j].name);
        }
        lemma_sorting_keeps_distinct(rest);
        law_sorting_orders_and_keeps(rest);
        lemma_slot_bounds(front, last.name);
        let at = slot(front, last.name);
        assert forall|i: int| 0 <= i < front.len() implies (#[trigger] front[i]).name
            != last.name by {
            lemma_same_tools(front, rest, i);
            let k = choose|k: int| 0 <= k < rest.len() && rest[k] == front[i];
            assert(tools[k].name != tools[tools.len() - 1].name);
        }
        assert forall|i: int, j: int| 0 <= i < j < all.len() implies (#[trigger] all[i]).name != (
        #[trigger] all[j]).name by {
            let a = if i < at {
                i
            } else {
                i - 1
            };
            let b = if j < at {
                j
            } else {
                j - 1
            };
            if i != at {
                assert(all[i] == front[a]);
            }
            if j != at {
                assert(all[j] == front[b]);
            }
            if i != at && j != at {
                assert(front[a].name != front[b].name);
            }
        }
    }
}

/// Two lists of the same tools in the order of distinct names are the same.
proof fn lemma_order_is_unique(a: Seq<ToolView>, b: Seq<ToolView>)
    requires
        in_name_order(a),
        in_name_order(b),
        distinct_tool_names(a),
        a.to_multiset() == b.to_multiset(),
    ensures
        a == b,
    decreases a.len(),
{
    broadcast use vstd::seq_lib::group_to_multiset_ensures;

    assert(a.to_multiset().len() == a.len());
    assert(b.to_multiset().len() == b.len());
    if a.len() == 0 {
        assert(a =~= b);
    } else {
        lemma_same_tools(a, b, 0);
        lemma_same_tools(b, a, 0);
        let j = choose|j: int| 0 <= j < b.len() && b[j] == a[0];
        let i = choose|i: int| 0 <= i < a.len() && a[i] == b[0];
        if j > 0 {
            assert(text::lex_le(b[0].name, b[j].name));
        } else {
            text::lemma_lex_reflexive(a[0].name);
        }
        if i > 0 {
            assert(text::lex_le(a[0].name, a[i].name));
            text::lemma_lex_antisymmetric(a[0].name, b[0].name);
            assert(a[0].name != a[i].name);
        }
        assert(a[0] == b[0]);
        let ra = a.drop_first();
        let rb = b.drop_first();
        assert(ra =~= a.remove(0));
        assert(rb =~= b.remove(0));
        assert forall|i: int, j: int| 0 <= i < j < ra.len() implies text::lex_le(
            (#[trigger] ra[i]).name,
            (#[trigger] ra[j]).name,
        ) && ra[i].name != ra[j].name by {
            assert(a[i + 1].name != a[j + 1].name);
            assert(text::lex_le(a[i + 1].name, a[j + 1].name));
        }
        assert forall|i: int, j: int| 0 <= i < j < rb.len() implies text::lex_le(
            (#[trigger] rb[i]).name,
            (#[trigger] rb[j]).name,
        ) by {
            assert(text::lex_le(b[i + 1].name, b[j + 1].name));
        }
        lemma_order_is_unique(ra, rb);
        assert(a =~= seq![a[0]] + ra);
        assert(b =~= seq![b[0]] + rb);
    }
}

/// The tools of one name, in order.
pub open spec fn of_name(tools: Seq<ToolView>, name: Seq<char>) -> Seq<ToolView>
    decreases tools.len(),
{
    if tools.len() == 0 {
        Seq::empty()
    } else if tools.last().name == name {
        of_name(tools.drop_last(), name).push(tools.last())
    } else {
        of_name(tools.drop_last(), name)
    }
}

/// A tool that comes behind the slot of a name has another name.
proof fn lemma_behind_slot(tools: Seq<ToolView>, name: Seq<char>, i: int)
    requires
        slot(tools, name) <= i < tools.len(),
        0 <= i,
    ensures
        tools[i].name != name,
    decreases tools.len(),
{
    text::lemma_lex_reflexive(name);
    if i < tools.len() - 1 {
        lemma_behind_slot(tools.drop_last(), name, i);
    }
}

/// Where a tool is put among others, the tools of another name stay in their order, and
/// where none of its name follows, it comes behind those of its name.
proof fn lemma_of_name_insert(tools: Seq<ToolView>, at: int, tool: ToolView, name: Seq<char>)
    requires
        0 <= at <= tools.len(),
        tool.name == name ==> forall|i: int|
            at <= i < tools.len() ==> (#[trigger] tools[i]).name != name,
    ensures
        of_name(tools.insert(at, tool), name) == if tool.name == name {
            of_name(tools, name).push(tool)
        } else {
            of_name(tools, name)
        },
    decreases tools.len(),
{
    let all = tools.insert(at, tool);
    if at == tools.len() {
        assert(all.drop_last() =~= tools);
        assert(all.last() == tool);
    } else {
        let front = tools.drop_last();
        assert forall|i: int| at <= i < front.len() && tool.name == name implies (
        #[trigger] front[i]).name != name by {
            assert(front[i] == tools[i]);
        }
        lemma_of_name_insert(front, at, tool, name);
        assert(all.drop_last() =~= front.insert(at, tool));
        assert(all.last() == tools.last());
        assert(tools.last() == tools[tools.len() - 1]);
    }
}

/// Sorting keeps the tools of one name in the order in which they were listed.
pub proof fn law_tools_of_one_name_keep_their_order(tools: Seq<ToolView>, name: Seq<char>)
    ensures
        of_name(by_name(tools), name) == of_name(tools, name),
    decreases tools.len(),
{
    if tools.len() > 0 {
        let front = by_name(tools.drop_last());
        let last = tools.last();
        let at = slot(front, last.name);
        law_tools_of_one_name_keep_their_order(tools.drop_last(), name);
        lemma_slot_bounds(front, last.name);
        assert forall|i: int| at <= i < front.len() && last.name == name implies (
        #[trigger] front[i]).name != name by {
            lemma_behind_slot(front, last.name, i);
        }
        lemma_of_name_insert(front, at, last, name);
    }
}

/// The order in which a client lists tools of distinct names does not matter: the
/// same tools give the same list.
pub proof fn law_listing_order_does_not_matter(a: Seq<ToolView>, b: Seq<ToolView>)
    requires
        distinct_tool_names(a),
        a.to_multiset() == b.to_multiset(),
    ensures
        by_name(a) == by_name(b),
{
    law_sorting_orders_and_keeps(a);
    law_sorting_orders_and_keeps(b);
    lemma_sorting_keeps_distinct(a);
    lemma_order_is_unique(by_name(a), by_name(b));
}

/// Sorts tools by name.
pub fn sort_by_name<T: NamedTool>(items: Vec<T>) -> (r: Vec<T>)
    ensures
        tools_of(r@) == by_name(tools_of(items@)),
{
    let ghost all = tools_of(items@);
    let n: usize = items.len();
    let mut sorted = items;
    let mut i: usize = 0;
    assert(tools_of(sorted@) =~= by_name(all.take(0)) + all.skip(0));
    while i < n
        invariant
            i <= n,
            n == all.len(),
            sorted@.len() == n,
            by_name(all.take(i as int)).len() == i,
            tools_of(sorted@) == by_name(all.take(i as int)) + all.skip(i as int),
        decreases n - i,
    {
        let ghost front = by_name(all.take(i as int));
        let ghost now = tools_of(sorted@);
        let ghost item = all[i as int];
        assert(now[i as int] == item);
        let mut at: usize = i;
        assert(front.take(i as int) =~= front);
        while at > 0 && !at_most(sorted[at - 1].tool_name(), sorted[i].tool_name())
            invariant
                at <= i < n,
                sorted@.len() == n,
                front.len() == i,
                now == tools_of(sorted@),
                now == front + all.skip(i as int),
                now[i as int] == item,
                slot(front, item.name) == slot(front.take(at as int), item.name),
                i < all.len() == n,
            decreases at,
        {
            assert(now[at - 1] == front[at - 1]);
            assert(front.take(at as int).drop_last() =~= front.take(at - 1));
            at = at - 1;
        }
        proof {
            if at > 0 {
                assert(now[at - 1] == front[at - 1]);
                assert(front.take(at as int).last() == front[at - 1]);
            }
            assert(slot(front, item.name) == at);
        }
        let ghost before = sorted@;
        let moved = sorted.remove(i);
        sorted.insert(at, moved);
        proof {
            assert(all.take(i + 1).drop_last() =~= all.take(i as int));
            assert(all.take(i + 1).last() == item);
            assert(by_name(all.take(i + 1)) == front.insert(at as int, item));
            assert(sorted@ == before.remove(i as int).insert(at as int, before[i as int]));
            let want = front.insert(at as int, item) + all.skip(i + 1);
            assert(tools_of(sorted@).len() == want.len());
            assert forall|k: int| 0 <= k < n implies tools_of(sorted@)[k] == want[k] by {
                if k < at {
                    assert(sorted@[k] == before[k]);
                    assert(now[k] == front[k]);
                } else if k == at {
                    assert(sorted@[k] == before[i as int]);
                } else if k <= i {
                    assert(sorted@[k] == before[k - 1]);
                    assert(now[k - 1] == front[k - 1]);
                } else {
                    assert(sorted@[k] == before[k]);
                    assert(now[k] == all[k]);
                }
            }
            assert(tools_of(sorted@) =~= want);
        }
        i = i + 1;
    }
    assert(all.take(n as int) =~= all);
    assert(by_name(all) + all.skip(n as int) =~= by_name(all));
    sorted
}

/// One part of an assistant turn.
pub enum AssistantPart<'a> {
    Text(&'a str),
    Reasoning(&'a str),
    Image { source: &'a ImageSource },
    ToolCall { id: &'a str, name: &'a str, input: &'a Json },
    ToolResult { tool_use_id: &'a str, content: &'a ToolResultContent },
}

/// One turn of a conversation.
pub enum Turn<'a> {
    User { content: &'a ContentValue },
    Assistant { parts: Vec<AssistantPart<'a>> },
    Unknown { role: &'a str, content: &'a ContentValue },
}

/// A conversation, free of the words of any upstream.
pub struct Conversation<'a> {
    pub system: Option<&'a SystemPrompt>,
    pub turns: Vec<Turn<'a>>,
    /// What was moved out of the system prompt.
    pub synthetic_tail: &'a Vec<String>,
}

/// Whether a part stands for a block.
pub open spec fn part_of_block(part: AssistantPart, block: ContentBlock) -> bool {
    match block {
        ContentBlock::Text { text } => part matches AssistantPart::Text(t) && t@ == text@,
        ContentBlock::Thinking { thinking, .. } => part matches AssistantPart::Reasoning(t) && t@
            == thinking@,
        ContentBlock::RedactedThinking { data } => part matches AssistantPart::Reasoning(t) && t@
            == data@,
        ContentBlock::ToolUse { id, name, input } => part matches AssistantPart::ToolCall {
            id: i,
            name: n,
            input: v,
        } && i@ == id@ && n@ == name@ && *v == input,
        ContentBlock::ToolResult { tool_use_id, content, .. } =>
            part matches AssistantPart::ToolResult { tool_use_id: i, content: c } && i@
            == tool_use_id@ && *c == content,
        ContentBlock::Image { source } => part matches AssistantPart::Image { source: s } && *s
            == source,
        ContentBlock::Unknown => false,
    }
}

/// The blocks that become parts: all but those of an unknown type.
pub open spec fn known_blocks(blocks: Seq<ContentBlock>) -> Seq<ContentBlock>
    decreases blocks.len(),
{
    if blocks.len() == 0 {
        Seq::empty()
    } else if blocks.last() is Unknown {
        known_blocks(blocks.drop_last())
    } else {
        known_blocks(blocks.drop_last()).push(blocks.last())
    }
}

/// Whether parts stand for the content of an assistant message: one part for a text,
/// none for no content, and one for each known block.
pub open spec fn parts_of(parts: Seq<AssistantPart>, content: ContentValue) -> bool {
    match content {
        ContentValue::Text(text) => parts.len() == 1 && (
        parts[0] matches AssistantPart::Text(t) && t@ == text@),
        ContentValue::Null => parts.len() == 0,
        ContentValue::Blocks(blocks) => {
            let known = known_blocks(blocks@);
            &&& parts.len() == known.len()
            &&& forall|i: int|
                0 <= i < parts.len() ==> part_of_block(#[trigger] parts[i], known[i])
        },
    }
}

/// Whether a turn stands for a message.
pub open spec fn turn_of(turn: Turn, message: Message) -> bool {
    if message.role@ == "user"@ {
        turn matches Turn::User { content } && *content == message.content
    } else if message.role@ == "assistant"@ {
        turn matches Turn::Assistant { parts } && parts_of(parts@, message.content)
    } else {
        turn matches Turn::Unknown { role, content } && role@ == message.role@ && *content
            == message.content
    }
}

/// The part of a block.
fn build_part<'a>(block: &'a ContentBlock) -> (r: Option<AssistantPart<'a>>)
    ensures
        match r {
            Some(part) => part_of_block(part, *block),
            None => *block is Unknown,
        },
{
    match block {
        ContentBlock::Text { text } => Some(AssistantPart::Text(text.as_str())),
        ContentBlock::Thinking { thinking, .. } => Some(
            AssistantPart::Reasoning(thinking.as_str()),
        ),
        ContentBlock::RedactedThinking { data } => Some(AssistantPart::Reasoning(data.as_str())),
        ContentBlock::ToolUse { id, name, input } => Some(
            AssistantPart::ToolCall { id: id.as_str(), name: name.as_str(), input },
        ),
        ContentBlock::ToolResult { tool_use_id, content, .. } => Some(
            AssistantPart::ToolResult { tool_use_id: tool_use_id.as_str(), content },
        ),
        ContentBlock::Image { source } => Some(AssistantPart::Image { source }),
        ContentBlock::Unknown => None,
    }
}

/// The parts of an assistant message.
pub fn build_parts<'a>(content: &'a ContentValue) -> (parts: Vec<AssistantPart<'a>>)
    ensures
        parts_of(parts@, *content),
{
    let mut parts: Vec<AssistantPart<'a>> = Vec::new();
    match content {
        ContentValue::Text(text) => {
            parts.push(AssistantPart::Text(text.as_str()));
        },
        ContentValue::Null => {},
        ContentValue::Blocks(blocks) => {
            let mut i: usize = 0;
            while i < blocks.len()
                invariant
                    i <= blocks@.len(),
                    parts@.len() == known_blocks(blocks@.take(i as int)).len(),
                    forall|j: int|
                        0 <= j < parts@.len() ==> part_of_block(
                            #[trigger] parts@[j],
                            known_blocks(blocks@.take(i as int))[j],
                        ),
                decreases blocks@.len() - i,
            {
                assert(blocks@.take(i + 1).drop_last() =~= blocks@.take(i as int));
                match build_part(&blocks[i]) {
                    Some(part) => {
                        parts.push(part);
                    },
                    None => {},
                }
                i = i + 1;
            }
            assert(blocks@.take(i as int) =~= blocks@);
        },
    }
    parts
}

/// The turn of a message.
pub fn build_turn<'a>(message: &'a Message) -> (turn: Turn<'a>)
    ensures
        turn_of(turn, *message),
{
    if same(message.role.as_str(), "user") {
        Turn::User { content: &message.content }
    } else if same(message.role.as_str(), "assistant") {
        proof {
            reveal_strlit("user");
            reveal_strlit("assistant");
        }
        Turn::Assistant { parts: build_parts(&message.content) }
    } else {
        Turn::Unknown { role: message.role.as_str(), content: &message.content }
    }
}

/// The conversation of a request: one turn for each message, in order.
pub fn build_conversation<'a>(
    system: Option<&'a SystemPrompt>,
    messages: &'a Vec<Message>,
    synthetic_tail: &'a Vec<String>,
) -> (r: Conversation<'a>)
    ensures
        r.system == system,
        r.synthetic_tail@ == synthetic_tail@,
        r.turns@.len() == messages@.len(),
        forall|i: int| 0 <= i < messages@.len() ==> turn_of(#[trigger] r.turns@[i], messages@[i]),
{
    let mut turns: Vec<Turn<'a>> = Vec::new();
    let mut i: usize = 0;
    while i < messages.len()
        invariant
            i <= messages@.len(),
            turns@.len() == i,
            forall|j: int| 0 <= j < i ==> turn_of(#[trigger] turns@[j], messages@[j]),
        decreases messages@.len() - i,
    {
        turns.push(build_turn(&messages[i]));
        i = i + 1;
    }
    Conversation { system, turns, synthetic_tail }
}

} // verus!
