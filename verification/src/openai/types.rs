//! The OpenAI Chat Completions wire: requests, responses and stream deltas.

use crate::json::{self, Json, JsonView};
use crate::text::{self, same};
use vstd::prelude::*;
use vstd::string::*;

verus! {

/// The nested token counts of a usage object.
#[derive(Debug, Clone, Copy, PartialEq, Eq, Structural)]
pub struct PromptTokensDetails {
    pub cached_tokens: Option<u32>,
}

/// The token counts that an upstream reports.
#[derive(Debug, Clone, Copy, PartialEq, Eq, Structural)]
pub struct Usage {
    pub prompt_tokens: Option<u32>,
    pub completion_tokens: Option<u32>,
    pub total_tokens: Option<u32>,
    pub prompt_cache_hit_tokens: Option<u32>,
    pub prompt_cache_miss_tokens: Option<u32>,
    pub cached_tokens: Option<u32>,
    pub prompt_tokens_details: Option<PromptTokensDetails>,
}

/// An optional count: absent and null are no count, a value that is not an
/// integer from 0 to `u32::MAX` is an error (`None`).
pub open spec fn count_field(value: Option<JsonView>) -> Option<Option<u32>> {
    match value {
        None => Some(None),
        Some(JsonView::Null) => Some(None),
        Some(v) => match v.as_u32() {
            Some(k) => Some(Some(k)),
            None => None,
        },
    }
}

/// The optional nested counts, with the rules of `count_field`.
pub open spec fn details_field(value: Option<JsonView>) -> Option<Option<PromptTokensDetails>> {
    match value {
        None => Some(None),
        Some(JsonView::Null) => Some(None),
        Some(v) => if v is Object {
            match count_field(v.get("cached_tokens"@)) {
                Some(cached_tokens) => Some(Some(PromptTokensDetails { cached_tokens })),
                None => None,
            }
        } else {
            None
        },
    }
}

/// The usage that a JSON value denotes: an object whose known members are all
/// well formed.
pub open spec fn usage_of(value: JsonView) -> Option<Usage> {
    if value is Object {
        match (
            count_field(value.get("prompt_tokens"@)),
            count_field(value.get("completion_tokens"@)),
            count_field(value.get("total_tokens"@)),
            count_field(value.get("prompt_cache_hit_tokens"@)),
            count_field(value.get("prompt_cache_miss_tokens"@)),
            count_field(value.get("cached_tokens"@)),
            details_field(value.get("prompt_tokens_details"@)),
        ) {
            (Some(a), Some(b), Some(c), Some(d), Some(e), Some(f), Some(g)) => Some(
                Usage {
                    prompt_tokens: a,
                    completion_tokens: b,
                    total_tokens: c,
                    prompt_cache_hit_tokens: d,
                    prompt_cache_miss_tokens: e,
                    cached_tokens: f,
                    prompt_tokens_details: g,
                },
            ),
            _ => None,
        }
    } else {
        None
    }
}

/// The value behind an optional reference.
pub open spec fn opt_json(value: Option<&Json>) -> Option<JsonView> {
    match value {
        Some(v) => Some(v@),
        None => None,
    }
}

/// Reads an optional count.
fn read_count(value: Option<&Json>) -> (r: Option<Option<u32>>)
    ensures
        r == count_field(opt_json(value)),
{
    match value {
        None => Some(None),
        Some(Json::Null) => Some(None),
        Some(v) => match v.as_u32() {
            Some(k) => Some(Some(k)),
            None => None,
        },
    }
}

/// Reads the optional nested counts.
fn read_details(value: Option<&Json>) -> (r: Option<Option<PromptTokensDetails>>)
    ensures
        r == details_field(opt_json(value)),
{
    match value {
        None => Some(None),
        Some(v) => match v {
            Json::Null => Some(None),
            Json::Object(_) => match read_count(v.get("cached_tokens")) {
                Some(cached_tokens) => Some(Some(PromptTokensDetails { cached_tokens })),
                None => None,
            },
            _ => None,
        },
    }
}

impl Usage {
    /// Reads a usage object; `None` where the value is not one.
    pub fn from_json(value: &Json) -> (r: Option<Usage>)
        ensures
            r == usage_of(value@),
    {
        match value {
            Json::Object(_) => {},
            _ => {
                return None;
            },
        }
        let prompt_tokens = match read_count(value.get("prompt_tokens")) {
            Some(x) => x,
            None => {
                return None;
            },
        };
        let completion_tokens = match read_count(value.get("completion_tokens")) {
            Some(x) => x,
            None => {
                return None;
            },
        };
        let total_tokens = match read_count(value.get("total_tokens")) {
            Some(x) => x,
            None => {
                return None;
            },
        };
        let prompt_cache_hit_tokens = match read_count(value.get("prompt_cache_hit_tokens")) {
            Some(x) => x,
            None => {
                return None;
            },
        };
        let prompt_cache_miss_tokens = match read_count(value.get("prompt_cache_miss_tokens")) {
            Some(x) => x,
            None => {
                return None;
            },
        };
        let cached_tokens = match read_count(value.get("cached_tokens")) {
            Some(x) => x,
            None => {
                return None;
            },
        };
        let prompt_tokens_details = match read_details(value.get("prompt_tokens_details")) {
            Some(x) => x,
            None => {
                return None;
            },
        };
        Some(
            Usage {
                prompt_tokens,
                completion_tokens,
                total_tokens,
                prompt_cache_hit_tokens,
                prompt_cache_miss_tokens,
                cached_tokens,
                prompt_tokens_details,
            },
        )
    }
}

/// The text of one streamed field, and what of it could not be read as text.
#[derive(Debug)]
pub struct DeltaContent {
    pub text: Option<String>,
    pub raw: Vec<Json>,
}

/// What a streamed field says.
#[verifier::ext_equal]
pub struct DeltaContentView {
    pub text: Option<Seq<char>>,
    pub raw: Seq<JsonView>,
}

impl View for DeltaContent {
    type V = DeltaContentView;

    open spec fn view(&self) -> DeltaContentView {
        DeltaContentView { text: text::opt_text(self.text), raw: json::items_view(self.raw@) }
    }
}

/// The text of a content part: a string, or an object with a string under
/// `text` or, failing that, under `summary_text`.
pub open spec fn part_text(part: JsonView) -> Option<Seq<char>> {
    match part {
        JsonView::String(s) => Some(s),
        JsonView::Object(_) => match part.get("text"@) {
            Some(JsonView::String(s)) => Some(s),
            _ => match part.get("summary_text"@) {
                Some(JsonView::String(s)) => Some(s),
                _ => None,
            },
        },
        _ => None,
    }
}

/// The texts of the parts that have one, one after the other; `None` where no
/// part has one.
pub open spec fn parts_text(parts: Seq<JsonView>) -> Option<Seq<char>>
    decreases parts.len(),
{
    if parts.len() == 0 {
        None
    } else {
        match (parts_text(parts.drop_last()), part_text(parts.last())) {
            (Some(front), Some(text)) => Some(front + text),
            (None, Some(text)) => Some(text),
            (front, None) => front,
        }
    }
}

/// The parts without a text.
pub open spec fn parts_raw(parts: Seq<JsonView>) -> Seq<JsonView>
    decreases parts.len(),
{
    if parts.len() == 0 {
        Seq::empty()
    } else if part_text(parts.last()) is Some {
        parts_raw(parts.drop_last())
    } else {
        parts_raw(parts.drop_last()).push(parts.last())
    }
}

/// What a streamed field says: nothing where it is absent or null; the text of a
/// string or of an object that is itself a part; the texts of a list of parts.
/// Whatever has no text is kept as it is.
pub open spec fn content_of(value: Option<JsonView>) -> DeltaContentView {
    match value {
        None => DeltaContentView { text: None, raw: Seq::empty() },
        Some(JsonView::Null) => DeltaContentView { text: None, raw: Seq::empty() },
        Some(JsonView::Array(parts)) => DeltaContentView {
            text: parts_text(parts),
            raw: parts_raw(parts),
        },
        Some(v) => match part_text(v) {
            Some(text) => DeltaContentView { text: Some(text), raw: Seq::empty() },
            None => DeltaContentView { text: None, raw: seq![v] },
        },
    }
}

/// Reads the text of a content part.
fn read_part<'a>(part: &'a Json) -> (r: Option<&'a str>)
    ensures
        match r {
            Some(s) => part_text(part@) == Some(s@),
            None => part_text(part@) is None,
        },
{
    match part {
        Json::String(s) => Some(s.as_str()),
        Json::Object(_) => {
            match part.get("text") {
                Some(Json::String(s)) => {
                    return Some(s.as_str());
                },
                _ => {},
            }
            match part.get("summary_text") {
                Some(Json::String(s)) => Some(s.as_str()),
                _ => None,
            }
        },
        _ => None,
    }
}

impl Default for DeltaContent {
    /// A field that says nothing.
    fn default() -> (r: DeltaContent)
        ensures
            r@ == (DeltaContentView { text: None, raw: Seq::empty() }),
    {
        DeltaContent { text: None, raw: Vec::new() }
    }
}

impl DeltaContentView {
    /// Whether the field says nothing at all.
    pub open spec fn is_empty(self) -> bool {
        &&& self.text matches Some(s) ==> s.len() == 0
        &&& self.raw.len() == 0
    }

    /// Whether the field has some text.
    pub open spec fn has_text(self) -> bool {
        self.text matches Some(s) && s.len() > 0
    }
}

impl DeltaContent {
    /// Reads a streamed field.
    pub fn from_json(value: Option<&Json>) -> (r: DeltaContent)
        ensures
            r@ == content_of(opt_json(value)),
    {
        match value {
            None => DeltaContent { text: None, raw: Vec::new() },
            Some(v) => match v {
                Json::Null => DeltaContent { text: None, raw: Vec::new() },
                Json::Array(parts) => {
                    let mut text: Option<String> = None;
                    let mut raw: Vec<Json> = Vec::new();
                    let mut i: usize = 0;
                    let ghost all = json::items_view(parts@);
                    assert(json::items_view(raw@) =~= parts_raw(all.take(0)));
                    while i < parts.len()
                        invariant
                            i <= parts@.len(),
                            all == json::items_view(parts@),
                            text::opt_text(text) == parts_text(all.take(i as int)),
                            json::items_view(raw@) == parts_raw(all.take(i as int)),
                        decreases parts@.len() - i,
                    {
                        let ghost before = raw@;
                        proof {
                            assert(all.take(i + 1).drop_last() =~= all.take(i as int));
                            assert(all.take(i + 1).last() == parts@[i as int]@);
                        }
                        match read_part(&parts[i]) {
                            Some(piece) => {
                                match text {
                                    Some(mut front) => {
                                        front.append(piece);
                                        text = Some(front);
                                    },
                                    None => {
                                        text = Some(piece.to_owned());
                                    },
                                }
                            },
                            None => {
                                raw.push(parts[i].clone());
                                assert(json::items_view(raw@) =~= json::items_view(before).push(
                                    parts@[i as int]@,
                                ));
                            },
                        }
                        i = i + 1;
                    }
                    assert(all.take(i as int) =~= all);
                    DeltaContent { text, raw }
                },
                _ => match read_part(v) {
                    Some(piece) => DeltaContent { text: Some(piece.to_owned()), raw: Vec::new() },
                    None => {
                        let mut raw: Vec<Json> = Vec::new();
                        raw.push(v.clone());
                        assert(json::items_view(raw@) =~= seq![v@]);
                        DeltaContent { text: None, raw }
                    },
                },
            },
        }
    }

    /// Whether the field says nothing at all.
    pub fn is_empty(&self) -> (r: bool)
        ensures
            r == self@.is_empty(),
    {
        let no_text = match &self.text {
            Some(s) => s.as_str().unicode_len() == 0,
            None => true,
        };
        no_text && self.raw.len() == 0
    }

    /// Whether the field has some text.
    pub fn has_text(&self) -> (r: bool)
        ensures
            r == self@.has_text(),
    {
        match &self.text {
            Some(s) => s.as_str().unicode_len() > 0,
            None => false,
        }
    }
}

/// The streamed part of a function call.
#[derive(Debug)]
pub struct FunctionDelta {
    pub name: Option<String>,
    pub arguments: Option<String>,
}

/// The streamed part of one tool call.
#[derive(Debug)]
pub struct ToolCallDelta {
    pub index: Option<u32>,
    pub id: Option<String>,
    pub function: Option<FunctionDelta>,
}

/// What the streamed part of a function call says.
pub struct FunctionDeltaView {
    pub name: Option<Seq<char>>,
    pub arguments: Option<Seq<char>>,
}

/// What the streamed part of one tool call says.
pub struct ToolCallDeltaView {
    pub index: Option<u32>,
    pub id: Option<Seq<char>>,
    pub function: Option<FunctionDeltaView>,
}

impl View for FunctionDelta {
    type V = FunctionDeltaView;

    open spec fn view(&self) -> FunctionDeltaView {
        FunctionDeltaView { name: text::opt_text(self.name), arguments: text::opt_text(self.arguments) }
    }
}

impl View for ToolCallDelta {
    type V = ToolCallDeltaView;

    open spec fn view(&self) -> ToolCallDeltaView {
        ToolCallDeltaView {
            index: self.index,
            id: text::opt_text(self.id),
            function: match self.function {
                Some(f) => Some(f@),
                None => None,
            },
        }
    }
}

/// What a list of tool call parts says.
pub open spec fn tool_deltas_view(calls: Seq<ToolCallDelta>) -> Seq<ToolCallDeltaView> {
    Seq::new(calls.len(), |i: int| calls[i]@)
}

/// One streamed change to the assistant message.
#[derive(Debug)]
pub struct ChatDelta {
    pub role: Option<String>,
    pub content: DeltaContent,
    pub reasoning_content: DeltaContent,
    pub reasoning: DeltaContent,
    pub tool_calls: Option<Vec<ToolCallDelta>>,
}

/// What a streamed change says.
#[verifier::ext_equal]
pub struct ChatDeltaView {
    pub role: Option<Seq<char>>,
    pub content: DeltaContentView,
    pub reasoning_content: DeltaContentView,
    pub reasoning: DeltaContentView,
    pub tool_calls: Option<Seq<ToolCallDeltaView>>,
}

impl View for ChatDelta {
    type V = ChatDeltaView;

    open spec fn view(&self) -> ChatDeltaView {
        ChatDeltaView {
            role: text::opt_text(self.role),
            content: self.content@,
            reasoning_content: self.reasoning_content@,
            reasoning: self.reasoning@,
            tool_calls: match self.tool_calls {
                Some(calls) => Some(tool_deltas_view(calls@)),
                None => None,
            },
        }
    }
}

/// Why a streamed change cannot be read.
#[derive(Debug, Clone, Copy, PartialEq, Eq, Structural)]
pub enum DeltaError {
    /// The change is not an object.
    NotAnObject,
    /// The role is neither absent, null nor a string.
    Role,
    /// The tool calls are neither absent, null nor a list of tool call parts.
    ToolCalls,
}

/// An optional string: absent and null are none, another value is an error
/// (`None`).
pub open spec fn string_field(value: Option<JsonView>) -> Option<Option<Seq<char>>> {
    match value {
        None => Some(None),
        Some(JsonView::Null) => Some(None),
        Some(JsonView::String(s)) => Some(Some(s)),
        Some(_) => None,
    }
}

/// The optional function part of a tool call.
pub open spec fn function_field(value: Option<JsonView>) -> Option<Option<FunctionDeltaView>> {
    match value {
        None => Some(None),
        Some(JsonView::Null) => Some(None),
        Some(v) => if v is Object {
            match (string_field(v.get("name"@)), string_field(v.get("arguments"@))) {
                (Some(name), Some(arguments)) => Some(Some(FunctionDeltaView { name, arguments })),
                _ => None,
            }
        } else {
            None
        },
    }
}

/// The tool call part that a JSON value denotes.
pub open spec fn tool_delta_of(value: JsonView) -> Option<ToolCallDeltaView> {
    if value is Object {
        match (
            count_field(value.get("index"@)),
            string_field(value.get("id"@)),
            function_field(value.get("function"@)),
        ) {
            (Some(index), Some(id), Some(function)) => Some(
                ToolCallDeltaView { index, id, function },
            ),
            _ => None,
        }
    } else {
        None
    }
}

/// The tool call parts that a list of JSON values denotes, if all of them denote one.
pub open spec fn tool_deltas_of(items: Seq<JsonView>) -> Option<Seq<ToolCallDeltaView>>
    decreases items.len(),
{
    if items.len() == 0 {
        Some(Seq::empty())
    } else {
        match (tool_deltas_of(items.drop_last()), tool_delta_of(items.last())) {
            (Some(front), Some(call)) => Some(front.push(call)),
            _ => None,
        }
    }
}

/// The optional tool call parts of a streamed change.
pub open spec fn tool_calls_field(value: Option<JsonView>) -> Option<
    Option<Seq<ToolCallDeltaView>>,
> {
    match value {
        None => Some(None),
        Some(JsonView::Null) => Some(None),
        Some(JsonView::Array(items)) => match tool_deltas_of(items) {
            Some(calls) => Some(Some(calls)),
            None => None,
        },
        Some(_) => None,
    }
}

/// The streamed change that a JSON value denotes.
pub open spec fn delta_of(value: JsonView) -> Result<ChatDeltaView, DeltaError> {
    if !(value is Object) {
        Err(DeltaError::NotAnObject)
    } else {
        match string_field(value.get("role"@)) {
            None => Err(DeltaError::Role),
            Some(role) => match tool_calls_field(value.get("tool_calls"@)) {
                None => Err(DeltaError::ToolCalls),
                Some(tool_calls) => Ok(
                    ChatDeltaView {
                        role,
                        content: content_of(value.get("content"@)),
                        reasoning_content: content_of(value.get("reasoning_content"@)),
                        reasoning: content_of(value.get("reasoning"@)),
                        tool_calls,
                    },
                ),
            },
        }
    }
}

/// An optional optional string, taken by its characters.
pub open spec fn opt_opt_text(value: Option<Option<String>>) -> Option<Option<Seq<char>>> {
    match value {
        Some(s) => Some(text::opt_text(s)),
        None => None,
    }
}

/// Reads an optional string.
fn read_string(value: Option<&Json>) -> (r: Option<Option<String>>)
    ensures
        opt_opt_text(r) == string_field(opt_json(value)),
{
    match value {
        None => Some(None),
        Some(v) => match v {
            Json::Null => Some(None),
            Json::String(s) => Some(Some(s.clone())),
            _ => None,
        },
    }
}

/// Reads the optional function part of a tool call.
fn read_function(value: Option<&Json>) -> (r: Option<Option<FunctionDelta>>)
    ensures
        match r {
            Some(Some(f)) => function_field(opt_json(value)) == Some(Some(f@)),
            Some(None) => function_field(opt_json(value)) == Some(None::<FunctionDeltaView>),
            None => function_field(opt_json(value)) is None,
        },
{
    match value {
        None => Some(None),
        Some(v) => match v {
            Json::Null => Some(None),
            Json::Object(_) => {
                match (read_string(v.get("name")), read_string(v.get("arguments"))) {
                    (Some(name), Some(arguments)) => Some(Some(FunctionDelta { name, arguments })),
                    _ => None,
                }
            },
            _ => None,
        },
    }
}

impl ToolCallDelta {
    /// Reads one tool call part.
    pub fn from_json(value: &Json) -> (r: Option<ToolCallDelta>)
        ensures
            match r {
                Some(call) => tool_delta_of(value@) == Some(call@),
                None => tool_delta_of(value@) is None,
            },
    {
        match value {
            Json::Object(_) => {},
            _ => {
                return None;
            },
        }
        match (
            read_count(value.get("index")),
            read_string(value.get("id")),
            read_function(value.get("function")),
        ) {
            (Some(index), Some(id), Some(function)) => Some(ToolCallDelta { index, id, function }),
            _ => None,
        }
    }
}

/// A list with an item that denotes no tool call part denotes no list of them.
proof fn lemma_tool_deltas_none(items: Seq<JsonView>, k: int)
    requires
        0 <= k < items.len(),
        tool_delta_of(items[k]) is None,
    ensures
        tool_deltas_of(items) is None,
    decreases items.len(),
{
    if k < items.len() - 1 {
        lemma_tool_deltas_none(items.drop_last(), k);
    }
}

/// Reads the optional tool call parts of a streamed change.
fn read_tool_calls(value: Option<&Json>) -> (r: Option<Option<Vec<ToolCallDelta>>>)
    ensures
        match r {
            Some(Some(calls)) => tool_calls_field(opt_json(value)) == Some(
                Some(tool_deltas_view(calls@)),
            ),
            Some(None) => tool_calls_field(opt_json(value)) == Some(None::<Seq<ToolCallDeltaView>>),
            None => tool_calls_field(opt_json(value)) is None,
        },
{
    match value {
        None => Some(None),
        Some(v) => match v {
            Json::Null => Some(None),
            Json::Array(items) => {
                let ghost all = json::items_view(items@);
                let mut calls: Vec<ToolCallDelta> = Vec::new();
                let mut i: usize = 0;
                assert(tool_deltas_view(calls@) =~= Seq::empty());
                while i < items.len()
                    invariant
                        i <= items@.len(),
                        all == json::items_view(items@),
                        v@ == JsonView::Array(all),
                        value == Some(v),
                        tool_deltas_of(all.take(i as int)) == Some(tool_deltas_view(calls@)),
                    decreases items@.len() - i,
                {
                    let ghost before = calls@;
                    proof {
                        assert(all.take(i + 1).drop_last() =~= all.take(i as int));
                        assert(all[i as int] == items@[i as int]@);
                    }
                    match ToolCallDelta::from_json(&items[i]) {
                        Some(call) => {
                            calls.push(call);
                            assert(tool_deltas_view(calls@) =~= tool_deltas_view(before).push(
                                call@,
                            ));
                        },
                        None => {
                            proof {
                                lemma_tool_deltas_none(all, i as int);
                            }
                            return None;
                        },
                    }
                    i = i + 1;
                }
                assert(all.take(i as int) =~= all);
                Some(Some(calls))
            },
            _ => None,
        },
    }
}

/// The text of a reasoning field by its name on the wire.
pub open spec fn named_text(
    name: Seq<char>,
    reasoning_content: Option<Seq<char>>,
    reasoning: Option<Seq<char>>,
) -> Option<Seq<char>> {
    let text = if name == "reasoning_content"@ {
        reasoning_content
    } else if name == "reasoning"@ {
        reasoning
    } else {
        None
    };
    match text {
        Some(s) => if s.len() > 0 {
            Some(s)
        } else {
            None
        },
        None => None,
    }
}

/// The first reasoning field with a text that is not empty: the primary name
/// first, then the alternatives in order.
pub open spec fn reasoning_text(
    primary: Seq<char>,
    alternatives: Seq<Seq<char>>,
    reasoning_content: Option<Seq<char>>,
    reasoning: Option<Seq<char>>,
) -> Option<Seq<char>>
    decreases alternatives.len(),
{
    match named_text(primary, reasoning_content, reasoning) {
        Some(s) => Some(s),
        None => if alternatives.len() == 0 {
            None
        } else {
            reasoning_text(
                alternatives[0],
                alternatives.drop_first(),
                reasoning_content,
                reasoning,
            )
        },
    }
}

/// Reads a reasoning field by its name on the wire.
fn read_named<'a>(
    name: &str,
    reasoning_content: &'a Option<String>,
    reasoning: &'a Option<String>,
) -> (r: Option<&'a str>)
    ensures
        match r {
            Some(s) => named_text(name@, text::opt_text(*reasoning_content), text::opt_text(*reasoning))
                == Some(s@),
            None => named_text(name@, text::opt_text(*reasoning_content), text::opt_text(*reasoning)) is None,
        },
{
    let field = if same(name, "reasoning_content") {
        reasoning_content
    } else if same(name, "reasoning") {
        reasoning
    } else {
        return None;
    };
    match field {
        Some(s) => if s.as_str().unicode_len() > 0 {
            Some(s.as_str())
        } else {
            None
        },
        None => None,
    }
}

/// The first reasoning field with a text that is not empty.
pub fn find_reasoning<'a>(
    primary: &str,
    alternatives: &Vec<String>,
    reasoning_content: &'a Option<String>,
    reasoning: &'a Option<String>,
) -> (r: Option<&'a str>)
    ensures
        match r {
            Some(s) => reasoning_text(
                primary@,
                text::texts(alternatives@),
                text::opt_text(*reasoning_content),
                text::opt_text(*reasoning),
            ) == Some(s@),
            None => reasoning_text(
                primary@,
                text::texts(alternatives@),
                text::opt_text(*reasoning_content),
                text::opt_text(*reasoning),
            ) is None,
        },
{
    match read_named(primary, reasoning_content, reasoning) {
        Some(s) => {
            return Some(s);
        },
        None => {},
    }
    let ghost a = text::opt_text(*reasoning_content);
    let ghost b = text::opt_text(*reasoning);
    let ghost names = text::texts(alternatives@);
    let ghost whole = reasoning_text(primary@, names, a, b);
    let mut i: usize = 0;
    proof {
        if names.len() > 0 {
            assert(names.skip(0) =~= names);
        }
    }
    while i < alternatives.len()
        invariant
            i <= alternatives@.len(),
            a == text::opt_text(*reasoning_content),
            b == text::opt_text(*reasoning),
            names == text::texts(alternatives@),
            i < names.len() ==> whole == reasoning_text(
                names[i as int],
                names.skip(i as int).drop_first(),
                a,
                b,
            ),
            i == names.len() ==> whole is None,
            whole == reasoning_text(primary@, names, a, b),
        decreases alternatives@.len() - i,
    {
        match read_named(alternatives[i].as_str(), reasoning_content, reasoning) {
            Some(s) => {
                return Some(s);
            },
            None => {},
        }
        proof {
            let rest = names.skip(i as int).drop_first();
            assert(rest =~= names.skip(i + 1));
            if rest.len() > 0 {
                assert(rest[0] == names[i + 1]);
            }
        }
        i = i + 1;
    }
    None
}

/// The texts of what could not be read, one after the other.
pub open spec fn raw_texts(raw: Seq<JsonView>) -> Seq<char>
    decreases raw.len(),
{
    if raw.len() == 0 {
        Seq::empty()
    } else {
        let front = raw_texts(raw.drop_last());
        let text = json::json_text(raw.last());
        if front.len() == 0 {
            text
        } else {
            front + "; "@ + text
        }
    }
}

/// The most characters that a preview shows.
pub const PREVIEW_CHARS: usize = 500;

impl ChatDeltaView {
    /// Everything that could not be read as text, field by field.
    pub open spec fn raw(self) -> Seq<JsonView> {
        self.content.raw + self.reasoning_content.raw + self.reasoning.raw
    }

    /// Whether something could not be read as text.
    pub open spec fn has_unparseable_content(self) -> bool {
        self.raw().len() > 0
    }

    /// Whether no field has any text.
    pub open spec fn has_no_text(self) -> bool {
        !self.content.has_text() && !self.reasoning_content.has_text()
            && !self.reasoning.has_text()
    }

    /// The beginning of what could not be read.
    pub open spec fn preview(self) -> Seq<char> {
        let whole = raw_texts(self.raw());
        if whole.len() > PREVIEW_CHARS {
            whole.take(PREVIEW_CHARS as int)
        } else {
            whole
        }
    }

    /// The reasoning text of the change.
    pub open spec fn get_reasoning(self, primary: Seq<char>, alternatives: Seq<Seq<char>>) -> Option<
        Seq<char>,
    > {
        reasoning_text(primary, alternatives, self.reasoning_content.text, self.reasoning.text)
    }
}

/// Adds the texts of a list of values to a preview.
fn push_raw_texts(out: &mut String, raw: &Vec<Json>, before: Ghost<Seq<JsonView>>)
    requires
        old(out)@ == raw_texts(before@),
    ensures
        final(out)@ == raw_texts(before@ + json::items_view(raw@)),
{
    let ghost all = json::items_view(raw@);
    let mut i: usize = 0;
    assert(before@ + all.take(0) =~= before@);
    while i < raw.len()
        invariant
            i <= raw@.len(),
            all == json::items_view(raw@),
            out@ == raw_texts(before@ + all.take(i as int)),
        decreases raw@.len() - i,
    {
        let ghost so_far = before@ + all.take(i as int);
        proof {
            assert((before@ + all.take(i + 1)).drop_last() =~= so_far);
            assert((before@ + all.take(i + 1)).last() == raw@[i as int]@);
        }
        let text = raw[i].to_text();
        if out.as_str().unicode_len() > 0 {
            out.append("; ");
            out.append(text.as_str());
        } else {
            let ghost empty = out@;
            out.append(text.as_str());
            assert(empty + text@ =~= text@);
        }
        i = i + 1;
    }
    assert(all.take(i as int) =~= all);
}

impl ChatDelta {
    /// Reads a streamed change.
    pub fn from_json(value: &Json) -> (r: Result<ChatDelta, DeltaError>)
        ensures
            match r {
                Ok(delta) => delta_of(value@) == Ok::<ChatDeltaView, DeltaError>(delta@),
                Err(e) => delta_of(value@) == Err::<ChatDeltaView, DeltaError>(e),
            },
    {
        match value {
            Json::Object(_) => {},
            _ => {
                return Err(DeltaError::NotAnObject);
            },
        }
        let role = match read_string(value.get("role")) {
            Some(role) => role,
            None => {
                return Err(DeltaError::Role);
            },
        };
        let tool_calls = match read_tool_calls(value.get("tool_calls")) {
            Some(tool_calls) => tool_calls,
            None => {
                return Err(DeltaError::ToolCalls);
            },
        };
        Ok(
            ChatDelta {
                role,
                content: DeltaContent::from_json(value.get("content")),
                reasoning_content: DeltaContent::from_json(value.get("reasoning_content")),
                reasoning: DeltaContent::from_json(value.get("reasoning")),
                tool_calls,
            },
        )
    }

    /// The reasoning text of the change.
    pub fn get_reasoning<'a>(&'a self, primary: &str, alternatives: &Vec<String>) -> (r: Option<
        &'a str,
    >)
        ensures
            match r {
                Some(s) => self@.get_reasoning(primary@, text::texts(alternatives@)) == Some(s@),
                None => self@.get_reasoning(primary@, text::texts(alternatives@)) is None,
            },
    {
        find_reasoning(
            primary,
            alternatives,
            &self.reasoning_content.text,
            &self.reasoning.text,
        )
    }

    /// Whether something could not be read as text.
    pub fn has_unparseable_content(&self) -> (r: bool)
        ensures
            r == self@.has_unparseable_content(),
    {
        self.content.raw.len() > 0 || self.reasoning_content.raw.len() > 0
            || self.reasoning.raw.len() > 0
    }

    /// Whether no field has any text.
    pub fn has_no_text(&self) -> (r: bool)
        ensures
            r == self@.has_no_text(),
    {
        !self.content.has_text() && !self.reasoning_content.has_text() && !self.reasoning.has_text()
    }

    /// The beginning of what could not be read, cut between two characters.
    pub fn unparseable_preview(&self) -> (r: String)
        ensures
            r@ == self@.preview(),
    {
        let mut whole = String::new();
        let ghost a = json::items_view(self.content.raw@);
        let ghost b = json::items_view(self.reasoning_content.raw@);
        let ghost c = json::items_view(self.reasoning.raw@);
        push_raw_texts(&mut whole, &self.content.raw, Ghost(Seq::empty()));
        assert(Seq::<JsonView>::empty() + a =~= a);
        push_raw_texts(&mut whole, &self.reasoning_content.raw, Ghost(a));
        push_raw_texts(&mut whole, &self.reasoning.raw, Ghost(a + b));
        if whole.as_str().unicode_len() > PREVIEW_CHARS {
            let cut = whole.as_str().substring_char(0, PREVIEW_CHARS);
            assert(cut@ =~= whole@.take(PREVIEW_CHARS as int));
            cut.to_owned()
        } else {
            whole
        }
    }
}

/// The function that a tool call names.
#[derive(Debug)]
pub struct FunctionCall {
    pub name: String,
    pub arguments: String,
}

/// A tool call of a whole message.
#[derive(Debug)]
pub struct ToolCall {
    pub id: String,
    pub function: Option<FunctionCall>,
}

/// A whole assistant message.
#[derive(Debug)]
pub struct ChatMessage {
    pub role: Option<String>,
    pub content: Option<String>,
    pub reasoning_content: Option<String>,
    pub reasoning: Option<String>,
    pub tool_calls: Option<Vec<ToolCall>>,
}

impl ChatMessage {
    /// The reasoning text of the message.
    pub open spec fn reasoning_of(self, primary: Seq<char>, alternatives: Seq<Seq<char>>) -> Option<
        Seq<char>,
    > {
        reasoning_text(
            primary,
            alternatives,
            text::opt_text(self.reasoning_content),
            text::opt_text(self.reasoning),
        )
    }

    /// The reasoning text of the message.
    pub fn get_reasoning<'a>(&'a self, primary: &str, alternatives: &Vec<String>) -> (r: Option<
        &'a str,
    >)
        ensures
            match r {
                Some(s) => self.reasoning_of(primary@, text::texts(alternatives@)) == Some(s@),
                None => self.reasoning_of(primary@, text::texts(alternatives@)) is None,
            },
    {
        find_reasoning(primary, alternatives, &self.reasoning_content, &self.reasoning)
    }
}

/// One answer of a completion.
#[derive(Debug)]
pub struct Choice {
    pub index: u32,
    pub message: Option<ChatMessage>,
    pub delta: Option<ChatDelta>,
    pub finish_reason: Option<String>,
}

/// A whole completion.
#[derive(Debug)]
pub struct ChatCompletionResponse {
    pub id: String,
    pub choices: Vec<Choice>,
    pub usage: Option<Usage>,
}

/// What the upstream adds to a stream.
#[derive(Debug, Clone, Copy, PartialEq, Eq, Structural)]
pub struct StreamOptions {
    pub include_usage: bool,
}

/// The thinking switch of a request.
#[derive(Debug)]
pub struct DeepSeekThinking {
    pub thinking_type: String,
    pub clear_thinking: Option<bool>,
}

/// A function that a tool offers.
#[derive(Debug)]
pub struct OpenAiFunction {
    pub name: String,
    pub description: Option<String>,
    pub parameters: Json,
}

/// A tool of a request.
#[derive(Debug)]
pub struct OpenAiTool {
    pub tool_type: String,
    pub function: OpenAiFunction,
}

/// A request for a completion.
#[derive(Debug)]
pub struct ChatCompletionRequest {
    pub model: String,
    pub messages: Vec<Json>,
    pub max_tokens: Option<u32>,
    pub max_completion_tokens: Option<u32>,
    pub stream: Option<bool>,
    pub stream_options: Option<StreamOptions>,
    pub reasoning_effort: Option<String>,
    pub thinking: Option<DeepSeekThinking>,
    pub tools: Option<Vec<OpenAiTool>>,
    pub tool_choice: Option<Json>,
    pub stop: Option<Vec<String>>,
    pub prompt_cache_key: Option<String>,
}

/// What a thinking switch says.
pub struct ThinkingView {
    pub thinking_type: Seq<char>,
    pub clear_thinking: Option<bool>,
}

/// What a tool says.
pub struct ToolView {
    pub tool_type: Seq<char>,
    pub name: Seq<char>,
    pub description: Option<Seq<char>>,
    pub parameters: JsonView,
}

/// What a request says.
#[verifier::ext_equal]
pub struct ChatRequestView {
    pub model: Seq<char>,
    pub messages: Seq<JsonView>,
    pub max_tokens: Option<u32>,
    pub max_completion_tokens: Option<u32>,
    pub stream: Option<bool>,
    pub stream_options: Option<StreamOptions>,
    pub reasoning_effort: Option<Seq<char>>,
    pub thinking: Option<ThinkingView>,
    pub tools: Option<Seq<ToolView>>,
    pub tool_choice: Option<JsonView>,
    pub stop: Option<Seq<Seq<char>>>,
    pub prompt_cache_key: Option<Seq<char>>,
}

impl View for DeepSeekThinking {
    type V = ThinkingView;

    open spec fn view(&self) -> ThinkingView {
        ThinkingView {
            thinking_type: self.thinking_type@,
            clear_thinking: self.clear_thinking,
        }
    }
}

impl View for OpenAiTool {
    type V = ToolView;

    open spec fn view(&self) -> ToolView {
        ToolView {
            tool_type: self.tool_type@,
            name: self.function.name@,
            description: text::opt_text(self.function.description),
            parameters: self.function.parameters@,
        }
    }
}

/// What a list of tools says.
pub open spec fn tools_view(tools: Seq<OpenAiTool>) -> Seq<ToolView> {
    Seq::new(tools.len(), |i: int| tools[i]@)
}

impl View for ChatCompletionRequest {
    type V = ChatRequestView;

    open spec fn view(&self) -> ChatRequestView {
        ChatRequestView {
            model: self.model@,
            messages: json::items_view(self.messages@),
            max_tokens: self.max_tokens,
            max_completion_tokens: self.max_completion_tokens,
            stream: self.stream,
            stream_options: self.stream_options,
            reasoning_effort: text::opt_text(self.reasoning_effort),
            thinking: match self.thinking {
                Some(t) => Some(t@),
                None => None,
            },
            tools: match self.tools {
                Some(tools) => Some(tools_view(tools@)),
                None => None,
            },
            tool_choice: match self.tool_choice {
                Some(choice) => Some(choice@),
                None => None,
            },
            stop: match self.stop {
                Some(stop) => Some(text::texts(stop@)),
                None => None,
            },
            prompt_cache_key: text::opt_text(self.prompt_cache_key),
        }
    }
}

} // verus!
