//! The OpenAI Responses wire: requests.

use crate::conversation::NamedTool;
use crate::json::{self, Json, JsonView};
use crate::openai::types::ToolView;
use crate::text;
use vstd::prelude::*;

verus! {

/// A tool of a request.
#[derive(Debug)]
pub struct ResponsesTool {
    pub tool_type: String,
    pub name: String,
    pub description: Option<String>,
    pub parameters: Json,
}

/// The reasoning settings of a request.
#[derive(Debug)]
pub struct ReasoningConfig {
    pub effort: String,
    pub summary: Option<String>,
}

/// A request for a response.
#[derive(Debug)]
pub struct ResponsesRequest {
    pub model: String,
    pub request_id: String,
    pub instructions: Option<String>,
    pub input: Vec<Json>,
    pub tools: Option<Vec<ResponsesTool>>,
    pub tool_choice: Option<Json>,
    pub parallel_tool_calls: Option<bool>,
    pub reasoning: Option<ReasoningConfig>,
    pub max_output_tokens: u32,
    pub stream: bool,
    pub static_prefix_hash: String,
    pub history_prefix_hash: String,
    pub wire_input_hash: String,
    pub input_item_types: Vec<String>,
    pub synthetic_tail_present: bool,
}

/// What reasoning settings say.
pub struct ReasoningView {
    pub effort: Seq<char>,
    pub summary: Option<Seq<char>>,
}

/// What a request says, but for its identifier and its hashes.
#[verifier::ext_equal]
pub struct ResponsesView {
    pub model: Seq<char>,
    pub instructions: Option<Seq<char>>,
    pub input: Seq<JsonView>,
    pub tools: Option<Seq<ToolView>>,
    pub tool_choice: Option<JsonView>,
    pub parallel_tool_calls: Option<bool>,
    pub reasoning: Option<ReasoningView>,
    pub max_output_tokens: u32,
    pub stream: bool,
    pub input_item_types: Seq<Seq<char>>,
    pub synthetic_tail_present: bool,
}

impl View for ResponsesTool {
    type V = ToolView;

    open spec fn view(&self) -> ToolView {
        ToolView {
            tool_type: self.tool_type@,
            name: self.name@,
            description: text::opt_text(self.description),
            parameters: self.parameters@,
        }
    }
}

impl NamedTool for ResponsesTool {
    open spec fn tool(&self) -> ToolView {
        self@
    }

    fn tool_name(&self) -> (r: &str) {
        self.name.as_str()
    }
}

impl View for ReasoningConfig {
    type V = ReasoningView;

    open spec fn view(&self) -> ReasoningView {
        ReasoningView { effort: self.effort@, summary: text::opt_text(self.summary) }
    }
}

/// What a list of tools says.
pub open spec fn tools_view(tools: Seq<ResponsesTool>) -> Seq<ToolView> {
    Seq::new(tools.len(), |i: int| tools[i]@)
}

impl View for ResponsesRequest {
    type V = ResponsesView;

    open spec fn view(&self) -> ResponsesView {
        ResponsesView {
            model: self.model@,
            instructions: text::opt_text(self.instructions),
            input: json::items_view(self.input@),
            tools: match self.tools {
                Some(tools) => Some(tools_view(tools@)),
                None => None,
            },
            tool_choice: match self.tool_choice {
                Some(choice) => Some(choice@),
                None => None,
            },
            parallel_tool_calls: self.parallel_tool_calls,
            reasoning: match self.reasoning {
                Some(reasoning) => Some(reasoning@),
                None => None,
            },
            max_output_tokens: self.max_output_tokens,
            stream: self.stream,
            input_item_types: text::texts(self.input_item_types@),
            synthetic_tail_present: self.synthetic_tail_present,
        }
    }
}

} // verus!
