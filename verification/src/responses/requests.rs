//! What a Responses request keeps of the request that it is made of.

use crate::anthropic::converter;
use crate::anthropic::requests;
use crate::anthropic::types::{MessagesRequest, SystemPrompt, ToolChoice};
use crate::config::Config;
use crate::json::JsonView;
use crate::openai::types::ToolView;
use crate::reasoning::apply_effort;
use crate::responses::readback;
use crate::responses::request::{self, Relocated};
use crate::responses::types::{ReasoningView, ResponsesView};
use crate::text;
use vstd::prelude::*;

verus! {

/// What a system prompt says: its text, or its blocks line by line.
pub open spec fn system_words(system: SystemPrompt) -> Seq<char> {
    match system {
        SystemPrompt::Text(words) => words@,
        SystemPrompt::Blocks(blocks) => readback::stitched(
            Seq::new(blocks@.len(), |i: int| blocks@[i].text@),
        ),
    }
}

/// Whether a value stands for a tool choice: a word, or the function of a name.
pub open spec fn chosen(choice: ToolChoice, value: JsonView) -> bool {
    match choice {
        ToolChoice::Auto { .. } => value == JsonView::String("auto"@),
        ToolChoice::Any { .. } => value == JsonView::String("required"@),
        ToolChoice::Tool { name, .. } => {
            &&& value.get("type"@) == Some(JsonView::String("function"@))
            &&& value.get("name"@) == Some(JsonView::String(name@))
            &&& forall|k: Seq<char>| #[trigger]
                value.get(k) is Some ==> k == "type"@ || k == "name"@
        },
    }
}

/// Whether reasoning settings are those of a model: the effort that the client declares,
/// or the highest level, in the words of the provider; and summaries as the provider has
/// them, in any case of letters, or automatic ones.
pub open spec fn asked_to_reason(
    req: MessagesRequest,
    config: Config,
    model: Seq<char>,
    reasoning: ReasoningView,
) -> bool {
    match config.model_provider(model) {
        Some(provider) => {
            let word = match provider.responses_reasoning_summary {
                Some(setting) => text::ascii_lowered(setting@),
                None => "auto"@,
            };
            &&& word == "off"@ <==> reasoning.summary is None
            &&& word == "detailed"@ <==> reasoning.summary == Some("detailed"@)
            &&& reasoning.summary is Some && word != "detailed"@ ==> reasoning.summary == Some(
                "auto"@,
            )
            &&& {
                ||| exists|effort: Seq<char>| #[trigger]
                    requests::declares(req, effort) && reasoning.effort == apply_effort::resolved(
                        effort,
                        provider.effort_map@,
                    )
                ||| reasoning.effort == apply_effort::resolved("max"@, provider.effort_map@)
                    && forall|effort: Seq<char>| !#[trigger] requests::declares(req, effort)
            }
        },
        None => reasoning.effort == "max"@ && reasoning.summary == Some("auto"@),
    }
}

/// A converted request keeps what the request says: its model, its limit, whether it
/// streams, its tools and its tool choice; its system prompt as instructions, where it
/// is not empty; and it reasons where its thinking is on and the model does.
pub proof fn law_requests_are_kept(
    req: MessagesRequest,
    config: Config,
    relocate: bool,
    moved: Relocated,
)
    ensures
        ({
            let out = request::converted_request(req, config, relocate, moved);
            let model = converter::upstream_name(req.model@, config);
            let system = if relocate && req.messages@.len() > 0 {
                Some(moved.system)
            } else {
                req.system
            };
            let words = match system {
                Some(system) => system_words(system),
                None => Seq::empty(),
            };
            &&& out.model == model
            &&& out.max_output_tokens == req.max_tokens
            &&& out.stream <==> req.stream == Some(true)
            &&& out.parallel_tool_calls is None
            &&& requests::offered(req.tools, out.tools)
            &&& out.tool_choice is Some <==> req.tool_choice is Some
            &&& out.tool_choice is Some ==> chosen(req.tool_choice->0, out.tool_choice->0)
            &&& out.instructions == if words.len() > 0 {
                Some(words)
            } else {
                None
            }
            &&& out.reasoning is Some <==> requests::turns_on(req) && (config.profile_of(
                model,
            ) matches Some(profile) && profile.reasoning_enabled)
            &&& out.reasoning is Some ==> asked_to_reason(req, config, model, out.reasoning->0)
        }),
{
    let out = request::converted_request(req, config, relocate, moved);
    let model = converter::upstream_name(req.model@, config);
    let (system, _) = request::system_and_tail(req, relocate, moved);
    requests::lemma_sorted_tools_are_offered(req.tools, out.tools);
    requests::law_declared_efforts(req);
    match system {
        Some(SystemPrompt::Blocks(blocks)) => {
            let lines = request::system_texts(blocks@);
            readback::lemma_stitched(lines);
            assert(lines =~= Seq::new(blocks@.len(), |i: int| blocks@[i].text@));
        },
        _ => {},
    }
    reveal_strlit("type");
    reveal_strlit("name");
    reveal_strlit("off");
    reveal_strlit("auto");
    reveal_strlit("detailed");
    assert("type"@[0] != "name"@[0]);
    assert("off"@.len() == 3 && "auto"@.len() == 4 && "detailed"@.len() == 8);
    if out.reasoning is Some {
        let reasoning = out.reasoning->0;
        match config.model_provider(model) {
            Some(provider) => {
                match converter::declared_effort(req) {
                    Some(effort) => {
                        assert(requests::declares(req, effort));
                    },
                    None => {},
                }
            },
            None => {},
        }
        assert(asked_to_reason(req, config, model, reasoning));
    }
}

/// Two requests that differ only in whether they stream are converted to two that differ
/// only in that.
pub proof fn law_streaming_changes_streaming_alone(
    req: MessagesRequest,
    stream: Option<bool>,
    config: Config,
    relocate: bool,
    moved: Relocated,
)
    ensures
        ({
            let a = request::converted_request(req, config, relocate, moved);
            let b = request::converted_request(
                MessagesRequest { stream, ..req },
                config,
                relocate,
                moved,
            );
            b == ResponsesView { stream: b.stream, ..a }
        }),
{
    let other = MessagesRequest { stream, ..req };
    let a = request::converted_request(req, config, relocate, moved);
    let b = request::converted_request(other, config, relocate, moved);
    assert(request::reasoning_of(req, config, a.model) == request::reasoning_of(
        other,
        config,
        a.model,
    ));
    assert(b =~= ResponsesView { stream: b.stream, ..a });
}

/// The types that are noted of the items of an input are theirs: each item has a type, or
/// the role of a message stands for it.
pub proof fn law_item_types_are_noted(
    req: MessagesRequest,
    config: Config,
    relocate: bool,
    moved: Relocated,
)
    ensures
        ({
            let out = request::converted_request(req, config, relocate, moved);
            &&& out.input_item_types.len() == out.input.len()
            &&& forall|i: int|
                0 <= i < out.input.len() ==> {
                    let kind = #[trigger] out.input_item_types[i];
                    match out.input[i].get("type"@) {
                        Some(JsonView::String(own)) => kind == own,
                        _ => match out.input[i].get("role"@) {
                            Some(JsonView::String(role)) => kind == "role:"@ + role,
                            _ => kind == "unknown"@,
                        },
                    }
                }
        }),
{
}

/// The prefix that stays the same from turn to turn tells model, instructions, tools,
/// tool choice and effort, and tells of what is missing that it is.
pub proof fn law_prefixes_tell_what_stays(out: ResponsesView)
    ensures
        ({
            let prefix = request::static_prefix_of(out);
            &&& prefix.get("model"@) == Some(JsonView::String(out.model))
            &&& prefix.get("instructions"@) == Some(
                match out.instructions {
                    Some(words) => JsonView::String(words),
                    None => JsonView::Null,
                },
            )
            &&& prefix.get("tool_choice"@) == Some(
                match out.tool_choice {
                    Some(choice) => choice,
                    None => JsonView::Null,
                },
            )
            &&& match out.tools {
                Some(tools) => {
                    &&& prefix.get("tools"@) matches Some(JsonView::Array(items))
                    &&& items.len() == tools.len()
                    &&& forall|i: int|
                        0 <= i < tools.len() ==> tells_tool(#[trigger] items[i], tools[i])
                },
                None => prefix.get("tools"@) == Some(JsonView::Null),
            }
            &&& match out.reasoning {
                Some(reasoning) => {
                    &&& prefix.get("reasoning"@) matches Some(settings)
                    &&& settings.get("effort"@) == Some(JsonView::String(reasoning.effort))
                },
                None => prefix.get("reasoning"@) == Some(JsonView::Null),
            }
        }),
{
    reveal_strlit("model");
    reveal_strlit("instructions");
    reveal_strlit("tools");
    reveal_strlit("tool_choice");
    reveal_strlit("reasoning");
    reveal_strlit("type");
    reveal_strlit("name");
    reveal_strlit("parameters");
    reveal_strlit("description");
    assert("model"@.len() == 5 && "tools"@.len() == 5 && "instructions"@.len() == 12);
    assert("tool_choice"@.len() == 11 && "reasoning"@.len() == 9 && "description"@.len() == 11);
    assert("type"@.len() == 4 && "name"@.len() == 4 && "parameters"@.len() == 10);
    assert("model"@[0] != "tools"@[0]);
    assert("type"@[0] != "name"@[0]);
    match out.tools {
        Some(tools) => {
            let items = request::tools_json(tools);
            assert(request::static_prefix_of(out).get("tools"@) == Some(JsonView::Array(items)));
            assert forall|i: int| 0 <= i < tools.len() implies tells_tool(
                #[trigger] items[i],
                tools[i],
            ) by {
                assert(items[i] == request::tool_json(tools[i]));
            }
        },
        None => {},
    }
}

/// Whether a value tells a tool.
pub open spec fn tells_tool(value: JsonView, tool: ToolView) -> bool {
    &&& value.get("type"@) == Some(JsonView::String(tool.tool_type))
    &&& value.get("name"@) == Some(JsonView::String(tool.name))
    &&& value.get("parameters"@) == Some(tool.parameters)
    &&& value.get("description"@) == match tool.description {
        Some(words) => Some(JsonView::String(words)),
        None => None,
    }
}

} // verus!
