//! Emulating tool calls with a language model: which tools are emulated,
//! the messages that ask the model for a plausible tool result, and how its
//! reply becomes the result.

use vstd::prelude::*;
use crate::json::{json_text, parse_json, parsed_json, pretty_json_text, quoted, to_pretty_text, JsonValue};
use crate::messages::{Message, MessageType};
use crate::text::{opt_text, push_string, str_eq, texts};

verus! {

/// The system prompt of an emulator made by `all` or `for_tools`.
pub open spec fn emulator_prompt() -> Seq<char> {
    "You are emulating a tool call. Given the tool name and input, generate a realistic response that the tool would produce. Respond only with the tool's output, no explanation."@
}

/// The system prompt used when an emulator has none.
pub open spec fn fallback_prompt() -> Seq<char> {
    "You are emulating a tool call. Given the tool name, description, and input, generate a realistic response that the tool would produce. Respond only with the tool's output as valid JSON, no explanation."@
}

/// Emulates tool calls with a language model instead of running the tools.
#[derive(Debug)]
pub struct LLMToolEmulator {
    /// Whether every tool is emulated.
    pub emulate_all: bool,
    /// The tools emulated when not all are.
    pub tools_to_emulate: Vec<String>,
    /// The system prompt given to the model.
    pub system_prompt: Option<String>,
}

/// The text of the request for tool `name` described as `description`, its
/// input written as `input`.
pub open spec fn request_text(name: Seq<char>, description: Seq<char>, input: Seq<char>) -> Seq<char> {
    "Tool Name: "@ + name + "\nTool Description: "@ + description + "\nInput:\n"@ + input
        + "\n\nGenerate a realistic JSON output for this tool call:"@
}

/// Whether `v` is the object `{"_emulated": true, ...}` whose other
/// members, in key order, have the keys and JSON texts of `rest`.
pub open spec fn emulated_object(v: JsonValue, rest: Seq<(Seq<char>, Seq<char>)>) -> bool {
    match v {
        JsonValue::Object(m) => {
            &&& m@.len() == rest.len() + 1
            &&& m@[0].0@ == "_emulated"@ && m@[0].1 == JsonValue::Bool(true)
            &&& forall|i: int| 0 <= i < rest.len() ==> (#[trigger] m@[i + 1]).0@ == rest[i].0
                && json_text(m@[i + 1].1) == rest[i].1
        },
        _ => false,
    }
}

/// The placeholder result when the model could not be asked.
pub open spec fn placeholder_text(name: Seq<char>) -> Seq<char> {
    "[Emulated result for tool '"@ + name + "']"@
}

impl LLMToolEmulator {
    /// An emulator for every tool.
    pub fn all() -> (r: Self)
        ensures
            r.emulate_all,
            r.tools_to_emulate@.len() == 0,
            opt_text(r.system_prompt) == Some(emulator_prompt()),
    {
        LLMToolEmulator {
            emulate_all: true,
            tools_to_emulate: Vec::new(),
            system_prompt: Some(
                String::from_str(
                    "You are emulating a tool call. Given the tool name and input, generate a realistic response that the tool would produce. Respond only with the tool's output, no explanation.",
                ),
            ),
        }
    }

    /// An emulator for the named tools only.
    pub fn for_tools(tools: Vec<String>) -> (r: Self)
        ensures
            !r.emulate_all,
            r.tools_to_emulate == tools,
            opt_text(r.system_prompt) == Some(emulator_prompt()),
    {
        LLMToolEmulator {
            emulate_all: false,
            tools_to_emulate: tools,
            system_prompt: Some(
                String::from_str(
                    "You are emulating a tool call. Given the tool name and input, generate a realistic response that the tool would produce. Respond only with the tool's output, no explanation.",
                ),
            ),
        }
    }

    /// Sets the system prompt.
    pub fn with_system_prompt(self, prompt: &str) -> (r: Self)
        ensures
            r.emulate_all == self.emulate_all,
            r.tools_to_emulate == self.tools_to_emulate,
            opt_text(r.system_prompt) == Some(prompt@),
    {
        LLMToolEmulator { system_prompt: Some(String::from_str(prompt)), ..self }
    }

    /// Whether calls of tool `tool_name` are emulated.
    pub fn should_emulate(&self, tool_name: &str) -> (r: bool)
        ensures
            r == (self.emulate_all || texts(self.tools_to_emulate@).contains(tool_name@)),
    {
        if self.emulate_all {
            return true;
        }
        let mut i: usize = 0;
        while i < self.tools_to_emulate.len()
            invariant
                i <= self.tools_to_emulate@.len(),
                forall|k: int| 0 <= k < i ==> (#[trigger] self.tools_to_emulate@[k])@ != tool_name@,
            decreases self.tools_to_emulate.len() - i,
        {
            if str_eq(self.tools_to_emulate[i].as_str(), tool_name) {
                assert(texts(self.tools_to_emulate@)[i as int] == tool_name@);
                return true;
            }
            i = i + 1;
        }
        assert(!texts(self.tools_to_emulate@).contains(tool_name@)) by {
            if texts(self.tools_to_emulate@).contains(tool_name@) {
                let k = choose|k: int| 0 <= k < texts(self.tools_to_emulate@).len() && texts(self.tools_to_emulate@)[k] == tool_name@;
                assert(self.tools_to_emulate@[k]@ == tool_name@);
            }
        }
        false
    }

    /// The emulator's name.
    pub fn name(&self) -> (r: &'static str)
        ensures
            r@ == "LLMToolEmulator"@,
    {
        "LLMToolEmulator"
    }

    /// The messages that ask the model to emulate a call of `tool_name` on
    /// `input`: the system prompt (or the fallback one), then the request
    /// with the input as indented JSON.
    pub fn emulation_messages(&self, tool_name: &str, tool_description: &str, input: &JsonValue) -> (r: Vec<Message>)
        ensures
            r@.len() == 2,
            r@[0].message_type == MessageType::System,
            r@[0].content@ == match opt_text(self.system_prompt) {
                Some(p) => p,
                None => fallback_prompt(),
            },
            r@[1].message_type == MessageType::Human,
            r@[1].content@ == request_text(tool_name@, tool_description@, pretty_json_text(*input)),
    {
        let system = match &self.system_prompt {
            Some(p) => Message::system(p.as_str()),
            None => Message::system(
                "You are emulating a tool call. Given the tool name, description, and input, generate a realistic response that the tool would produce. Respond only with the tool's output as valid JSON, no explanation.",
            ),
        };
        let mut text = String::from_str("Tool Name: ");
        text.append(tool_name);
        text.append("\nTool Description: ");
        text.append(tool_description);
        text.append("\nInput:\n");
        let pretty = to_pretty_text(input);
        push_string(&mut text, &pretty);
        text.append("\n\nGenerate a realistic JSON output for this tool call:");
        vec![system, Message::human(text.as_str())]
    }

    /// The result for a model reply `reply` whose parse as JSON gave
    /// `parsed`: the value read, or the reply wrapped as
    /// `{"_emulated": true, "result": reply, "tool": tool_name}`.
    pub fn result_from_parsed(tool_name: &str, reply: &str, parsed: Result<JsonValue, String>) -> (r: JsonValue)
        ensures
            match parsed {
                Ok(v) => r == v,
                Err(_) => emulated_object(
                    r,
                    seq![("result"@, quoted(reply@)), ("tool"@, quoted(tool_name@))],
                ),
            },
    {
        match parsed {
            Ok(v) => v,
            Err(_) => JsonValue::Object(
                vec![
                    (String::from_str("_emulated"), JsonValue::Bool(true)),
                    (String::from_str("result"), JsonValue::Str(String::from_str(reply))),
                    (String::from_str("tool"), JsonValue::Str(String::from_str(tool_name))),
                ],
            ),
        }
    }

    /// The result of an emulated call of `tool_name` on `input`, given the
    /// model's reply (`None` when the model could not be asked): the reply
    /// read as JSON, or wrapped when it is not JSON; without a reply, a
    /// placeholder object that also holds the input.
    pub fn emulated_result(tool_name: &str, input: &JsonValue, reply: Option<&str>) -> (r: JsonValue)
        ensures
            match reply {
                Some(text) => match parsed_json(text@) {
                    Ok(v) => r == v,
                    Err(_) => emulated_object(r, seq![("result"@, quoted(text@)), ("tool"@, quoted(tool_name@))]),
                },
                None => emulated_object(
                    r,
                    seq![
                        ("input"@, json_text(*input)),
                        ("result"@, quoted(placeholder_text(tool_name@))),
                        ("tool"@, quoted(tool_name@)),
                    ],
                ),
            },
    {
        match reply {
            Some(text) => Self::result_from_parsed(tool_name, text, parse_json(text)),
            None => {
                let mut placeholder = String::from_str("[Emulated result for tool '");
                placeholder.append(tool_name);
                placeholder.append("']");
                JsonValue::Object(
                    vec![
                        (String::from_str("_emulated"), JsonValue::Bool(true)),
                        (String::from_str("input"), input.copy()),
                        (String::from_str("result"), JsonValue::Str(placeholder)),
                        (String::from_str("tool"), JsonValue::Str(String::from_str(tool_name))),
                    ],
                )
            },
        }
    }
}

} // verus!
