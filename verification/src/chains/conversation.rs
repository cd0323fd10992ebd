//! Conversation chains: the prompt template is filled with the history
//! kept by the caller's memory, the new input and extra context, and sent
//! after an optional system message.

use vstd::prelude::*;
use vstd::string::*;
use crate::chains::template::{fill_template, template_filled};
use crate::error::RustChainError;
use crate::json::{compact_json_text, str_member, JsonValue};
use crate::messages::{Message, MessageType};

verus! {

/// The default prompt, with `{history}` and `{input}` placeholders.
pub open spec fn default_conversation_prompt() -> Seq<char> {
    "The following is a friendly conversation between a human and an AI. The AI is talkative and provides lots of specific details from its context. If the AI does not know the answer to a question, it truthfully says it does not know.\n\nCurrent conversation:\n{history}\nHuman: {input}\nAI:"@
}

/// The settings of a conversation chain: the system message, the prompt
/// and the keys of the input and output. The model and the memory are held
/// by the caller.
pub struct ConversationChain {
    /// A system message sent before the prompt.
    pub system_prompt: Option<String>,
    /// The prompt, with `{history}` and `{input}` placeholders.
    pub prompt_template: String,
    /// The key of the output in the result object.
    pub output_key: String,
    /// The key of the input in an input object.
    pub input_key: String,
    /// Whether the formatted prompt is logged.
    pub verbose: bool,
}

/// Builds a [`ConversationChain`].
pub struct ConversationChainBuilder {
    /// A system message sent before the prompt.
    pub system_prompt: Option<String>,
    /// A prompt in place of the default one.
    pub prompt_template: Option<String>,
    /// The key of the output.
    pub output_key: String,
    /// The key of the input.
    pub input_key: String,
    /// Whether the formatted prompt is logged.
    pub verbose: bool,
}

impl ConversationChainBuilder {
    /// A builder with the default prompt, keys `input` and `response`, no
    /// system message and no logging.
    pub fn new() -> (r: Self)
        ensures
            r.system_prompt is None,
            r.prompt_template is None,
            r.output_key@ == "response"@,
            r.input_key@ == "input"@,
            !r.verbose,
    {
        ConversationChainBuilder {
            system_prompt: None,
            prompt_template: None,
            output_key: String::from_str("response"),
            input_key: String::from_str("input"),
            verbose: false,
        }
    }

    /// Sets the system message.
    pub fn system_prompt(self, prompt: &str) -> (r: Self)
        ensures
            r.system_prompt matches Some(p) && p@ == prompt@,
            r.prompt_template == self.prompt_template,
            r.output_key == self.output_key,
            r.input_key == self.input_key,
            r.verbose == self.verbose,
    {
        ConversationChainBuilder { system_prompt: Some(String::from_str(prompt)), ..self }
    }

    /// Sets the prompt; it should hold `{history}` and `{input}`.
    pub fn prompt_template(self, template: &str) -> (r: Self)
        ensures
            r.prompt_template matches Some(t) && t@ == template@,
            r.system_prompt == self.system_prompt,
            r.output_key == self.output_key,
            r.input_key == self.input_key,
            r.verbose == self.verbose,
    {
        ConversationChainBuilder { prompt_template: Some(String::from_str(template)), ..self }
    }

    /// Sets the key of the output.
    pub fn output_key(self, key: &str) -> (r: Self)
        ensures
            r.output_key@ == key@,
            r.system_prompt == self.system_prompt,
            r.prompt_template == self.prompt_template,
            r.input_key == self.input_key,
            r.verbose == self.verbose,
    {
        ConversationChainBuilder { output_key: String::from_str(key), ..self }
    }

    /// Sets the key of the input.
    pub fn input_key(self, key: &str) -> (r: Self)
        ensures
            r.input_key@ == key@,
            r.system_prompt == self.system_prompt,
            r.prompt_template == self.prompt_template,
            r.output_key == self.output_key,
            r.verbose == self.verbose,
    {
        ConversationChainBuilder { input_key: String::from_str(key), ..self }
    }

    /// Turns logging of the formatted prompt on or off.
    pub fn verbose(self, verbose: bool) -> (r: Self)
        ensures
            r.verbose == verbose,
            r.system_prompt == self.system_prompt,
            r.prompt_template == self.prompt_template,
            r.output_key == self.output_key,
            r.input_key == self.input_key,
    {
        ConversationChainBuilder { verbose, ..self }
    }

    /// The chain, with the default prompt when none was set.
    pub fn build(self) -> (r: ConversationChain)
        ensures
            r.system_prompt == self.system_prompt,
            r.prompt_template@ == match self.prompt_template {
                Some(t) => t@,
                None => default_conversation_prompt(),
            },
            r.output_key == self.output_key,
            r.input_key == self.input_key,
            r.verbose == self.verbose,
    {
        let prompt_template = match self.prompt_template {
            Some(t) => t,
            None => String::from_str(
                "The following is a friendly conversation between a human and an AI. The AI is talkative and provides lots of specific details from its context. If the AI does not know the answer to a question, it truthfully says it does not know.\n\nCurrent conversation:\n{history}\nHuman: {input}\nAI:",
            ),
        };
        ConversationChain {
            system_prompt: self.system_prompt,
            prompt_template,
            output_key: self.output_key,
            input_key: self.input_key,
            verbose: self.verbose,
        }
    }
}

/// Whether `v` is the object of template variables: the extra context
/// first, in order, then `history` and `input`. A name is looked up from
/// the front, so the extra context overrides the two others.
pub open spec fn vars_object(v: JsonValue, history: Seq<char>, input: Seq<char>, extra: Seq<(String, String)>) -> bool {
    match v {
        JsonValue::Object(ms) => {
            &&& ms@.len() == extra.len() + 2
            &&& forall|i: int|
                0 <= i < extra.len() ==> (#[trigger] ms@[i]).0@ == extra[i].0@ && ms@[i].1 is Str
                    && ms@[i].1->Str_0@ == extra[i].1@
            &&& ms@[extra.len() as int].0@ == "history"@
            &&& ms@[extra.len() as int].1 is Str
            &&& ms@[extra.len() as int].1->Str_0@ == history
            &&& ms@[extra.len() as int + 1].0@ == "input"@
            &&& ms@[extra.len() as int + 1].1 is Str
            &&& ms@[extra.len() as int + 1].1->Str_0@ == input
        },
        _ => false,
    }
}

impl ConversationChain {
    /// A builder with the default settings.
    pub fn builder() -> (r: ConversationChainBuilder)
        ensures
            r.system_prompt is None,
            r.prompt_template is None,
            r.output_key@ == "response"@,
            r.input_key@ == "input"@,
            !r.verbose,
    {
        ConversationChainBuilder::new()
    }

    /// The name the chain runs under.
    pub fn name(&self) -> (r: &'static str)
        ensures
            r@ == "ConversationChain"@,
    {
        "ConversationChain"
    }

    /// The template variables: the extra context, `history` and `input`.
    pub fn template_vars(history: &str, input: &str, extra: &Vec<(String, String)>) -> (r: JsonValue)
        ensures
            vars_object(r, history@, input@, extra@),
    {
        let mut ms: Vec<(String, JsonValue)> = Vec::new();
        let mut i: usize = 0;
        while i < extra.len()
            invariant
                i <= extra@.len(),
                ms@.len() == i,
                forall|k: int|
                    0 <= k < i ==> (#[trigger] ms@[k]).0@ == extra@[k].0@ && ms@[k].1 is Str
                        && ms@[k].1->Str_0@ == extra@[k].1@,
            decreases extra.len() - i,
        {
            ms.push((extra[i].0.clone(), JsonValue::Str(extra[i].1.clone())));
            i = i + 1;
        }
        ms.push((String::from_str("history"), JsonValue::Str(String::from_str(history))));
        ms.push((String::from_str("input"), JsonValue::Str(String::from_str(input))));
        JsonValue::Object(ms)
    }

    /// Fills the `{name}` placeholders of `template` from the variables;
    /// names without value are reported as missing template variables.
    pub fn format_template(&self, template: &str, vars: &JsonValue) -> (r: Result<String, RustChainError>)
        ensures
            template_filled(template@, "template"@, Seq::empty(), Seq::empty(), *vars, r),
    {
        let none = "";
        proof {
            reveal_strlit("");
            assert(none@ =~= Seq::<char>::empty());
        }
        fill_template(template, "template", none, none, vars)
    }

    /// The messages sent once the template variables are `vars`: the system
    /// message, when there is one, then the filled prompt.
    pub fn build_messages(&self, vars: &JsonValue) -> (r: Result<Vec<Message>, RustChainError>)
        ensures
            match r {
                Err(e) => template_filled(
                    self.prompt_template@,
                    "template"@,
                    Seq::empty(),
                    Seq::empty(),
                    *vars,
                    Err(e),
                ),
                Ok(ms) => {
                    let n: int = if self.system_prompt is Some { 1 } else { 0 };
                    &&& ms@.len() == n + 1
                    &&& self.system_prompt matches Some(p) ==> ms@[0].message_type == MessageType::System
                        && ms@[0].content@ == p@
                    &&& ms@[n].message_type == MessageType::Human
                    &&& exists|s: String|
                        s@ == ms@[n].content@ && #[trigger] template_filled(
                            self.prompt_template@,
                            "template"@,
                            Seq::empty(),
                            Seq::empty(),
                            *vars,
                            Ok(s),
                        )
                },
            },
    {
        let formatted = match self.format_template(self.prompt_template.as_str(), vars) {
            Ok(f) => f,
            Err(e) => {
                return Err(e);
            },
        };
        let mut messages: Vec<Message> = Vec::new();
        match &self.system_prompt {
            Some(p) => messages.push(Message::system(p.as_str())),
            None => {},
        }
        messages.push(Message::human(formatted.as_str()));
        Ok(messages)
    }

    /// The text of an input: the input itself when it is a string, else its
    /// string member under the input key.
    pub fn input_text(&self, input: &JsonValue) -> (r: Result<String, RustChainError>)
        ensures
            match *input {
                JsonValue::Str(s) => r matches Ok(t) && t@ == s@,
                JsonValue::Object(_) => match str_member(*input, self.input_key@) {
                    Some(t) => r matches Ok(x) && x@ == t,
                    None => r matches Err(RustChainError::InvalidKey(m)) && m@ == "Input object missing '"@
                        + self.input_key@ + "' key"@,
                },
                _ => r matches Err(RustChainError::TypeMismatch { expected, got }) && expected@
                    == "String or Object with input key"@ && got@ == compact_json_text(*input),
            },
    {
        match input {
            JsonValue::Str(s) => Ok(s.clone()),
            JsonValue::Object(_) => match input.get_str(self.input_key.as_str()) {
                Some(t) => Ok(String::from_str(t)),
                None => {
                    let mut m = String::from_str("Input object missing '");
                    m.append(self.input_key.as_str());
                    m.append("' key");
                    Err(RustChainError::InvalidKey(m))
                },
            },
            _ => Err(
                RustChainError::TypeMismatch {
                    expected: String::from_str("String or Object with input key"),
                    got: input.to_json_text(),
                },
            ),
        }
    }

    /// The result object: the response under the output key.
    pub fn output(&self, response: String) -> (r: JsonValue)
        ensures
            r matches JsonValue::Object(ms) && ms@.len() == 1 && ms@[0].0@ == self.output_key@
                && ms@[0].1 == JsonValue::Str(response),
    {
        let mut ms: Vec<(String, JsonValue)> = Vec::new();
        ms.push((self.output_key.clone(), JsonValue::Str(response)));
        JsonValue::Object(ms)
    }
}

} // verus!
