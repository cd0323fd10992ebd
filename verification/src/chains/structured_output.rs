//! Structured output chains: the prompt is filled from the input, the
//! parser's format instructions are appended, and the parsed reply is
//! returned, under an output key when one is set.

use vstd::prelude::*;
use vstd::string::*;
use crate::chains::template::{fill_template, template_filled};
use crate::error::RustChainError;
use crate::json::JsonValue;

verus! {

/// The settings of a structured output chain: the JSON schema of the
/// output, the prompt and the output key. The model and the parser that
/// reads the reply against the schema are held by the caller.
pub struct StructuredOutputChain {
    /// The schema the output follows.
    pub schema: JsonValue,
    /// The prompt, with `{name}` placeholders taken from the input.
    pub prompt_template: String,
    /// The key the parsed output is put under, if any.
    pub output_key: Option<String>,
}

/// Builds a [`StructuredOutputChain`].
pub struct StructuredOutputChainBuilder {
    /// The schema, once given.
    pub schema: Option<JsonValue>,
    /// The prompt, once given.
    pub prompt_template: Option<String>,
    /// The output key, if any.
    pub output_key: Option<String>,
}

impl StructuredOutputChainBuilder {
    /// An empty builder.
    pub fn new() -> (r: Self)
        ensures
            r.schema is None,
            r.prompt_template is None,
            r.output_key is None,
    {
        StructuredOutputChainBuilder { schema: None, prompt_template: None, output_key: None }
    }

    /// Sets the schema.
    pub fn schema(self, schema: JsonValue) -> (r: Self)
        ensures
            r.schema == Some(schema),
            r.prompt_template == self.prompt_template,
            r.output_key == self.output_key,
    {
        StructuredOutputChainBuilder { schema: Some(schema), ..self }
    }

    /// Sets the prompt.
    pub fn prompt(self, prompt: &str) -> (r: Self)
        ensures
            r.prompt_template matches Some(p) && p@ == prompt@,
            r.schema == self.schema,
            r.output_key == self.output_key,
    {
        StructuredOutputChainBuilder { prompt_template: Some(String::from_str(prompt)), ..self }
    }

    /// Sets the output key.
    pub fn output_key(self, key: &str) -> (r: Self)
        ensures
            r.output_key matches Some(k) && k@ == key@,
            r.schema == self.schema,
            r.prompt_template == self.prompt_template,
    {
        StructuredOutputChainBuilder { output_key: Some(String::from_str(key)), ..self }
    }

    /// The chain; the schema and the prompt must have been given.
    pub fn build(self) -> (r: StructuredOutputChain)
        requires
            self.schema is Some,
            self.prompt_template is Some,
        ensures
            Some(r.schema) == self.schema,
            Some(r.prompt_template) == self.prompt_template,
            r.output_key == self.output_key,
    {
        StructuredOutputChain {
            schema: self.schema.unwrap(),
            prompt_template: self.prompt_template.unwrap(),
            output_key: self.output_key,
        }
    }
}

/// What the prompt for `input` is: the template filled from the input,
/// followed by a blank line and the format instructions when there are
/// some.
pub open spec fn structured_prompt(
    template: Seq<char>,
    input: JsonValue,
    instructions: Option<Seq<char>>,
    r: Result<String, RustChainError>,
) -> bool {
    match r {
        Err(e) => template_filled(template, "input"@, Seq::empty(), Seq::empty(), input, Err(e)),
        Ok(p) => exists|s: String|
            #[trigger] template_filled(template, "input"@, Seq::empty(), Seq::empty(), input, Ok(s))
                && p@ == match instructions {
                Some(t) => s@ + "\n\n"@ + t,
                None => s@,
            },
    }
}

impl StructuredOutputChain {
    /// A builder with nothing set.
    pub fn builder() -> (r: StructuredOutputChainBuilder)
        ensures
            r.schema is None,
            r.prompt_template is None,
            r.output_key is None,
    {
        StructuredOutputChainBuilder::new()
    }

    /// The schema the output follows.
    pub fn schema(&self) -> (r: &JsonValue)
        ensures
            *r == self.schema,
    {
        &self.schema
    }

    /// The name the chain runs under.
    pub fn name(&self) -> (r: &'static str)
        ensures
            r@ == "StructuredOutputChain"@,
    {
        "StructuredOutputChain"
    }

    /// The prompt for `input`, with the parser's format instructions (when
    /// it gives some) after a blank line.
    pub fn format_prompt(&self, input: &JsonValue, instructions: Option<&str>) -> (r: Result<String, RustChainError>)
        ensures
            structured_prompt(
                self.prompt_template@,
                *input,
                match instructions {
                    Some(t) => Some(t@),
                    None => None,
                },
                r,
            ),
    {
        let none = "";
        proof {
            reveal_strlit("");
            assert(none@ =~= Seq::<char>::empty());
        }
        let filled = fill_template(self.prompt_template.as_str(), "input", none, none, input);
        match filled {
            Err(e) => Err(e),
            Ok(s) => {
                let mut p = s;
                match instructions {
                    Some(t) => {
                        p.append("\n\n");
                        p.append(t);
                    },
                    None => {},
                }
                Ok(p)
            },
        }
    }

    /// The result for a parsed reply: under the output key when one is set,
    /// else the parsed value itself.
    pub fn wrap_output(&self, parsed: JsonValue) -> (r: JsonValue)
        ensures
            match self.output_key {
                Some(k) => r matches JsonValue::Object(ms) && ms@.len() == 1 && ms@[0].0@ == k@
                    && ms@[0].1 == parsed,
                None => r == parsed,
            },
    {
        match &self.output_key {
            Some(k) => {
                let mut ms: Vec<(String, JsonValue)> = Vec::new();
                ms.push((k.clone(), parsed));
                JsonValue::Object(ms)
            },
            None => parsed,
        }
    }
}

} // verus!
