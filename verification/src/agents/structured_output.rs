//! Structured output for agent responses: the schema a model is given, the
//! strategies that make it answer in that shape (tool calling, the
//! provider's native response format, or either), how parse errors are
//! handled, and reading the structured answer back out of a model message.

use vstd::prelude::*;
use crate::json::{json_text, member, parse_json, parsed_json, quoted, str_member, JsonValue};
use crate::text::{opt_text, push_string};

verus! {

/// The kind of schema being used for structured output.
#[derive(Debug, Clone, Copy, PartialEq, Eq, Structural)]
pub enum SchemaKind {
    /// A Pydantic-style schema (JSON Schema generated from a model definition).
    Pydantic,
    /// A raw JSON Schema.
    JsonSchema,
    /// A dataclass-style schema.
    Dataclass,
    /// A TypedDict-style schema.
    TypedDict,
}

/// The name a schema kind is written with.
pub open spec fn schema_kind_name(k: SchemaKind) -> Seq<char> {
    match k {
        SchemaKind::Pydantic => "pydantic"@,
        SchemaKind::JsonSchema => "json_schema"@,
        SchemaKind::Dataclass => "dataclass"@,
        SchemaKind::TypedDict => "typed_dict"@,
    }
}

impl SchemaKind {
    /// The name this kind is written with.
    pub fn as_str(&self) -> (r: &'static str)
        ensures
            r@ == schema_kind_name(*self),
    {
        match self {
            SchemaKind::Pydantic => "pydantic",
            SchemaKind::JsonSchema => "json_schema",
            SchemaKind::Dataclass => "dataclass",
            SchemaKind::TypedDict => "typed_dict",
        }
    }
}

/// How errors should be handled during structured output parsing.
#[derive(Debug, Clone)]
pub enum ErrorHandling {
    /// Do not handle errors: propagate them immediately.
    Disabled,
    /// Handle all errors by retrying.
    Enabled,
    /// Handle errors and include a custom message in the retry prompt.
    WithMessage(String),
    /// Only handle errors whose type names match the given list.
    WithTypes(Vec<String>),
}

impl Default for ErrorHandling {
    fn default() -> (r: Self)
        ensures
            r is Disabled,
    {
        ErrorHandling::Disabled
    }
}

impl From<bool> for ErrorHandling {
    fn from(value: bool) -> (r: Self) {
        if value {
            ErrorHandling::Enabled
        } else {
            ErrorHandling::Disabled
        }
    }
}

impl vstd::std_specs::convert::FromSpecImpl<bool> for ErrorHandling {
    open spec fn obeys_from_spec() -> bool {
        true
    }

    open spec fn from_spec(v: bool) -> Self {
        if v {
            ErrorHandling::Enabled
        } else {
            ErrorHandling::Disabled
        }
    }
}

// ---------------------------------------------------------------------------
// Schema specifications
// ---------------------------------------------------------------------------

/// One output schema: its kind, name, JSON Schema and description.
#[derive(Debug)]
pub struct SchemaSpec {
    /// The kind of schema.
    pub kind: SchemaKind,
    /// The schema's name, used as tool name or response format name.
    pub name: String,
    /// The JSON Schema object.
    pub json_schema: JsonValue,
    /// Optional human-readable description.
    pub description: Option<String>,
}

impl SchemaSpec {
    /// A schema without description.
    pub fn new(kind: SchemaKind, name: &str, json_schema: JsonValue) -> (r: Self)
        ensures
            r.kind == kind,
            r.name@ == name@,
            r.json_schema == json_schema,
            r.description is None,
    {
        SchemaSpec { kind, name: String::from_str(name), json_schema, description: None }
    }

    /// Sets the description.
    pub fn with_description(self, description: &str) -> (r: Self)
        ensures
            r.kind == self.kind,
            r.name == self.name,
            r.json_schema == self.json_schema,
            r.description matches Some(d) && d@ == description@,
    {
        SchemaSpec { description: Some(String::from_str(description)), ..self }
    }

    /// A copy of this schema, with a JSON Schema of the same text.
    pub fn copy(&self) -> (r: Self)
        ensures
            r.kind == self.kind,
            r.name@ == self.name@,
            json_text(r.json_schema) == json_text(self.json_schema),
            opt_text(r.description) == opt_text(self.description),
    {
        SchemaSpec {
            kind: self.kind,
            name: self.name.clone(),
            json_schema: self.json_schema.copy(),
            description: match &self.description {
                Some(d) => Some(d.clone()),
                None => None,
            },
        }
    }
}

// ---------------------------------------------------------------------------
// Errors
// ---------------------------------------------------------------------------

/// More than one structured output was given where one is allowed.
#[derive(Debug)]
pub struct MultipleStructuredOutputsError {
    pub message: String,
    /// The AI message that triggered the error, if available.
    pub ai_message: Option<JsonValue>,
    /// The tool names found in the response.
    pub tool_names: Vec<String>,
}

impl MultipleStructuredOutputsError {
    /// An error with the given message and nothing else.
    pub fn new(message: &str) -> (r: Self)
        ensures
            r.message@ == message@,
            r.ai_message is None,
            r.tool_names@.len() == 0,
    {
        MultipleStructuredOutputsError {
            message: String::from_str(message),
            ai_message: None,
            tool_names: Vec::new(),
        }
    }

    /// Sets the AI message.
    pub fn with_ai_message(self, ai_message: JsonValue) -> (r: Self)
        ensures
            r.message == self.message,
            r.ai_message == Some(ai_message),
            r.tool_names == self.tool_names,
    {
        MultipleStructuredOutputsError { ai_message: Some(ai_message), ..self }
    }

    /// Sets the tool names.
    pub fn with_tool_names(self, tool_names: Vec<String>) -> (r: Self)
        ensures
            r.message == self.message,
            r.ai_message == self.ai_message,
            r.tool_names == tool_names,
    {
        MultipleStructuredOutputsError { tool_names, ..self }
    }

    /// The error's display text.
    pub fn to_string(&self) -> (r: String)
        ensures
            r@ == "MultipleStructuredOutputsError: "@ + self.message@,
    {
        let mut s = String::from_str("MultipleStructuredOutputsError: ");
        push_string(&mut s, &self.message);
        s
    }
}

/// A structured output failed validation.
#[derive(Debug)]
pub struct StructuredOutputValidationError {
    pub message: String,
    pub raw_output: Option<String>,
    /// The AI message that triggered the error, if available.
    pub ai_message: Option<JsonValue>,
    /// The tool whose output was being validated, if any.
    pub tool_name: Option<String>,
    /// The text of the underlying error, if any.
    pub source_error: Option<String>,
}

/// The display text of a validation error: its message, then the raw output
/// when there is one.
pub open spec fn validation_error_text(e: StructuredOutputValidationError) -> Seq<char> {
    "StructuredOutputValidationError: "@ + e.message@ + match e.raw_output {
        Some(raw) => " (raw output: "@ + raw@ + ")"@,
        None => Seq::empty(),
    }
}

impl StructuredOutputValidationError {
    /// An error with the given message and nothing else.
    pub fn new(message: &str) -> (r: Self)
        ensures
            r.message@ == message@,
            r.raw_output is None,
            r.ai_message is None,
            r.tool_name is None,
            r.source_error is None,
    {
        StructuredOutputValidationError {
            message: String::from_str(message),
            raw_output: None,
            ai_message: None,
            tool_name: None,
            source_error: None,
        }
    }

    /// Sets the raw output.
    pub fn with_raw_output(self, raw: &str) -> (r: Self)
        ensures
            r.raw_output matches Some(x) && x@ == raw@,
            r == (StructuredOutputValidationError { raw_output: r.raw_output, ..self }),
    {
        StructuredOutputValidationError { raw_output: Some(String::from_str(raw)), ..self }
    }

    /// Sets the AI message.
    pub fn with_ai_message(self, ai_message: JsonValue) -> (r: Self)
        ensures
            r == (StructuredOutputValidationError { ai_message: Some(ai_message), ..self }),
    {
        StructuredOutputValidationError { ai_message: Some(ai_message), ..self }
    }

    /// Sets the tool name.
    pub fn with_tool_name(self, tool_name: &str) -> (r: Self)
        ensures
            r.tool_name matches Some(x) && x@ == tool_name@,
            r == (StructuredOutputValidationError { tool_name: r.tool_name, ..self }),
    {
        StructuredOutputValidationError { tool_name: Some(String::from_str(tool_name)), ..self }
    }

    /// Sets the text of the underlying error.
    pub fn with_source_error(self, source_error: &str) -> (r: Self)
        ensures
            r.source_error matches Some(x) && x@ == source_error@,
            r == (StructuredOutputValidationError { source_error: r.source_error, ..self }),
    {
        StructuredOutputValidationError {
            source_error: Some(String::from_str(source_error)),
            ..self
        }
    }

    /// The error's display text.
    pub fn to_string(&self) -> (r: String)
        ensures
            r@ == validation_error_text(*self),
    {
        let mut s = String::from_str("StructuredOutputValidationError: ");
        push_string(&mut s, &self.message);
        if let Some(raw) = &self.raw_output {
            s.append(" (raw output: ");
            push_string(&mut s, raw);
            s.append(")");
        }
        s
    }
}

/// A general structured output error.
#[derive(Debug)]
pub struct StructuredOutputError {
    pub message: String,
    /// The AI message that triggered the error, if available.
    pub ai_message: Option<JsonValue>,
}

impl StructuredOutputError {
    /// An error with the given message.
    pub fn new(message: &str) -> (r: Self)
        ensures
            r.message@ == message@,
            r.ai_message is None,
    {
        StructuredOutputError { message: String::from_str(message), ai_message: None }
    }

    /// Sets the AI message.
    pub fn with_ai_message(self, ai_message: JsonValue) -> (r: Self)
        ensures
            r.message == self.message,
            r.ai_message == Some(ai_message),
    {
        StructuredOutputError { ai_message: Some(ai_message), ..self }
    }

    /// The error's display text.
    pub fn to_string(&self) -> (r: String)
        ensures
            r@ == "StructuredOutputError: "@ + self.message@,
    {
        let mut s = String::from_str("StructuredOutputError: ");
        push_string(&mut s, &self.message);
        s
    }
}

// ---------------------------------------------------------------------------
// Strategies
// ---------------------------------------------------------------------------

/// Structured output through tool calling: the model is given a tool whose
/// schema is the output format, and the call's arguments are the output.
#[derive(Debug)]
pub struct ToolStrategy {
    /// The JSON Schema of the expected output.
    pub schema: JsonValue,
    /// The schemas combined into `schema`, when there are several.
    pub schema_specs: Vec<SchemaSpec>,
    /// Content of the tool message sent back.
    pub tool_message_content: String,
    /// How validation errors are handled.
    pub handle_errors: ErrorHandling,
}

/// Whether `schema` is `{"oneOf": [...]}` over the schemas of `specs`.
pub open spec fn one_of_specs(schema: JsonValue, specs: Seq<SchemaSpec>) -> bool {
    match schema {
        JsonValue::Object(m) => m@.len() == 1 && m@[0].0@ == "oneOf"@ && match m@[0].1 {
            JsonValue::Array(items) => items@.len() == specs.len() && forall|i: int|
                0 <= i < specs.len() ==> json_text(#[trigger] items@[i]) == json_text(
                    specs[i].json_schema,
                ),
            _ => false,
        },
        _ => false,
    }
}

impl ToolStrategy {
    /// A strategy for `schema`, with no tool message and errors not handled.
    pub fn new(schema: JsonValue) -> (r: Self)
        ensures
            r.schema == schema,
            r.schema_specs@.len() == 0,
            r.tool_message_content@.len() == 0,
            r.handle_errors is Disabled,
    {
        ToolStrategy {
            schema,
            schema_specs: Vec::new(),
            tool_message_content: String::new(),
            handle_errors: ErrorHandling::Disabled,
        }
    }

    /// A strategy for several schemas: the one schema itself, or a `oneOf`
    /// of all of them.
    pub fn from_schema_specs(specs: Vec<SchemaSpec>) -> (r: Self)
        ensures
            r.schema_specs == specs,
            specs@.len() == 1 ==> json_text(r.schema) == json_text(specs@[0].json_schema),
            specs@.len() != 1 ==> one_of_specs(r.schema, specs@),
            r.tool_message_content@.len() == 0,
            r.handle_errors is Disabled,
    {
        let combined = if specs.len() == 1 {
            specs[0].json_schema.copy()
        } else {
            let mut items: Vec<JsonValue> = Vec::new();
            let mut i: usize = 0;
            while i < specs.len()
                invariant
                    i <= specs@.len(),
                    items@.len() == i,
                    forall|k: int| 0 <= k < i ==> json_text(#[trigger] items@[k]) == json_text(specs@[k].json_schema),
                decreases specs.len() - i,
            {
                items.push(specs[i].json_schema.copy());
                i = i + 1;
            }
            JsonValue::Object(vec![(String::from_str("oneOf"), JsonValue::Array(items))])
        };
        ToolStrategy {
            schema: combined,
            schema_specs: specs,
            tool_message_content: String::new(),
            handle_errors: ErrorHandling::Disabled,
        }
    }

    /// Sets the tool message content.
    pub fn with_tool_message_content(self, content: &str) -> (r: Self)
        ensures
            r.tool_message_content@ == content@,
            r.schema == self.schema,
            r.schema_specs == self.schema_specs,
            r.handle_errors == self.handle_errors,
    {
        ToolStrategy { tool_message_content: String::from_str(content), ..self }
    }

    /// Sets how errors are handled.
    pub fn with_handle_errors(self, handle: ErrorHandling) -> (r: Self)
        ensures
            r.handle_errors == handle,
            r.schema == self.schema,
            r.schema_specs == self.schema_specs,
            r.tool_message_content == self.tool_message_content,
    {
        ToolStrategy { handle_errors: handle, ..self }
    }
}

/// The tool calls of an AI message, if it has a `tool_calls` array.
pub open spec fn tool_calls_of(ai: JsonValue) -> Option<Seq<JsonValue>> {
    match member(ai, "tool_calls"@) {
        Some(JsonValue::Array(items)) => Some(items@),
        _ => None,
    }
}

/// The name of a tool call, empty when it has none.
pub open spec fn call_name(call: JsonValue) -> Seq<char> {
    match str_member(call, "name"@) {
        Some(n) => n,
        None => Seq::empty(),
    }
}

/// The arguments of the first call of `tool` that has arguments.
pub open spec fn first_args(calls: Seq<JsonValue>, tool: Seq<char>) -> Option<JsonValue>
    decreases calls.len(),
{
    if calls.len() == 0 {
        None
    } else if call_name(calls[0]) == tool && member(calls[0], "args"@) is Some {
        member(calls[0], "args"@)
    } else {
        first_args(calls.drop_first(), tool)
    }
}

/// Whether `e` is the validation error with message `message` about the AI
/// message `ai`, naming `tool` when given.
pub open spec fn parse_error_is(
    e: StructuredOutputValidationError,
    message: Seq<char>,
    ai: JsonValue,
    tool: Option<Seq<char>>,
    source: Option<Seq<char>>,
) -> bool {
    &&& e.message@ == message
    &&& e.raw_output is None
    &&& e.ai_message matches Some(m) && json_text(m) == json_text(ai)
    &&& opt_text(e.tool_name) == tool
    &&& opt_text(e.source_error) == source
}

/// Reads structured output from the tool calls of an AI message.
#[derive(Debug)]
pub struct OutputToolBinding {
    /// The schema the output follows.
    pub schema_spec: SchemaSpec,
    /// The name of the tool whose arguments are the output.
    pub tool_name: String,
    /// Whether raw output is kept beside the parsed result.
    pub include_raw: bool,
}

impl OutputToolBinding {
    /// A binding whose tool is named after the schema.
    pub fn from_schema_spec(schema_spec: SchemaSpec, include_raw: bool) -> (r: Self)
        ensures
            r.tool_name@ == schema_spec.name@,
            r.schema_spec == schema_spec,
            r.include_raw == include_raw,
    {
        let tool_name = schema_spec.name.clone();
        OutputToolBinding { schema_spec, tool_name, include_raw }
    }

    /// The arguments of the first call of the binding's tool that has
    /// arguments; an error when no call qualifies or the message has no
    /// `tool_calls` array.
    pub fn parse(&self, ai_message_value: &JsonValue) -> (r: Result<JsonValue, StructuredOutputValidationError>)
        ensures
            match tool_calls_of(*ai_message_value) {
                Some(calls) => match first_args(calls, self.tool_name@) {
                    Some(args) => r matches Ok(v) && json_text(v) == json_text(args),
                    None => r matches Err(e) && parse_error_is(
                        e,
                        "No tool call found with name '"@ + self.tool_name@ + "'"@,
                        *ai_message_value,
                        Some(self.tool_name@),
                        None,
                    ),
                },
                None => r matches Err(e) && parse_error_is(
                    e,
                    "AI message does not contain tool_calls"@,
                    *ai_message_value,
                    Some(self.tool_name@),
                    None,
                ),
            },
    {
        if let Some(JsonValue::Array(calls)) = ai_message_value.get("tool_calls") {
            let mut i: usize = 0;
            assert(calls@.skip(0) =~= calls@);
            while i < calls.len()
                invariant
                    i <= calls@.len(),
                    tool_calls_of(*ai_message_value) == Some(calls@),
                    first_args(calls@, self.tool_name@) == first_args(calls@.skip(i as int), self.tool_name@),
                decreases calls.len() - i,
            {
                assert(calls@.skip(i as int).drop_first() =~= calls@.skip(i + 1));
                assert(calls@.skip(i as int)[0] == calls@[i as int]);
                let same_name = match calls[i].get_str("name") {
                    Some(n) => crate::text::str_eq(n, self.tool_name.as_str()),
                    None => {
                        proof {
                            if self.tool_name@.len() == 0 {
                                assert(self.tool_name@ =~= Seq::<char>::empty());
                            }
                        }
                        self.tool_name.as_str().unicode_len() == 0
                    },
                };
                assert(same_name == (call_name(calls@[i as int]) == self.tool_name@));
                if same_name {
                    if let Some(args) = calls[i].get("args") {
                        return Ok(args.copy());
                    }
                }
                i = i + 1;
            }
            let mut msg = String::from_str("No tool call found with name '");
            push_string(&mut msg, &self.tool_name);
            msg.append("'");
            Err(
                StructuredOutputValidationError::new(msg.as_str()).with_ai_message(
                    ai_message_value.copy(),
                ).with_tool_name(self.tool_name.as_str()),
            )
        } else {
            Err(
                StructuredOutputValidationError::new(
                    "AI message does not contain tool_calls",
                ).with_ai_message(ai_message_value.copy()).with_tool_name(self.tool_name.as_str()),
            )
        }
    }
}

/// Structured output through the provider's native response format.
#[derive(Debug)]
pub struct ProviderStrategy {
    /// The JSON Schema of the expected output.
    pub schema: JsonValue,
    /// The name given to the schema in the response format.
    pub schema_name: String,
    /// Whether the provider enforces the schema strictly.
    pub strict: bool,
}

/// Whether `v` is the JSON string `s`.
pub open spec fn str_is(v: JsonValue, s: Seq<char>) -> bool {
    match v {
        JsonValue::Str(x) => x@ == s,
        _ => false,
    }
}

/// Whether `v` is `{"name", "schema", "strict"}` for the given schema.
pub open spec fn json_schema_member(v: JsonValue, name: Seq<char>, schema: JsonValue, strict: bool) -> bool {
    match v {
        JsonValue::Object(m) => {
            &&& m@.len() == 3
            &&& m@[0].0@ == "name"@ && str_is(m@[0].1, name)
            &&& m@[1].0@ == "schema"@ && json_text(m@[1].1) == json_text(schema)
            &&& m@[2].0@ == "strict"@ && m@[2].1 == JsonValue::Bool(strict)
        },
        _ => false,
    }
}

/// Whether `v` is the response format `{"json_schema": {...}, "type":
/// "json_schema"}` for the given schema, members in key order.
pub open spec fn response_format_value(v: JsonValue, name: Seq<char>, schema: JsonValue, strict: bool) -> bool {
    match v {
        JsonValue::Object(m) => {
            &&& m@.len() == 2
            &&& m@[0].0@ == "json_schema"@ && json_schema_member(m@[0].1, name, schema, strict)
            &&& m@[1].0@ == "type"@ && str_is(m@[1].1, "json_schema"@)
        },
        _ => false,
    }
}

/// Whether `kwargs` holds just the response format asking for JSON that
/// follows `schema`, named `name`, strictly or not.
pub open spec fn response_format_kwargs(
    kwargs: Seq<(String, JsonValue)>,
    name: Seq<char>,
    schema: JsonValue,
    strict: bool,
) -> bool {
    &&& kwargs.len() == 1
    &&& kwargs[0].0@ == "response_format"@
    &&& response_format_value(kwargs[0].1, name, schema, strict)
}

/// The model arguments that ask for the response format.
fn response_format(name: &String, schema: &JsonValue, strict: bool) -> (r: Vec<(String, JsonValue)>)
    ensures
        response_format_kwargs(r@, name@, *schema, strict),
{
    let inner = vec![
        (String::from_str("name"), JsonValue::Str(name.clone())),
        (String::from_str("schema"), schema.copy()),
        (String::from_str("strict"), JsonValue::Bool(strict)),
    ];
    let rf = vec![
        (String::from_str("json_schema"), JsonValue::Object(inner)),
        (String::from_str("type"), JsonValue::Str(String::from_str("json_schema"))),
    ];
    vec![(String::from_str("response_format"), JsonValue::Object(rf))]
}

impl ProviderStrategy {
    /// A strategy for `schema`, named `output`, not strict.
    pub fn new(schema: JsonValue) -> (r: Self)
        ensures
            r.schema == schema,
            r.schema_name@ == "output"@,
            !r.strict,
    {
        ProviderStrategy { schema, schema_name: String::from_str("output"), strict: false }
    }

    /// Sets the schema name.
    pub fn with_schema_name(self, name: &str) -> (r: Self)
        ensures
            r.schema_name@ == name@,
            r.schema == self.schema,
            r.strict == self.strict,
    {
        ProviderStrategy { schema_name: String::from_str(name), ..self }
    }

    /// Turns strict enforcement on or off.
    pub fn with_strict(self, strict: bool) -> (r: Self)
        ensures
            r.strict == strict,
            r.schema == self.schema,
            r.schema_name == self.schema_name,
    {
        ProviderStrategy { strict, ..self }
    }

    /// The model arguments for this strategy: `response_format` only.
    pub fn to_model_kwargs(&self) -> (r: Vec<(String, JsonValue)>)
        ensures
            response_format_kwargs(r@, self.schema_name@, self.schema, self.strict),
    {
        response_format(&self.schema_name, &self.schema, self.strict)
    }
}

/// Reads structured output from the content of an AI message.
#[derive(Debug)]
pub struct ProviderStrategyBinding {
    /// The schema the output follows.
    pub schema_spec: SchemaSpec,
    /// Whether the provider enforces the schema strictly.
    pub strict: bool,
}

impl ProviderStrategyBinding {
    /// A binding for `schema_spec`.
    pub fn from_schema_spec(schema_spec: SchemaSpec, strict: bool) -> (r: Self)
        ensures
            r.schema_spec == schema_spec,
            r.strict == strict,
    {
        ProviderStrategyBinding { schema_spec, strict }
    }

    /// The output for a message whose text content was parsed as JSON with
    /// the outcome `parsed`: the value read, or an error holding the
    /// parser's message.
    pub fn from_parsed(
        ai_message_value: &JsonValue,
        parsed: Result<JsonValue, String>,
    ) -> (r: Result<JsonValue, StructuredOutputValidationError>)
        ensures
            match parsed {
                Ok(v) => r == Ok::<JsonValue, StructuredOutputValidationError>(v),
                Err(m) => r matches Err(e) && parse_error_is(
                    e,
                    "Failed to parse provider response as JSON: "@ + m@,
                    *ai_message_value,
                    None,
                    Some(m@),
                ),
            },
    {
        match parsed {
            Ok(v) => Ok(v),
            Err(m) => {
                let mut msg = String::from_str("Failed to parse provider response as JSON: ");
                push_string(&mut msg, &m);
                Err(
                    StructuredOutputValidationError::new(msg.as_str()).with_ai_message(
                        ai_message_value.copy(),
                    ).with_source_error(m.as_str()),
                )
            },
        }
    }

    /// The structured output in an AI message: its text content parsed as
    /// JSON, or its content as it is when that is not text; an error when
    /// there is no content or the text is not JSON.
    pub fn parse(&self, ai_message_value: &JsonValue) -> (r: Result<JsonValue, StructuredOutputValidationError>)
        ensures
            match member(*ai_message_value, "content"@) {
                Some(JsonValue::Str(s)) => match parsed_json(s@) {
                    Ok(v) => r == Ok::<JsonValue, StructuredOutputValidationError>(v),
                    Err(m) => r matches Err(e) && parse_error_is(
                        e,
                        "Failed to parse provider response as JSON: "@ + m,
                        *ai_message_value,
                        None,
                        Some(m),
                    ),
                },
                Some(c) => r matches Ok(v) && json_text(v) == json_text(c),
                None => r matches Err(e) && parse_error_is(
                    e,
                    "AI message does not contain content for provider strategy parsing"@,
                    *ai_message_value,
                    None,
                    None,
                ),
            },
    {
        match ai_message_value.get("content") {
            Some(JsonValue::Str(s)) => Self::from_parsed(ai_message_value, parse_json(s.as_str())),
            Some(c) => Ok(c.copy()),
            None => Err(
                StructuredOutputValidationError::new(
                    "AI message does not contain content for provider strategy parsing",
                ).with_ai_message(ai_message_value.copy()),
            ),
        }
    }

    /// The model arguments for this binding: those of a provider strategy
    /// with the binding's schema, name and strictness.
    pub fn to_model_kwargs(&self) -> (r: Vec<(String, JsonValue)>)
        ensures
            response_format_kwargs(
                r@,
                self.schema_spec.name@,
                self.schema_spec.json_schema,
                self.strict,
            ),
    {
        response_format(&self.schema_spec.name, &self.schema_spec.json_schema, self.strict)
    }
}

/// Lets the framework choose between tool calling and the provider format.
#[derive(Debug)]
pub struct AutoStrategy {
    /// The JSON Schema of the expected output.
    pub schema: JsonValue,
}

impl AutoStrategy {
    /// A strategy for `schema`.
    pub fn new(schema: JsonValue) -> (r: Self)
        ensures
            r.schema == schema,
    {
        AutoStrategy { schema }
    }
}

/// How the agent produces structured output.
#[derive(Debug)]
pub enum ResponseFormat {
    /// Through tool calling.
    Tool(ToolStrategy),
    /// Through the provider's native format.
    Provider(ProviderStrategy),
    /// Either, as the framework chooses.
    Auto(AutoStrategy),
}

/// The schema of a response format.
pub open spec fn format_schema(f: ResponseFormat) -> JsonValue {
    match f {
        ResponseFormat::Tool(s) => s.schema,
        ResponseFormat::Provider(s) => s.schema,
        ResponseFormat::Auto(s) => s.schema,
    }
}

impl ResponseFormat {
    /// The schema, whatever the strategy.
    pub fn schema(&self) -> (r: &JsonValue)
        ensures
            *r == format_schema(*self),
    {
        match self {
            ResponseFormat::Tool(s) => &s.schema,
            ResponseFormat::Provider(s) => &s.schema,
            ResponseFormat::Auto(s) => &s.schema,
        }
    }

    /// A tool-calling format for `schema`.
    pub fn tool(schema: JsonValue) -> (r: Self)
        ensures
            r matches ResponseFormat::Tool(s) && s.schema == schema && s.schema_specs@.len() == 0
                && s.tool_message_content@.len() == 0 && s.handle_errors is Disabled,
    {
        ResponseFormat::Tool(ToolStrategy::new(schema))
    }

    /// A provider format for `schema`.
    pub fn provider(schema: JsonValue) -> (r: Self)
        ensures
            r matches ResponseFormat::Provider(s) && s.schema == schema && s.schema_name@ == "output"@
                && !s.strict,
    {
        ResponseFormat::Provider(ProviderStrategy::new(schema))
    }

    /// A format of the framework's choosing for `schema`.
    pub fn auto(schema: JsonValue) -> (r: Self)
        ensures
            r == ResponseFormat::Auto(AutoStrategy { schema }),
    {
        ResponseFormat::Auto(AutoStrategy::new(schema))
    }
}

} // verus!
