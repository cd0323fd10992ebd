//! Extraction schemas: the fields a model is asked to extract from text, and
//! the instruction that describes them.

use vstd::prelude::*;
use vstd::string::*;
use crate::error::RustChainError;
use crate::json::{compact_json_text, parse_json, parsed_json, pretty_json_text, to_pretty_text, JsonValue};
use crate::messages::{Message, MessageType};
use crate::text::{char_range, chars_of, has_suffix, push_string, trim_text, trim_ws};

verus! {

/// Output format for the extraction result.
#[derive(Debug, Clone, Copy, PartialEq, Eq, Structural)]
pub enum OutputFormat {
    /// JSON output format.
    Json,
    /// YAML output format.
    Yaml,
    /// Markdown table output format.
    Markdown,
}

impl Default for OutputFormat {
    fn default() -> (r: Self)
        ensures
            r == OutputFormat::Json,
    {
        OutputFormat::Json
    }
}

/// Type of a schema field.
#[derive(Debug, Clone, Copy, PartialEq, Eq, Structural)]
pub enum FieldType {
    /// A string value.
    String,
    /// An integer value.
    Integer,
    /// A floating-point value.
    Float,
    /// A boolean value.
    Boolean,
    /// An array of values.
    Array,
    /// A nested object.
    Object,
}

/// The name a field type is displayed with.
pub open spec fn field_type_name(t: FieldType) -> Seq<char> {
    match t {
        FieldType::String => "string"@,
        FieldType::Integer => "integer"@,
        FieldType::Float => "float"@,
        FieldType::Boolean => "boolean"@,
        FieldType::Array => "array"@,
        FieldType::Object => "object"@,
    }
}

impl FieldType {
    /// The name this type is displayed with.
    pub fn as_str(&self) -> (r: &'static str)
        ensures
            r@ == field_type_name(*self),
    {
        match self {
            FieldType::String => "string",
            FieldType::Integer => "integer",
            FieldType::Float => "float",
            FieldType::Boolean => "boolean",
            FieldType::Array => "array",
            FieldType::Object => "object",
        }
    }

    /// The name this type is displayed with, as an owned string.
    pub fn to_string(&self) -> (r: String)
        ensures
            r@ == field_type_name(*self),
    {
        String::from_str(self.as_str())
    }
}

/// A field of an extraction schema.
#[derive(Debug)]
pub struct SchemaField {
    /// Field name.
    pub name: String,
    /// Field type.
    pub field_type: FieldType,
    /// Human-readable description.
    pub description: String,
    /// Whether the field must be present.
    pub required: bool,
    /// The values the field may take, if restricted.
    pub enum_values: Option<Vec<String>>,
    /// The value used when the field is absent.
    pub default: Option<JsonValue>,
}

/// Builder for [`SchemaField`].
pub struct SchemaFieldBuilder {
    field: SchemaField,
}

impl SchemaFieldBuilder {
    /// The field this builder would build now.
    pub closed spec fn pending(&self) -> SchemaField {
        self.field
    }

    /// A builder for an optional field without description.
    pub fn new(name: &str, field_type: FieldType) -> (r: Self)
        ensures
            r.pending().name@ == name@,
            r.pending().field_type == field_type,
            r.pending().description@.len() == 0,
            !r.pending().required,
            r.pending().enum_values is None,
            r.pending().default is None,
    {
        SchemaFieldBuilder {
            field: SchemaField {
                name: String::from_str(name),
                field_type,
                description: String::new(),
                required: false,
                enum_values: None,
                default: None,
            },
        }
    }

    /// Sets the description.
    pub fn description(self, desc: &str) -> (r: Self)
        ensures
            r.pending().description@ == desc@,
            r.pending().name == self.pending().name,
            r.pending().field_type == self.pending().field_type,
            r.pending().required == self.pending().required,
            r.pending().enum_values == self.pending().enum_values,
            r.pending().default == self.pending().default,
    {
        SchemaFieldBuilder { field: SchemaField { description: String::from_str(desc), ..self.field } }
    }

    /// Sets whether the field is required.
    pub fn required(self, required: bool) -> (r: Self)
        ensures
            r.pending() == (SchemaField { required, ..self.pending() }),
    {
        SchemaFieldBuilder { field: SchemaField { required, ..self.field } }
    }

    /// Restricts the field to the given values.
    pub fn enum_values(self, values: Vec<String>) -> (r: Self)
        ensures
            r.pending() == (SchemaField { enum_values: Some(values), ..self.pending() }),
    {
        SchemaFieldBuilder { field: SchemaField { enum_values: Some(values), ..self.field } }
    }

    /// Sets the default value.
    pub fn default_value(self, value: JsonValue) -> (r: Self)
        ensures
            r.pending() == (SchemaField { default: Some(value), ..self.pending() }),
    {
        SchemaFieldBuilder { field: SchemaField { default: Some(value), ..self.field } }
    }

    /// Builds the field.
    pub fn build(self) -> (r: SchemaField)
        ensures
            r == self.pending(),
    {
        self.field
    }
}

/// An example of extraction: an input text and the expected output.
#[derive(Debug)]
pub struct ExtractionExample {
    /// The input text.
    pub input: String,
    /// The expected output.
    pub output: JsonValue,
}

impl ExtractionExample {
    /// An example from its input and output.
    pub fn new(input: &str, output: JsonValue) -> (r: Self)
        ensures
            r.input@ == input@,
            r.output == output,
    {
        ExtractionExample { input: String::from_str(input), output }
    }
}

/// The schema of the entities to extract.
#[derive(Debug)]
pub struct ExtractionSchema {
    /// The entity's name.
    pub name: String,
    /// What the entity is.
    pub description: String,
    /// Its fields.
    pub fields: Vec<SchemaField>,
}

/// The texts `v[0..n)` joined by `", "`.
pub open spec fn comma_joined(v: Seq<Seq<char>>, n: nat) -> Seq<char>
    decreases n,
{
    if n == 0 || n > v.len() {
        Seq::<char>::empty()
    } else if n == 1 {
        v[0]
    } else {
        comma_joined(v, (n - 1) as nat) + ", "@ + v[n - 1]
    }
}

/// The names of the fields among `fs[0..n)` whose `required` flag is `req`.
pub open spec fn names_where(fs: Seq<SchemaField>, req: bool, n: nat) -> Seq<Seq<char>>
    decreases n,
{
    if n == 0 || n > fs.len() {
        Seq::<Seq<char>>::empty()
    } else if fs[n - 1].required == req {
        names_where(fs, req, (n - 1) as nat).push(fs[n - 1].name@)
    } else {
        names_where(fs, req, (n - 1) as nat)
    }
}

/// The views of a list of strings.
pub open spec fn views(v: Seq<String>) -> Seq<Seq<char>> {
    v.map_values(|s: String| s@)
}

/// The line describing one field.
pub open spec fn field_line(f: SchemaField) -> Seq<char> {
    "- "@ + f.name@ + " ("@ + field_type_name(f.field_type) + "): "@ + f.description@ + (if f.required {
        " [REQUIRED]"@
    } else {
        " [OPTIONAL]"@
    }) + (match f.enum_values {
        Some(vs) => " Allowed values: "@ + comma_joined(views(vs@), vs@.len()),
        None => Seq::<char>::empty(),
    }) + (match f.default {
        Some(d) => " Default: "@ + compact_json_text(d),
        None => Seq::<char>::empty(),
    }) + "\n"@
}

/// The lines of the first `n` fields.
pub open spec fn field_lines(fs: Seq<SchemaField>, n: nat) -> Seq<char>
    decreases n,
{
    if n == 0 || n > fs.len() {
        Seq::<char>::empty()
    } else {
        field_lines(fs, (n - 1) as nat) + field_line(fs[n - 1])
    }
}

/// The instruction describing a schema to the model.
pub open spec fn prompt_instruction(s: ExtractionSchema) -> Seq<char> {
    let fs = s.fields@;
    let req = names_where(fs, true, fs.len());
    let opt = names_where(fs, false, fs.len());
    "Extract "@ + s.name@ + " entities from the text.\n\nEntity: "@ + s.name@ + "\nDescription: "@
        + s.description@ + "\n\nFields:\n"@ + field_lines(fs, fs.len()) + (if req.len() > 0 {
        "\nRequired fields: "@ + comma_joined(req, req.len()) + "\n"@
    } else {
        Seq::<char>::empty()
    }) + (if opt.len() > 0 {
        "Optional fields: "@ + comma_joined(opt, opt.len()) + "\n"@
    } else {
        Seq::<char>::empty()
    })
}

/// The line of one field.
fn field_line_text(f: &SchemaField) -> (r: String)
    ensures
        r@ == field_line(*f),
{
    let mut line = String::from_str("- ");
    push_string(&mut line, &f.name);
    line.append(" (");
    line.append(f.field_type.as_str());
    line.append("): ");
    push_string(&mut line, &f.description);
    if f.required {
        line.append(" [REQUIRED]");
    } else {
        line.append(" [OPTIONAL]");
    }
    let ghost before_enum = line@;
    match &f.enum_values {
        Some(vs) => {
            line.append(" Allowed values: ");
            let ghost head = line@;
            let mut i: usize = 0;
            while i < vs.len()
                invariant
                    i <= vs@.len(),
                    line@ == head + comma_joined(views(vs@), i as nat),
                decreases vs.len() - i,
            {
                if i > 0 {
                    line.append(", ");
                }
                push_string(&mut line, &vs[i]);
                i = i + 1;
                assert(line@ =~= head + comma_joined(views(vs@), i as nat));
            }
        },
        None => {},
    }
    match &f.default {
        Some(d) => {
            line.append(" Default: ");
            let text = d.to_json_text();
            push_string(&mut line, &text);
        },
        None => {},
    }
    line.append("\n");
    assert(line@ =~= field_line(*f));
    line
}

/// Appends the names of the fields whose `required` flag is `req`, joined by `", "`.
fn push_names(out: &mut String, fs: &Vec<SchemaField>, req: bool)
    ensures
        final(out)@ == old(out)@ + comma_joined(names_where(fs@, req, fs@.len()), names_where(
            fs@,
            req,
            fs@.len(),
        ).len()),
{
    let ghost head = out@;
    let mut count: usize = 0;
    let mut i: usize = 0;
    while i < fs.len()
        invariant
            i <= fs@.len(),
            count == names_where(fs@, req, i as nat).len(),
            count <= i,
            out@ == head + comma_joined(names_where(fs@, req, i as nat), count as nat),
        decreases fs.len() - i,
    {
        if fs[i].required == req {
            if count > 0 {
                out.append(", ");
            }
            push_string(out, &fs[i].name);
            count = count + 1;
            assert(names_where(fs@, req, (i + 1) as nat) == names_where(fs@, req, i as nat).push(
                fs@[i as int].name@,
            ));
            proof {
                lemma_comma_joined_prefix(
                    names_where(fs@, req, i as nat),
                    names_where(fs@, req, (i + 1) as nat),
                    (count - 1) as nat,
                );
            }
            assert(out@ =~= head + comma_joined(names_where(fs@, req, (i + 1) as nat), count as nat));
        }
        i = i + 1;
    }
}

proof fn lemma_comma_joined_prefix(a: Seq<Seq<char>>, b: Seq<Seq<char>>, n: nat)
    requires
        n <= a.len(),
        n <= b.len(),
        forall|i: int| 0 <= i < n ==> a[i] == b[i],
    ensures
        comma_joined(a, n) == comma_joined(b, n),
    decreases n,
{
    if n > 1 {
        lemma_comma_joined_prefix(a, b, (n - 1) as nat);
    }
}

/// Whether some field's `required` flag is `req`.
fn any_with(fs: &Vec<SchemaField>, req: bool) -> (r: bool)
    ensures
        r == (names_where(fs@, req, fs@.len()).len() > 0),
{
    let mut i: usize = 0;
    while i < fs.len()
        invariant
            i <= fs@.len(),
            names_where(fs@, req, i as nat).len() == 0,
        decreases fs.len() - i,
    {
        if fs[i].required == req {
            proof {
                lemma_names_where_grows(fs@, req, (i + 1) as nat, fs@.len());
            }
            return true;
        }
        i = i + 1;
    }
    false
}

proof fn lemma_names_where_grows(fs: Seq<SchemaField>, req: bool, n: nat, m: nat)
    requires
        n <= m <= fs.len(),
    ensures
        names_where(fs, req, n).len() <= names_where(fs, req, m).len(),
    decreases m - n,
{
    if m > n {
        lemma_names_where_grows(fs, req, n, (m - 1) as nat);
    }
}

impl ExtractionSchema {
    /// Start a new builder.
    pub fn builder() -> (r: ExtractionSchemaBuilder)
        ensures
            r.pending_name() is None,
            r.pending_description() is None,
            r.pending_fields().len() == 0,
    {
        ExtractionSchemaBuilder::new()
    }

    /// The instruction that describes this schema to the model: the entity,
    /// one line per field, then the required and the optional field names.
    pub fn to_prompt_instruction(&self) -> (r: String)
        ensures
            r@ == prompt_instruction(*self),
    {
        let mut s = String::from_str("Extract ");
        push_string(&mut s, &self.name);
        s.append(" entities from the text.\n\nEntity: ");
        push_string(&mut s, &self.name);
        s.append("\nDescription: ");
        push_string(&mut s, &self.description);
        s.append("\n\nFields:\n");
        let ghost head = s@;
        let mut i: usize = 0;
        while i < self.fields.len()
            invariant
                i <= self.fields@.len(),
                s@ == head + field_lines(self.fields@, i as nat),
            decreases self.fields.len() - i,
        {
            let line = field_line_text(&self.fields[i]);
            push_string(&mut s, &line);
            i = i + 1;
        }
        let ghost body = s@;
        if any_with(&self.fields, true) {
            s.append("\nRequired fields: ");
            push_names(&mut s, &self.fields, true);
            s.append("\n");
        }
        let ghost mid = s@;
        if any_with(&self.fields, false) {
            s.append("Optional fields: ");
            push_names(&mut s, &self.fields, false);
            s.append("\n");
        }
        assert(s@ =~= prompt_instruction(*self));
        s
    }
}

/// Builder for [`ExtractionSchema`].
pub struct ExtractionSchemaBuilder {
    name: Option<String>,
    description: Option<String>,
    fields: Vec<SchemaField>,
}

impl ExtractionSchemaBuilder {
    /// The name set so far.
    pub closed spec fn pending_name(&self) -> Option<String> {
        self.name
    }

    /// The description set so far.
    pub closed spec fn pending_description(&self) -> Option<String> {
        self.description
    }

    /// The fields added so far.
    pub closed spec fn pending_fields(&self) -> Seq<SchemaField> {
        self.fields@
    }

    /// An empty builder.
    pub fn new() -> (r: Self)
        ensures
            r.pending_name() is None,
            r.pending_description() is None,
            r.pending_fields().len() == 0,
    {
        ExtractionSchemaBuilder { name: None, description: None, fields: Vec::new() }
    }

    /// Sets the entity's name.
    pub fn name(self, name: &str) -> (r: Self)
        ensures
            r.pending_name() matches Some(n) && n@ == name@,
            r.pending_description() == self.pending_description(),
            r.pending_fields() == self.pending_fields(),
    {
        ExtractionSchemaBuilder { name: Some(String::from_str(name)), ..self }
    }

    /// Sets the entity's description.
    pub fn description(self, desc: &str) -> (r: Self)
        ensures
            r.pending_description() matches Some(d) && d@ == desc@,
            r.pending_name() == self.pending_name(),
            r.pending_fields() == self.pending_fields(),
    {
        ExtractionSchemaBuilder { description: Some(String::from_str(desc)), ..self }
    }

    /// Adds a field.
    pub fn field(self, field: SchemaField) -> (r: Self)
        ensures
            r.pending_fields() == self.pending_fields().push(field),
            r.pending_name() == self.pending_name(),
            r.pending_description() == self.pending_description(),
    {
        let mut b = self;
        b.fields.push(field);
        b
    }

    /// Adds a required field without allowed values or default.
    pub fn required_field(self, name: &str, field_type: FieldType, description: &str) -> (r: Self)
        ensures
            r.pending_fields().len() == self.pending_fields().len() + 1,
            r.pending_fields().drop_last() == self.pending_fields(),
            r.pending_fields().last().name@ == name@,
            r.pending_fields().last().field_type == field_type,
            r.pending_fields().last().description@ == description@,
            r.pending_fields().last().required,
            r.pending_fields().last().enum_values is None,
            r.pending_fields().last().default is None,
            r.pending_name() == self.pending_name(),
            r.pending_description() == self.pending_description(),
    {
        let mut b = self;
        b.fields.push(
            SchemaField {
                name: String::from_str(name),
                field_type,
                description: String::from_str(description),
                required: true,
                enum_values: None,
                default: None,
            },
        );
        assert(b.fields@.drop_last() =~= self.fields@);
        b
    }

    /// Builds the schema; the name and the description must have been set.
    pub fn build(self) -> (r: ExtractionSchema)
        requires
            self.pending_name() is Some,
            self.pending_description() is Some,
        ensures
            r.name == self.pending_name().unwrap(),
            r.description == self.pending_description().unwrap(),
            r.fields@ == self.pending_fields(),
    {
        ExtractionSchema {
            name: self.name.unwrap(),
            description: self.description.unwrap(),
            fields: self.fields,
        }
    }
}

impl Default for ExtractionSchemaBuilder {
    fn default() -> (r: Self)
        ensures
            r.pending_name() is None,
            r.pending_description() is None,
            r.pending_fields().len() == 0,
    {
        Self::new()
    }
}

// ---------------------------------------------------------------------------
// ExtractionChain
// ---------------------------------------------------------------------------

/// The default system prompt of extraction.
pub open spec fn default_extraction_prompt() -> Seq<char> {
    "You are an expert extraction algorithm. Your task is to extract structured information from text according to a given schema. Only extract information that is explicitly stated in the text. If a field cannot be determined, omit it or set it to null."@
}

/// How the model is asked to lay out what it extracts.
pub open spec fn format_instruction(f: OutputFormat) -> Seq<char> {
    match f {
        OutputFormat::Json => "Return the extracted entities as a JSON array. Each element should be an object with the fields described above. If no entities are found, return an empty array []."@,
        OutputFormat::Yaml => "Return the extracted entities in YAML format as a list. Each item should contain the fields described above. If no entities are found, return an empty list."@,
        OutputFormat::Markdown => "Return the extracted entities as a Markdown table with columns matching the field names described above. If no entities are found, return an empty table."@,
    }
}

/// The reply the model is shown to have given to the schema.
pub open spec fn understood_reply() -> Seq<char> {
    "Understood. I will extract entities according to the schema. Please provide the text."@
}

/// The request to extract from `text`.
pub open spec fn extract_request(text: Seq<char>) -> Seq<char> {
    "Extract from this text:\n"@ + text
}

/// How an example's output is shown: indented JSON for the JSON format,
/// compact JSON otherwise.
pub open spec fn example_text(f: OutputFormat, v: JsonValue) -> Seq<char> {
    match f {
        OutputFormat::Json => pretty_json_text(v),
        _ => compact_json_text(v),
    }
}

/// Whether `t` starts with `p`.
pub open spec fn has_prefix(t: Seq<char>, p: Seq<char>) -> bool {
    p.len() <= t.len() && t.subrange(0, p.len() as int) == p
}

/// A trimmed reply without the code fence around it: when it starts with
/// three backticks, those (with a `json` or `yaml` tag) and three closing
/// backticks are taken off and the rest trimmed.
pub open spec fn unfenced(t: Seq<char>) -> Seq<char> {
    if has_prefix(t, "```"@) {
        let w = if has_prefix(t, "```json"@) || has_prefix(t, "```yaml"@) {
            t.subrange(7, t.len() as int)
        } else {
            t.subrange(3, t.len() as int)
        };
        let x = if has_suffix(w, "```"@) {
            w.subrange(0, w.len() - 3)
        } else {
            w
        };
        trim_ws(x)
    } else {
        t
    }
}

/// What reading the entities out of the reply `raw` gives in format `f`.
pub open spec fn entities_read(f: OutputFormat, raw: Seq<char>, r: Result<Vec<JsonValue>, RustChainError>) -> bool {
    let cleaned = unfenced(trim_ws(raw));
    match f {
        OutputFormat::Json => match parsed_json(cleaned) {
            Err(e) => parser_error(r, "Failed to parse extraction JSON: "@ + e, Some(raw)),
            Ok(JsonValue::Array(items)) => r matches Ok(v) && v@ == items@,
            Ok(JsonValue::Object(ms)) => r matches Ok(v) && v@ == seq![JsonValue::Object(ms)],
            Ok(_) => parser_error(r, "Expected JSON array or object, got: "@ + raw, None),
        },
        _ => r matches Ok(v) && v@.len() == 1 && raw_entity(v@[0], cleaned),
    }
}

/// Whether `r` is an output parser error with this message and
/// observation, and no model output.
pub open spec fn parser_error(
    r: Result<Vec<JsonValue>, RustChainError>,
    message: Seq<char>,
    observation: Option<Seq<char>>,
) -> bool {
    match r {
        Err(RustChainError::OutputParserError { message: m, observation: o, llm_output }) => {
            &&& m@ == message
            &&& llm_output is None
            &&& match (o, observation) {
                (Some(x), Some(y)) => x@ == y,
                (None, None) => true,
                _ => false,
            }
        },
        _ => false,
    }
}

/// Whether `e` is the object `{"raw": text}`.
pub open spec fn raw_entity(e: JsonValue, text: Seq<char>) -> bool {
    match e {
        JsonValue::Object(ms) => ms@.len() == 1 && ms@[0].0@ == "raw"@ && ms@[0].1 is Str
            && ms@[0].1->Str_0@ == text,
        _ => false,
    }
}

/// The settings of a chain that extracts entities from text: the schema,
/// the system prompt, few-shot examples and the output format. The model
/// that extracts is held by the caller.
pub struct ExtractionChain {
    /// What to extract.
    pub schema: ExtractionSchema,
    /// A system prompt in place of the default one.
    pub system_prompt: Option<String>,
    /// Few-shot examples.
    pub examples: Vec<ExtractionExample>,
    /// How the model lays out what it extracts.
    pub output_format: OutputFormat,
}

/// Builds an [`ExtractionChain`].
pub struct ExtractionChainBuilder {
    /// The schema, once given.
    pub schema: Option<ExtractionSchema>,
    /// A system prompt in place of the default one.
    pub system_prompt: Option<String>,
    /// Few-shot examples.
    pub examples: Vec<ExtractionExample>,
    /// The output format.
    pub output_format: OutputFormat,
}

impl ExtractionChainBuilder {
    /// A builder without schema, prompt or examples, for JSON output.
    pub fn new() -> (r: Self)
        ensures
            r.schema is None,
            r.system_prompt is None,
            r.examples@.len() == 0,
            r.output_format == OutputFormat::Json,
    {
        ExtractionChainBuilder {
            schema: None,
            system_prompt: None,
            examples: Vec::new(),
            output_format: OutputFormat::Json,
        }
    }

    /// Sets the schema.
    pub fn schema(self, schema: ExtractionSchema) -> (r: Self)
        ensures
            r.schema == Some(schema),
            r.system_prompt == self.system_prompt,
            r.examples == self.examples,
            r.output_format == self.output_format,
    {
        ExtractionChainBuilder { schema: Some(schema), ..self }
    }

    /// Sets the system prompt.
    pub fn system_prompt(self, prompt: &str) -> (r: Self)
        ensures
            r.system_prompt matches Some(p) && p@ == prompt@,
            r.schema == self.schema,
            r.examples == self.examples,
            r.output_format == self.output_format,
    {
        ExtractionChainBuilder { system_prompt: Some(String::from_str(prompt)), ..self }
    }

    /// Adds a few-shot example.
    pub fn add_example(self, example: ExtractionExample) -> (r: Self)
        ensures
            r.examples@ == self.examples@.push(example),
            r.schema == self.schema,
            r.system_prompt == self.system_prompt,
            r.output_format == self.output_format,
    {
        let mut b = self;
        b.examples.push(example);
        b
    }

    /// Sets the output format.
    pub fn output_format(self, format: OutputFormat) -> (r: Self)
        ensures
            r.output_format == format,
            r.schema == self.schema,
            r.system_prompt == self.system_prompt,
            r.examples == self.examples,
    {
        ExtractionChainBuilder { output_format: format, ..self }
    }

    /// The chain; the schema must have been given.
    pub fn build(self) -> (r: ExtractionChain)
        requires
            self.schema is Some,
        ensures
            Some(r.schema) == self.schema,
            r.system_prompt == self.system_prompt,
            r.examples == self.examples,
            r.output_format == self.output_format,
    {
        ExtractionChain {
            schema: self.schema.unwrap(),
            system_prompt: self.system_prompt,
            examples: self.examples,
            output_format: self.output_format,
        }
    }
}

impl ExtractionChain {
    /// A builder with the default settings.
    pub fn builder() -> (r: ExtractionChainBuilder)
        ensures
            r.schema is None,
            r.system_prompt is None,
            r.examples@.len() == 0,
            r.output_format == OutputFormat::Json,
    {
        ExtractionChainBuilder::new()
    }

    /// The schema.
    pub fn schema(&self) -> (r: &ExtractionSchema)
        ensures
            *r == self.schema,
    {
        &self.schema
    }

    /// The output format.
    pub fn output_format(&self) -> (r: OutputFormat)
        ensures
            r == self.output_format,
    {
        self.output_format
    }

    /// The messages sent to the model to extract from `text`: the system
    /// prompt, the schema with the format instruction, the model's
    /// acknowledgement, each example as a request and its answer, and the
    /// request for `text`.
    pub fn build_messages(&self, text: &str) -> (r: Vec<Message>)
        requires
            3 + 2 * self.examples@.len() + 1 <= usize::MAX,
        ensures
            r@.len() == 3 + 2 * self.examples@.len() + 1,
            r@[0].message_type == MessageType::System,
            r@[0].content@ == match self.system_prompt {
                Some(p) => p@,
                None => default_extraction_prompt(),
            },
            r@[1].message_type == MessageType::Human,
            r@[1].content@ == prompt_instruction(self.schema) + "\n\n"@ + format_instruction(
                self.output_format,
            ),
            r@[2].message_type == MessageType::Ai,
            r@[2].content@ == understood_reply(),
            forall|i: int|
                0 <= i < self.examples@.len() ==> {
                    &&& (#[trigger] r@[3 + 2 * i]).message_type == MessageType::Human
                    &&& r@[3 + 2 * i].content@ == extract_request(self.examples@[i].input@)
                    &&& r@[4 + 2 * i].message_type == MessageType::Ai
                    &&& r@[4 + 2 * i].content@ == example_text(
                        self.output_format,
                        self.examples@[i].output,
                    )
                },
            r@.last().message_type == MessageType::Human,
            r@.last().content@ == extract_request(text@),
    {
        let mut messages: Vec<Message> = Vec::new();
        match &self.system_prompt {
            Some(p) => messages.push(Message::system(p.as_str())),
            None => messages.push(
                Message::system(
                    "You are an expert extraction algorithm. Your task is to extract structured information from text according to a given schema. Only extract information that is explicitly stated in the text. If a field cannot be determined, omit it or set it to null.",
                ),
            ),
        }
        let mut instruction = self.schema.to_prompt_instruction();
        instruction.append("\n\n");
        match self.output_format {
            OutputFormat::Json => instruction.append(
                "Return the extracted entities as a JSON array. Each element should be an object with the fields described above. If no entities are found, return an empty array [].",
            ),
            OutputFormat::Yaml => instruction.append(
                "Return the extracted entities in YAML format as a list. Each item should contain the fields described above. If no entities are found, return an empty list.",
            ),
            OutputFormat::Markdown => instruction.append(
                "Return the extracted entities as a Markdown table with columns matching the field names described above. If no entities are found, return an empty table.",
            ),
        }
        messages.push(Message::human(instruction.as_str()));
        messages.push(
            Message::ai(
                "Understood. I will extract entities according to the schema. Please provide the text.",
            ),
        );
        let mut i: usize = 0;
        while i < self.examples.len()
            invariant
                i <= self.examples@.len(),
                3 + 2 * self.examples@.len() + 1 <= usize::MAX,
                messages@.len() == 3 + 2 * i,
                messages@[0].message_type == MessageType::System,
                messages@[0].content@ == match self.system_prompt {
                    Some(p) => p@,
                    None => default_extraction_prompt(),
                },
                messages@[1].message_type == MessageType::Human,
                messages@[1].content@ == prompt_instruction(self.schema) + "\n\n"@
                    + format_instruction(self.output_format),
                messages@[2].message_type == MessageType::Ai,
                messages@[2].content@ == understood_reply(),
                forall|k: int|
                    0 <= k < i ==> {
                        &&& (#[trigger] messages@[3 + 2 * k]).message_type == MessageType::Human
                        &&& messages@[3 + 2 * k].content@ == extract_request(self.examples@[k].input@)
                        &&& messages@[4 + 2 * k].message_type == MessageType::Ai
                        &&& messages@[4 + 2 * k].content@ == example_text(
                            self.output_format,
                            self.examples@[k].output,
                        )
                    },
            decreases self.examples.len() - i,
        {
            let ex = &self.examples[i];
            let mut ask = String::from_str("Extract from this text:\n");
            push_string(&mut ask, &ex.input);
            messages.push(Message::human(ask.as_str()));
            let shown = match self.output_format {
                OutputFormat::Json => to_pretty_text(&ex.output),
                _ => ex.output.to_json_text(),
            };
            messages.push(Message::ai(shown.as_str()));
            i = i + 1;
        }
        let mut ask = String::from_str("Extract from this text:\n");
        ask.append(text);
        messages.push(Message::human(ask.as_str()));
        messages
    }

    /// The entities in the model's reply `raw`: for JSON output, the items of
    /// the array it holds (or the one object), once a surrounding code fence
    /// is taken off; for the other formats, one object holding the text.
    pub fn parse_response(&self, raw: &str) -> (r: Result<Vec<JsonValue>, RustChainError>)
        ensures
            entities_read(self.output_format, raw@, r),
    {
        let trimmed = trim_text(raw);
        let cleaned = unfence(trimmed.as_str());
        match self.output_format {
            OutputFormat::Json => match parse_json(cleaned.as_str()) {
                Err(e) => {
                    let mut m = String::from_str("Failed to parse extraction JSON: ");
                    push_string(&mut m, &e);
                    Err(
                        RustChainError::OutputParserError {
                            message: m,
                            observation: Some(String::from_str(raw)),
                            llm_output: None,
                        },
                    )
                },
                Ok(JsonValue::Array(items)) => Ok(items),
                Ok(JsonValue::Object(ms)) => {
                    let mut v: Vec<JsonValue> = Vec::new();
                    v.push(JsonValue::Object(ms));
                    Ok(v)
                },
                Ok(_) => {
                    let mut m = String::from_str("Expected JSON array or object, got: ");
                    m.append(raw);
                    Err(
                        RustChainError::OutputParserError {
                            message: m,
                            observation: None,
                            llm_output: None,
                        },
                    )
                },
            },
            _ => {
                let mut ms: Vec<(String, JsonValue)> = Vec::new();
                ms.push((String::from_str("raw"), JsonValue::Str(cleaned)));
                let mut v: Vec<JsonValue> = Vec::new();
                v.push(JsonValue::Object(ms));
                Ok(v)
            },
        }
    }
}

/// Takes the code fence off a trimmed reply.
fn unfence(t: &str) -> (r: String)
    ensures
        r@ == unfenced(t@),
{
    let cs = chars_of(t);
    let n = cs.len();
    let fence = n >= 3 && cs[0] == '`' && cs[1] == '`' && cs[2] == '`';
    proof {
        reveal_strlit("```");
        reveal_strlit("```json");
        reveal_strlit("```yaml");
        assert(cs@ == t@);
        if fence {
            assert(t@.subrange(0, 3) =~= "```"@);
        }
        if has_prefix(t@, "```"@) {
            assert(t@.subrange(0, 3)[0] == t@[0]);
            assert(t@.subrange(0, 3)[1] == t@[1]);
            assert(t@.subrange(0, 3)[2] == t@[2]);
        }
    }
    if !fence {
        return String::from_str(t);
    }
    let tagged = n >= 7 && ((cs[3] == 'j' && cs[4] == 's' && cs[5] == 'o' && cs[6] == 'n') || (cs[3]
        == 'y' && cs[4] == 'a' && cs[5] == 'm' && cs[6] == 'l'));
    proof {
        if n >= 7 {
            if cs[3] == 'j' && cs[4] == 's' && cs[5] == 'o' && cs[6] == 'n' {
                assert(t@.subrange(0, 7) =~= "```json"@);
            }
            if cs[3] == 'y' && cs[4] == 'a' && cs[5] == 'm' && cs[6] == 'l' {
                assert(t@.subrange(0, 7) =~= "```yaml"@);
            }
        }
        if has_prefix(t@, "```json"@) || has_prefix(t@, "```yaml"@) {
            assert(t@.subrange(0, 7)[3] == t@[3]);
            assert(t@.subrange(0, 7)[4] == t@[4]);
            assert(t@.subrange(0, 7)[5] == t@[5]);
            assert(t@.subrange(0, 7)[6] == t@[6]);
        }
        assert((has_prefix(t@, "```json"@) || has_prefix(t@, "```yaml"@)) == tagged);
    }
    let lo: usize = if tagged { 7 } else { 3 };
    let ghost w = t@.subrange(lo as int, n as int);
    let closed = n - lo >= 3 && cs[n - 1] == '`' && cs[n - 2] == '`' && cs[n - 3] == '`';
    proof {
        assert(has_suffix(w, "```"@) == closed) by {
            reveal_strlit("```");
            if closed {
                assert(w.subrange(w.len() - 3, w.len() as int) =~= "```"@);
            }
            if has_suffix(w, "```"@) {
                assert(w.subrange(w.len() - 3, w.len() as int)[0] == w[w.len() - 3]);
                assert(w.subrange(w.len() - 3, w.len() as int)[1] == w[w.len() - 2]);
                assert(w.subrange(w.len() - 3, w.len() as int)[2] == w[w.len() - 1]);
            }
        }
    }
    let hi: usize = if closed { n - 3 } else { n };
    let inner = char_range(&cs, lo, hi);
    assert(inner@ =~= (if closed { w.subrange(0, w.len() - 3) } else { w }));
    trim_text(inner.as_str())
}

} // verus!
