//! API descriptions for request-building chains, and the safety checks a
//! constructed HTTP request must pass before it is sent.

use vstd::prelude::*;
use vstd::string::*;
use crate::error::RustChainError;
use crate::chains::sql::{group_of, group_text};
use crate::chains::template::{fill_template, template_filled};
use crate::json::{compact_json_text, json_text, member, parse_json, parsed_json, str_member, JsonValue};
use crate::regexes::{captures_all, captures_view, outcome_hit, regex_captures, regex_matches, regex_outcome};
use crate::text::{
    char_range, chars_of, contains_char, contains_seq, contains_str, debug_quoted, debug_string, lowercase_of,
    decimal, push_string, starts_with, to_lowercase, to_uppercase, trim_text, trim_ws, u64_to_string,
    uppercase_of, str_eq,
};

verus! {

// ---------------------------------------------------------------------------
// EndpointSpec & APISpec
// ---------------------------------------------------------------------------

/// Describes a single parameter for an API endpoint.
#[derive(Debug, Clone)]
pub struct ParameterSpec {
    /// Parameter name.
    pub name: String,
    /// Parameter type (e.g. `"string"`, `"integer"`, `"boolean"`).
    pub param_type: String,
    /// Whether the parameter is required.
    pub required: bool,
    /// Human-readable description.
    pub description: String,
}

/// Builder for [`ParameterSpec`].
pub struct ParameterSpecBuilder {
    name: String,
    param_type: String,
    required: bool,
    description: String,
}

impl ParameterSpecBuilder {
    /// The parameter this builder would build now.
    pub closed spec fn pending(&self) -> ParameterSpec {
        ParameterSpec {
            name: self.name,
            param_type: self.param_type,
            required: self.required,
            description: self.description,
        }
    }

    /// Create a builder with the required parameter name and type.
    pub fn new(name: &str, param_type: &str) -> (r: Self)
        ensures
            r.pending().name@ == name@,
            r.pending().param_type@ == param_type@,
            !r.pending().required,
            r.pending().description@ == Seq::<char>::empty(),
    {
        ParameterSpecBuilder {
            name: String::from_str(name),
            param_type: String::from_str(param_type),
            required: false,
            description: String::new(),
        }
    }

    /// Mark this parameter as required.
    pub fn required(self, required: bool) -> (r: Self)
        ensures
            r.pending() == (ParameterSpec { required, ..self.pending() }),
    {
        ParameterSpecBuilder { required, ..self }
    }

    /// Set the parameter description.
    pub fn description(self, desc: &str) -> (r: Self)
        ensures
            r.pending().name == self.pending().name,
            r.pending().param_type == self.pending().param_type,
            r.pending().required == self.pending().required,
            r.pending().description@ == desc@,
    {
        ParameterSpecBuilder { description: String::from_str(desc), ..self }
    }

    /// Build the [`ParameterSpec`].
    pub fn build(self) -> (r: ParameterSpec)
        ensures
            r == self.pending(),
    {
        ParameterSpec {
            name: self.name,
            param_type: self.param_type,
            required: self.required,
            description: self.description,
        }
    }
}

/// Describes a single API endpoint.
#[derive(Debug, Clone)]
pub struct EndpointSpec {
    /// HTTP method (e.g. `"GET"`, `"POST"`).
    pub method: String,
    /// URL path (e.g. `"/users/{id}"`).
    pub path: String,
    /// Human-readable description of what this endpoint does.
    pub description: String,
    /// Parameters for this endpoint.
    pub parameters: Vec<ParameterSpec>,
}

/// Builder for [`EndpointSpec`].
pub struct EndpointSpecBuilder {
    method: String,
    path: String,
    description: String,
    parameters: Vec<ParameterSpec>,
}

impl EndpointSpecBuilder {
    /// The endpoint this builder would build now.
    pub closed spec fn pending(&self) -> EndpointSpec {
        EndpointSpec {
            method: self.method,
            path: self.path,
            description: self.description,
            parameters: self.parameters,
        }
    }

    /// Create a builder with the required method and path.
    pub fn new(method: &str, path: &str) -> (r: Self)
        ensures
            r.pending().method@ == method@,
            r.pending().path@ == path@,
            r.pending().description@ == Seq::<char>::empty(),
            r.pending().parameters@ == Seq::<ParameterSpec>::empty(),
    {
        EndpointSpecBuilder {
            method: String::from_str(method),
            path: String::from_str(path),
            description: String::new(),
            parameters: Vec::new(),
        }
    }

    /// Set the endpoint description.
    pub fn description(self, desc: &str) -> (r: Self)
        ensures
            r.pending().method == self.pending().method,
            r.pending().path == self.pending().path,
            r.pending().description@ == desc@,
            r.pending().parameters == self.pending().parameters,
    {
        EndpointSpecBuilder { description: String::from_str(desc), ..self }
    }

    /// Add a parameter to this endpoint.
    pub fn parameter(self, param: ParameterSpec) -> (r: Self)
        ensures
            r.pending().method == self.pending().method,
            r.pending().path == self.pending().path,
            r.pending().description == self.pending().description,
            r.pending().parameters@ == self.pending().parameters@.push(param),
    {
        let mut b = self;
        b.parameters.push(param);
        b
    }

    /// Build the [`EndpointSpec`].
    pub fn build(self) -> (r: EndpointSpec)
        ensures
            r == self.pending(),
    {
        EndpointSpec {
            method: self.method,
            path: self.path,
            description: self.description,
            parameters: self.parameters,
        }
    }
}

/// Describes an API with a base URL and a collection of endpoints.
#[derive(Debug, Clone)]
pub struct APISpec {
    /// Base URL for the API (e.g. `"https://api.example.com"`).
    pub base_url: String,
    /// Available endpoints.
    pub endpoints: Vec<EndpointSpec>,
}

/// Builder for [`APISpec`].
pub struct APISpecBuilder {
    base_url: String,
    endpoints: Vec<EndpointSpec>,
}

impl APISpecBuilder {
    /// The spec this builder would build now.
    pub closed spec fn pending(&self) -> APISpec {
        APISpec { base_url: self.base_url, endpoints: self.endpoints }
    }

    /// Create a builder with the required base URL.
    pub fn new(base_url: &str) -> (r: Self)
        ensures
            r.pending().base_url@ == base_url@,
            r.pending().endpoints@ == Seq::<EndpointSpec>::empty(),
    {
        APISpecBuilder { base_url: String::from_str(base_url), endpoints: Vec::new() }
    }

    /// Add an endpoint to the API spec.
    pub fn endpoint(self, endpoint: EndpointSpec) -> (r: Self)
        ensures
            r.pending().base_url == self.pending().base_url,
            r.pending().endpoints@ == self.pending().endpoints@.push(endpoint),
    {
        let mut b = self;
        b.endpoints.push(endpoint);
        b
    }

    /// Build the [`APISpec`].
    pub fn build(self) -> (r: APISpec)
        ensures
            r == self.pending(),
    {
        APISpec { base_url: self.base_url, endpoints: self.endpoints }
    }
}

// ---------------------------------------------------------------------------
// The description given to the model
// ---------------------------------------------------------------------------

/// The line describing one parameter.
pub open spec fn param_line(p: ParameterSpec) -> Seq<char> {
    "      - "@ + p.name@ + " ("@ + p.param_type@ + ", "@ + (if p.required {
        "required"@
    } else {
        "optional"@
    }) + "): "@ + p.description@ + "\n"@
}

/// The lines of the first `n` parameters.
pub open spec fn param_lines(ps: Seq<ParameterSpec>, n: nat) -> Seq<char>
    decreases n,
{
    if n == 0 || n > ps.len() {
        Seq::<char>::empty()
    } else {
        param_lines(ps, (n - 1) as nat) + param_line(ps[n - 1])
    }
}

/// The block describing one endpoint.
pub open spec fn endpoint_block(e: EndpointSpec) -> Seq<char> {
    "\n  "@ + e.method@ + " "@ + e.path@ + " - "@ + e.description@ + "\n"@ + if e.parameters@.len()
        == 0 {
        Seq::<char>::empty()
    } else {
        "    Parameters:\n"@ + param_lines(e.parameters@, e.parameters@.len())
    }
}

/// The blocks of the first `n` endpoints.
pub open spec fn endpoint_blocks(es: Seq<EndpointSpec>, n: nat) -> Seq<char>
    decreases n,
{
    if n == 0 || n > es.len() {
        Seq::<char>::empty()
    } else {
        endpoint_blocks(es, (n - 1) as nat) + endpoint_block(es[n - 1])
    }
}

/// The description of an API, as given to the model.
pub open spec fn api_description(spec: APISpec) -> Seq<char> {
    "API Base URL: "@ + spec.base_url@ + "\n\nEndpoints:\n"@ + endpoint_blocks(
        spec.endpoints@,
        spec.endpoints@.len(),
    )
}

// ---------------------------------------------------------------------------
// Reading an API description from JSON
// ---------------------------------------------------------------------------

/// The text of the string member `key`, or `default`.
pub open spec fn str_or(v: JsonValue, key: Seq<char>, default: Seq<char>) -> Seq<char> {
    match str_member(v, key) {
        Some(s) => s,
        None => default,
    }
}

/// The boolean member `key`, or `false`.
pub open spec fn bool_or_false(v: JsonValue, key: Seq<char>) -> bool {
    match member(v, key) {
        Some(JsonValue::Bool(b)) => b,
        _ => false,
    }
}

/// The items of the array member `key`, if there is one.
pub open spec fn array_member(v: JsonValue, key: Seq<char>) -> Option<Seq<JsonValue>> {
    match member(v, key) {
        Some(JsonValue::Array(a)) => Some(a@),
        _ => None,
    }
}

/// The parameter entries of an endpoint entry (none without a `parameters` array).
pub open spec fn param_entries(ep: JsonValue) -> Seq<JsonValue> {
    match array_member(ep, "parameters"@) {
        Some(a) => a,
        None => Seq::<JsonValue>::empty(),
    }
}

/// Whether a JSON value is an object.
pub open spec fn is_object(v: JsonValue) -> bool {
    v is Object
}

/// The first of `vs[0..n)` that is not an object, if any.
pub open spec fn first_non_object(vs: Seq<JsonValue>, n: nat) -> Option<JsonValue>
    decreases n,
{
    if n == 0 || n > vs.len() {
        None
    } else {
        match first_non_object(vs, (n - 1) as nat) {
            Some(v) => Some(v),
            None => if is_object(vs[n - 1]) {
                None
            } else {
                Some(vs[n - 1])
            },
        }
    }
}

/// The type mismatch an endpoint entry raises, if any: the entry itself is
/// not an object, or one of its parameter entries is not.
pub open spec fn endpoint_problem(ep: JsonValue) -> Option<(Seq<char>, Seq<char>)> {
    if !is_object(ep) {
        Some(("JSON object for endpoint"@, compact_json_text(ep)))
    } else {
        match first_non_object(param_entries(ep), param_entries(ep).len()) {
            Some(p) => Some(("JSON object for parameter"@, compact_json_text(p))),
            None => None,
        }
    }
}

/// The first problem among the endpoint entries `eps[0..n)`.
pub open spec fn first_endpoint_problem(eps: Seq<JsonValue>, n: nat) -> Option<
    (Seq<char>, Seq<char>),
>
    decreases n,
{
    if n == 0 || n > eps.len() {
        None
    } else {
        match first_endpoint_problem(eps, (n - 1) as nat) {
            Some(x) => Some(x),
            None => endpoint_problem(eps[n - 1]),
        }
    }
}

/// A parameter read from its JSON entry.
pub open spec fn param_from(p: ParameterSpec, v: JsonValue) -> bool {
    &&& p.name@ == str_or(v, "name"@, ""@)
    &&& p.param_type@ == str_or(v, "type"@, "string"@)
    &&& p.required == bool_or_false(v, "required"@)
    &&& p.description@ == str_or(v, "description"@, ""@)
}

/// An endpoint read from its JSON entry.
pub open spec fn endpoint_from(e: EndpointSpec, v: JsonValue) -> bool {
    &&& e.method@ == str_or(v, "method"@, "GET"@)
    &&& e.path@ == str_or(v, "path"@, "/"@)
    &&& e.description@ == str_or(v, "description"@, ""@)
    &&& e.parameters@.len() == param_entries(v).len()
    &&& forall|j: int|
        0 <= j < e.parameters@.len() ==> param_from(#[trigger] e.parameters@[j], param_entries(v)[j])
}

/// The error `from_json` reports for `v`, if any.
pub open spec fn from_json_error(v: JsonValue) -> Option<RustChainErrorModel> {
    if !is_object(v) {
        Some(RustChainErrorModel::TypeMismatch("JSON object"@, compact_json_text(v)))
    } else if str_member(v, "base_url"@) is None {
        Some(RustChainErrorModel::InvalidKey("Missing 'base_url' key"@))
    } else if array_member(v, "endpoints"@) is None {
        Some(RustChainErrorModel::InvalidKey("Missing 'endpoints' array"@))
    } else {
        let eps = array_member(v, "endpoints"@).unwrap();
        match first_endpoint_problem(eps, eps.len()) {
            Some((e, g)) => Some(RustChainErrorModel::TypeMismatch(e, g)),
            None => None,
        }
    }
}

/// An error as its kind and texts.
pub enum RustChainErrorModel {
    Other(Seq<char>),
    InvalidKey(Seq<char>),
    TypeMismatch(Seq<char>, Seq<char>),
}

/// Whether `e` is the error described by `m`.
pub open spec fn error_is(e: RustChainError, m: RustChainErrorModel) -> bool {
    match (e, m) {
        (RustChainError::Other(a), RustChainErrorModel::Other(b)) => a@ == b,
        (RustChainError::InvalidKey(a), RustChainErrorModel::InvalidKey(b)) => a@ == b,
        (
            RustChainError::TypeMismatch { expected, got },
            RustChainErrorModel::TypeMismatch(x, y),
        ) => expected@ == x && got@ == y,
        _ => false,
    }
}

/// A type mismatch error.
fn mismatch(expected: &str, got: &JsonValue) -> (r: RustChainError)
    ensures
        error_is(r, RustChainErrorModel::TypeMismatch(expected@, compact_json_text(*got))),
{
    RustChainError::TypeMismatch { expected: String::from_str(expected), got: got.to_json_text() }
}

/// The string member `key`, or `default`.
fn get_str_or(v: &JsonValue, key: &str, default: &str) -> (r: String)
    ensures
        r@ == str_or(*v, key@, default@),
{
    match v.get_str(key) {
        Some(s) => String::from_str(s),
        None => String::from_str(default),
    }
}

/// The parameter read from one entry.
fn parameter_from(p: &JsonValue) -> (r: ParameterSpec)
    ensures
        param_from(r, *p),
{
    let required = match p.get("required") {
        Some(JsonValue::Bool(b)) => *b,
        _ => false,
    };
    ParameterSpec {
        name: get_str_or(p, "name", ""),
        param_type: get_str_or(p, "type", "string"),
        required,
        description: get_str_or(p, "description", ""),
    }
}

/// The endpoint read from one entry, or the type mismatch it raises.
fn endpoint_from_json(ep: &JsonValue) -> (r: Result<EndpointSpec, RustChainError>)
    ensures
        match endpoint_problem(*ep) {
            Some((x, y)) => r matches Err(e) && error_is(e, RustChainErrorModel::TypeMismatch(x, y)),
            None => r matches Ok(s) && endpoint_from(s, *ep),
        },
{
    if !matches!(ep, JsonValue::Object(_)) {
        return Err(mismatch("JSON object for endpoint", ep));
    }
    let method = get_str_or(ep, "method", "GET");
    let path = get_str_or(ep, "path", "/");
    let description = get_str_or(ep, "description", "");
    let mut parameters: Vec<ParameterSpec> = Vec::new();
    match ep.get("parameters") {
        Some(JsonValue::Array(params)) => {
            let ghost ents = param_entries(*ep);
            assert(ents == params@);
            let mut i: usize = 0;
            while i < params.len()
                invariant
                    i <= params@.len(),
                    ents == params@,
                    is_object(*ep),
                    ents == param_entries(*ep),
                    first_non_object(ents, i as nat) is None,
                    parameters@.len() == i,
                    forall|j: int| 0 <= j < i ==> param_from(#[trigger] parameters@[j], ents[j]),
                decreases params.len() - i,
            {
                let p = &params[i];
                if !matches!(p, JsonValue::Object(_)) {
                    assert(first_non_object(ents, (i + 1) as nat) == Some(*p));
                    proof {
                        lemma_first_non_object_stays(ents, (i + 1) as nat, ents.len());
                    }
                    return Err(mismatch("JSON object for parameter", p));
                }
                parameters.push(parameter_from(p));
                i = i + 1;
            }
        },
        _ => {
            assert(param_entries(*ep).len() == 0);
        },
    }
    Ok(EndpointSpec { method, path, description, parameters })
}

proof fn lemma_first_non_object_stays(vs: Seq<JsonValue>, n: nat, m: nat)
    requires
        n <= m <= vs.len(),
        first_non_object(vs, n) is Some,
    ensures
        first_non_object(vs, m) == first_non_object(vs, n),
    decreases m - n,
{
    if m > n {
        lemma_first_non_object_stays(vs, n, (m - 1) as nat);
    }
}

proof fn lemma_first_problem_stays(eps: Seq<JsonValue>, n: nat, m: nat)
    requires
        n <= m <= eps.len(),
        first_endpoint_problem(eps, n) is Some,
    ensures
        first_endpoint_problem(eps, m) == first_endpoint_problem(eps, n),
    decreases m - n,
{
    if m > n {
        lemma_first_problem_stays(eps, n, (m - 1) as nat);
    }
}

/// Appends the lines describing `ps` to `desc`.
fn push_param_lines(desc: &mut String, ps: &Vec<ParameterSpec>)
    ensures
        final(desc)@ == old(desc)@ + param_lines(ps@, ps@.len()),
{
    let ghost head = desc@;
    let mut j: usize = 0;
    while j < ps.len()
        invariant
            j <= ps@.len(),
            desc@ == head + param_lines(ps@, j as nat),
        decreases ps.len() - j,
    {
        let p = &ps[j];
        desc.append("      - ");
        push_string(desc, &p.name);
        desc.append(" (");
        push_string(desc, &p.param_type);
        desc.append(", ");
        if p.required {
            desc.append("required");
        } else {
            desc.append("optional");
        }
        desc.append("): ");
        push_string(desc, &p.description);
        desc.append("\n");
        j = j + 1;
        assert(desc@ =~= head + param_lines(ps@, j as nat));
    }
}

impl APISpec {
    /// Start a new builder.
    pub fn builder(base_url: &str) -> (r: APISpecBuilder)
        ensures
            r.pending().base_url@ == base_url@,
            r.pending().endpoints@ == Seq::<EndpointSpec>::empty(),
    {
        APISpecBuilder::new(base_url)
    }

    /// Generate a human-readable description of the API for inclusion in LLM prompts.
    #[verifier::rlimit(30)]
    pub fn to_description(&self) -> (r: String)
        ensures
            r@ == api_description(*self),
    {
        let mut desc = String::from_str("API Base URL: ");
        push_string(&mut desc, &self.base_url);
        desc.append("\n\nEndpoints:\n");
        let mut i: usize = 0;
        while i < self.endpoints.len()
            invariant
                i <= self.endpoints@.len(),
                desc@ == "API Base URL: "@ + self.base_url@ + "\n\nEndpoints:\n"@ + endpoint_blocks(
                    self.endpoints@,
                    i as nat,
                ),
            decreases self.endpoints.len() - i,
        {
            let ghost before = desc@;
            let e = &self.endpoints[i];
            desc.append("\n  ");
            push_string(&mut desc, &e.method);
            desc.append(" ");
            push_string(&mut desc, &e.path);
            desc.append(" - ");
            push_string(&mut desc, &e.description);
            desc.append("\n");
            if e.parameters.len() > 0 {
                desc.append("    Parameters:\n");
                push_param_lines(&mut desc, &e.parameters);
            }
            i = i + 1;
            assert(desc@ =~= before + endpoint_block(self.endpoints@[i - 1]));
            assert(desc@ =~= "API Base URL: "@ + self.base_url@ + "\n\nEndpoints:\n"@
                + endpoint_blocks(self.endpoints@, i as nat));
        }
        desc
    }

    /// Parse an [`APISpec`] from a simplified JSON format: an object with a
    /// `base_url` string and an `endpoints` array of objects with optional
    /// `method` (default `GET`), `path` (default `/`), `description` and
    /// `parameters` (objects with optional `name`, `type` (default
    /// `string`), `required` and `description`).
    pub fn from_json(value: &JsonValue) -> (r: Result<APISpec, RustChainError>)
        ensures
            match from_json_error(*value) {
                Some(m) => r matches Err(e) && error_is(e, m),
                None => r matches Ok(spec) && {
                    let eps = array_member(*value, "endpoints"@).unwrap();
                    &&& spec.base_url@ == str_member(*value, "base_url"@).unwrap()
                    &&& spec.endpoints@.len() == eps.len()
                    &&& forall|k: int|
                        0 <= k < eps.len() ==> endpoint_from(#[trigger] spec.endpoints@[k], eps[k])
                },
            },
    {
        if !matches!(value, JsonValue::Object(_)) {
            return Err(mismatch("JSON object", value));
        }
        let base_url = match value.get_str("base_url") {
            Some(s) => String::from_str(s),
            None => {
                return Err(RustChainError::InvalidKey(String::from_str("Missing 'base_url' key")));
            },
        };
        let eps = match value.get("endpoints") {
            Some(JsonValue::Array(a)) => a,
            _ => {
                return Err(
                    RustChainError::InvalidKey(String::from_str("Missing 'endpoints' array")),
                );
            },
        };
        let ghost es = eps@;
        assert(array_member(*value, "endpoints"@) == Some(es));
        let mut endpoints: Vec<EndpointSpec> = Vec::new();
        let mut i: usize = 0;
        while i < eps.len()
            invariant
                i <= eps@.len(),
                es == eps@,
                is_object(*value),
                str_member(*value, "base_url"@) is Some,
                array_member(*value, "endpoints"@) == Some(es),
                first_endpoint_problem(es, i as nat) is None,
                endpoints@.len() == i,
                forall|k: int| 0 <= k < i ==> endpoint_from(#[trigger] endpoints@[k], es[k]),
            decreases eps.len() - i,
        {
            match endpoint_from_json(&eps[i]) {
                Ok(e) => {
                    endpoints.push(e);
                },
                Err(err) => {
                    proof {
                        lemma_first_problem_stays(es, (i + 1) as nat, es.len());
                    }
                    return Err(err);
                },
            }
            i = i + 1;
        }
        Ok(APISpec { base_url, endpoints })
    }
}

// ---------------------------------------------------------------------------
// RequestValidator
// ---------------------------------------------------------------------------

/// Validates constructed HTTP requests for safety.
#[derive(Debug, Clone)]
pub struct RequestValidator {
    /// The expected base URL that all requests must start with.
    base_url: String,
    /// The allowed HTTP methods, each once, in the order first given.
    allowed_methods: Vec<String>,
}

/// The set of texts held in `v`.
pub open spec fn text_set(v: Seq<String>) -> Set<Seq<char>> {
    Set::new(|t: Seq<char>| exists|i: int| 0 <= i < v.len() && (#[trigger] v[i])@ == t)
}

/// Whether no text occurs twice in `v`.
pub open spec fn distinct_texts(v: Seq<String>) -> bool {
    forall|i: int, j: int| 0 <= i < j < v.len() ==> (#[trigger] v[i])@ != (#[trigger] v[j])@
}

/// `{"A", "B"}`: the `Debug` rendering of a set holding `v[0..n)` in this order.
pub open spec fn set_debug_items(v: Seq<String>, n: nat) -> Seq<char>
    decreases n,
{
    if n == 0 || n > v.len() {
        Seq::<char>::empty()
    } else if n == 1 {
        debug_quoted(v[0]@)
    } else {
        set_debug_items(v, (n - 1) as nat) + ", "@ + debug_quoted(v[n - 1]@)
    }
}

/// The `Debug` rendering of a set of strings, listed in the order of `v`.
pub open spec fn set_debug(v: Seq<String>) -> Seq<char> {
    "{"@ + set_debug_items(v, v.len()) + "}"@
}

/// The message for a URL that holds a character that could inject headers or
/// commands, or a dangerous scheme, or double encoding; `None` for a safe URL.
pub open spec fn injection_problem(url: Seq<char>) -> Option<Seq<char>> {
    if url.contains('\n') || url.contains('\r') {
        Some("URL contains newline characters (possible header injection)"@)
    } else if url.contains('`') {
        Some("URL contains backtick characters (possible injection)"@)
    } else if contains_seq(lowercase_of(url), "javascript:"@) {
        Some("URL contains 'javascript:' scheme (possible injection)"@)
    } else if lowercase_of(url).len() >= 5 && lowercase_of(url).subrange(0, 5) == "data:"@ {
        Some("URL uses 'data:' scheme (possible injection)"@)
    } else if outcome_hit(regex_outcome("%25[0-9a-fA-F]{2}"@, url)) {
        Some("URL contains double-encoded characters (possible injection)"@)
    } else {
        None
    }
}

/// The error `validate` reports for `request`, if any.
pub open spec fn request_error(v: RequestValidator, request: JsonValue) -> Option<
    RustChainErrorModel,
> {
    if !is_object(request) {
        Some(RustChainErrorModel::TypeMismatch("JSON object"@, compact_json_text(request)))
    } else if str_member(request, "method"@) is None {
        Some(RustChainErrorModel::InvalidKey("Missing 'method' in request"@))
    } else if !text_set(v.allowed_list()).contains(
        uppercase_of(str_member(request, "method"@).unwrap()),
    ) {
        Some(
            RustChainErrorModel::Other(
                "HTTP method '"@ + uppercase_of(str_member(request, "method"@).unwrap())
                    + "' is not allowed. Allowed methods: "@ + set_debug(v.allowed_list()),
            ),
        )
    } else if str_member(request, "url"@) is None {
        Some(RustChainErrorModel::InvalidKey("Missing 'url' in request"@))
    } else {
        let url = str_member(request, "url"@).unwrap();
        if !(v.base().len() <= url.len() && url.subrange(0, v.base().len() as int)
            == v.base()) {
            Some(
                RustChainErrorModel::Other(
                    "URL '"@ + url + "' does not start with expected base URL '"@ + v.base()
                        + "'"@,
                ),
            )
        } else {
            match injection_problem(url) {
                Some(m) => Some(RustChainErrorModel::Other(m)),
                None => None,
            }
        }
    }
}

/// Whether `s` is among `v`.
fn holds_text(v: &Vec<String>, s: &str) -> (r: bool)
    ensures
        r == text_set(v@).contains(s@),
{
    let mut i: usize = 0;
    while i < v.len()
        invariant
            i <= v@.len(),
            forall|k: int| 0 <= k < i ==> (#[trigger] v@[k])@ != s@,
        decreases v.len() - i,
    {
        if str_eq(v[i].as_str(), s) {
            assert(text_set(v@).contains(s@));
            return true;
        }
        i = i + 1;
    }
    false
}

impl RequestValidator {
    /// The base URL every request must start with.
    pub closed spec fn base(&self) -> Seq<char> {
        self.base_url@
    }

    /// The allowed methods, in the order they were first given.
    pub closed spec fn allowed_list(&self) -> Seq<String> {
        self.allowed_methods@
    }

    /// The allowed methods.
    pub closed spec fn methods(&self) -> Set<Seq<char>> {
        text_set(self.allowed_methods@)
    }

    /// The list of allowed methods is duplicate-free.
    pub closed spec fn wf(&self) -> bool {
        distinct_texts(self.allowed_methods@)
    }

    /// Create a new validator for the given base URL and allowed methods.
    pub fn new(base_url: &str, allowed_methods: &Vec<String>) -> (r: Self)
        ensures
            r.wf(),
            r.base() == base_url@,
            r.methods() == text_set(allowed_methods@),
    {
        let mut kept: Vec<String> = Vec::new();
        let mut i: usize = 0;
        while i < allowed_methods.len()
            invariant
                i <= allowed_methods@.len(),
                distinct_texts(kept@),
                text_set(kept@) == text_set(allowed_methods@.subrange(0, i as int)),
            decreases allowed_methods.len() - i,
        {
            let m = &allowed_methods[i];
            let ghost before = kept@;
            assert(allowed_methods@.subrange(0, i + 1) =~= allowed_methods@.subrange(0, i as int).push(
                *m,
            ));
            if !holds_text(&kept, m.as_str()) {
                kept.push(m.clone());
                assert(text_set(kept@) =~= text_set(allowed_methods@.subrange(0, i + 1))) by {
                    assert forall|t: Seq<char>| text_set(kept@).contains(t) implies text_set(
                        allowed_methods@.subrange(0, i + 1),
                    ).contains(t) by {
                        let k = choose|k: int| 0 <= k < kept@.len() && (#[trigger] kept@[k])@ == t;
                        if k < before.len() {
                            assert(text_set(before).contains(t));
                            let k2 = choose|k2: int|
                                0 <= k2 < i && (#[trigger] allowed_methods@.subrange(
                                    0,
                                    i as int,
                                )[k2])@ == t;
                            assert(allowed_methods@.subrange(0, i + 1)[k2] == allowed_methods@.subrange(
                                0,
                                i as int,
                            )[k2]);
                        } else {
                            assert(allowed_methods@.subrange(0, i + 1)[i as int] == *m);
                        }
                    }
                    assert forall|t: Seq<char>| text_set(
                        allowed_methods@.subrange(0, i + 1),
                    ).contains(t) implies text_set(kept@).contains(t) by {
                        let k = choose|k: int|
                            0 <= k < i + 1 && (#[trigger] allowed_methods@.subrange(0, i + 1)[k])@
                                == t;
                        if k < i {
                            assert(allowed_methods@.subrange(0, i as int)[k] == allowed_methods@.subrange(
                                0,
                                i + 1,
                            )[k]);
                            assert(text_set(allowed_methods@.subrange(0, i as int)).contains(t));
                            assert(text_set(before).contains(t));
                            let k2 = choose|k2: int| 0 <= k2 < before.len() && (#[trigger] before[k2])@ == t;
                            assert(kept@[k2] == before[k2]);
                        } else {
                            assert(kept@[before.len() as int]@ == t);
                        }
                    }
                }
            } else {
                assert(text_set(kept@) =~= text_set(allowed_methods@.subrange(0, i + 1))) by {
                    assert forall|t: Seq<char>| text_set(
                        allowed_methods@.subrange(0, i + 1),
                    ).contains(t) implies text_set(kept@).contains(t) by {
                        let k = choose|k: int|
                            0 <= k < i + 1 && (#[trigger] allowed_methods@.subrange(0, i + 1)[k])@
                                == t;
                        if k < i {
                            assert(allowed_methods@.subrange(0, i as int)[k] == allowed_methods@.subrange(
                                0,
                                i + 1,
                            )[k]);
                            assert(text_set(allowed_methods@.subrange(0, i as int)).contains(t));
                        }
                    }
                    assert forall|t: Seq<char>| text_set(kept@).contains(t) implies text_set(
                        allowed_methods@.subrange(0, i + 1),
                    ).contains(t) by {
                        assert(text_set(allowed_methods@.subrange(0, i as int)).contains(t));
                        let k2 = choose|k2: int|
                            0 <= k2 < i && (#[trigger] allowed_methods@.subrange(0, i as int)[k2])@
                                == t;
                        assert(allowed_methods@.subrange(0, i + 1)[k2] == allowed_methods@.subrange(
                            0,
                            i as int,
                        )[k2]);
                    }
                }
            }
            i = i + 1;
        }
        assert(allowed_methods@.subrange(0, allowed_methods@.len() as int) =~= allowed_methods@);
        RequestValidator { base_url: String::from_str(base_url), allowed_methods: kept }
    }

    /// The `Debug` rendering of the allowed methods.
    fn methods_debug(&self) -> (r: String)
        ensures
            r@ == set_debug(self.allowed_list()),
    {
        let mut out = String::from_str("{");
        let mut i: usize = 0;
        while i < self.allowed_methods.len()
            invariant
                i <= self.allowed_methods@.len(),
                out@ == "{"@ + set_debug_items(self.allowed_methods@, i as nat),
            decreases self.allowed_methods.len() - i,
        {
            if i > 0 {
                out.append(", ");
            }
            let d = debug_string(self.allowed_methods[i].as_str());
            push_string(&mut out, &d);
            i = i + 1;
            assert(out@ =~= "{"@ + set_debug_items(self.allowed_methods@, i as nat));
        }
        out.append("}");
        out
    }

    /// Validate an HTTP request described as a JSON object.
    ///
    /// Checks:
    /// - The `method` is in the allowed set.
    /// - The `url` starts with the expected `base_url`.
    /// - The `url` does not contain injection patterns (newlines, backticks, etc.).
    pub fn validate(&self, request: &JsonValue) -> (r: Result<(), RustChainError>)
        ensures
            match request_error(*self, *request) {
                Some(m) => r matches Err(e) && error_is(e, m),
                None => r is Ok,
            },
    {
        if !matches!(request, JsonValue::Object(_)) {
            return Err(mismatch("JSON object", request));
        }
        let method = match request.get_str("method") {
            Some(m) => to_uppercase(m),
            None => {
                return Err(
                    RustChainError::InvalidKey(String::from_str("Missing 'method' in request")),
                );
            },
        };
        if !holds_text(&self.allowed_methods, method.as_str()) {
            let mut msg = String::from_str("HTTP method '");
            push_string(&mut msg, &method);
            msg.append("' is not allowed. Allowed methods: ");
            let d = self.methods_debug();
            push_string(&mut msg, &d);
            return Err(RustChainError::Other(msg));
        }
        let url = match request.get_str("url") {
            Some(u) => u,
            None => {
                return Err(RustChainError::InvalidKey(String::from_str("Missing 'url' in request")));
            },
        };
        if !starts_with(url, self.base_url.as_str()) {
            let mut msg = String::from_str("URL '");
            msg.append(url);
            msg.append("' does not start with expected base URL '");
            push_string(&mut msg, &self.base_url);
            msg.append("'");
            return Err(RustChainError::Other(msg));
        }
        Self::check_url_injection(url)
    }

    /// Check a URL for common injection patterns.
    pub fn check_url_injection(url: &str) -> (r: Result<(), RustChainError>)
        ensures
            match injection_problem(url@) {
                Some(m) => r matches Err(RustChainError::Other(e)) && e@ == m,
                None => r is Ok,
            },
    {
        if contains_char(url, '\n') || contains_char(url, '\r') {
            return Err(
                RustChainError::Other(
                    String::from_str("URL contains newline characters (possible header injection)"),
                ),
            );
        }
        if contains_char(url, '`') {
            return Err(
                RustChainError::Other(
                    String::from_str("URL contains backtick characters (possible injection)"),
                ),
            );
        }
        let lower = to_lowercase(url);
        if contains_str(lower.as_str(), "javascript:") {
            return Err(
                RustChainError::Other(
                    String::from_str("URL contains 'javascript:' scheme (possible injection)"),
                ),
            );
        }
        if starts_with(lower.as_str(), "data:") {
            proof {
                reveal_strlit("data:");
            }
            return Err(
                RustChainError::Other(String::from_str("URL uses 'data:' scheme (possible injection)")),
            );
        }
        proof {
            reveal_strlit("data:");
        }
        if regex_matches("%25[0-9a-fA-F]{2}", url) {
            return Err(
                RustChainError::Other(
                    String::from_str("URL contains double-encoded characters (possible injection)"),
                ),
            );
        }
        Ok(())
    }
}

// ---------------------------------------------------------------------------
// Reading a request out of a model reply
// ---------------------------------------------------------------------------

/// The pattern of a fenced code block, optionally marked `json`.
pub open spec fn json_block_pattern() -> Seq<char> {
    "(?is)```(?:json)?\\s*\\n?(.*?)\\n?\\s*```"@
}

/// The text a request is looked for in: the trimmed body of the first
/// fenced block of the trimmed reply, else the trimmed reply.
pub open spec fn block_or_reply(trimmed: Seq<char>, caps: Result<Seq<Seq<Option<Seq<char>>>>, Seq<char>>) -> Seq<char> {
    match caps {
        Ok(c) => if c.len() > 0 {
            trim_ws(group_text(c[0], 1))
        } else {
            trimmed
        },
        Err(_) => trimmed,
    }
}

/// The position of the first `{` in `s[k..)`, if any.
pub open spec fn first_brace(s: Seq<char>, k: int) -> Option<int>
    decreases s.len() - k,
{
    if k < 0 || k >= s.len() {
        None
    } else if s[k] == '{' {
        Some(k)
    } else {
        first_brace(s, k + 1)
    }
}

/// The nesting depth of braces opened in `s[start..k)`.
pub open spec fn brace_depth(s: Seq<char>, start: int, k: int) -> int
    decreases k - start,
{
    if k <= start {
        0
    } else {
        brace_depth(s, start, k - 1) + if s[k - 1] == '{' {
            1int
        } else if s[k - 1] == '}' {
            -1int
        } else {
            0int
        }
    }
}

/// Where the object that opens at `start` ends: just after the first `}`
/// from position `k` on that brings the depth back to zero; `start` itself
/// when none does.
pub open spec fn object_end(s: Seq<char>, start: int, k: int) -> int
    decreases s.len() + 1 - k,
{
    if k > s.len() || k < 0 {
        start
    } else if k > start && s[k - 1] == '}' && brace_depth(s, start, k) == 0 {
        k
    } else {
        object_end(s, start, k + 1)
    }
}

/// What reading a request out of reply text `s` (the trimmed reply being
/// `trimmed`) gives: the first braced object in it parsed as JSON.
pub open spec fn request_read(s: Seq<char>, trimmed: Seq<char>, r: Result<JsonValue, RustChainError>) -> bool {
    match first_brace(s, 0) {
        None => r matches Err(RustChainError::Other(m)) && m@ == "Could not find JSON object in LLM response: "@
            + trimmed,
        Some(st) => match parsed_json(s.subrange(st, object_end(s, st, st + 1))) {
            Ok(v) => r == Ok::<JsonValue, RustChainError>(v),
            Err(e) => r matches Err(RustChainError::Other(m)) && m@ == "Failed to parse LLM response as JSON: "@
                + e,
        },
    }
}

/// The position of the first `{` of `s` from `k` on.
fn find_brace(s: &Vec<char>, k: usize) -> (r: Option<usize>)
    requires
        k <= s@.len(),
    ensures
        match r {
            Some(i) => first_brace(s@, k as int) == Some(i as int) && i < s@.len() && s@[i as int]
                == '{',
            None => first_brace(s@, k as int) is None,
        },
    decreases s@.len() - k,
{
    if k >= s.len() {
        None
    } else if s[k] == '{' {
        Some(k)
    } else {
        find_brace(s, k + 1)
    }
}

/// Where the object opening at `start` ends.
fn find_object_end(s: &Vec<char>, start: usize) -> (r: usize)
    requires
        start < s@.len(),
        s@[start as int] == '{',
    ensures
        r == object_end(s@, start as int, start as int + 1),
        start <= r <= s@.len(),
{
    let mut depth: usize = 0;
    let mut k: usize = start;
    while k < s.len()
        invariant
            start <= k <= s@.len(),
            s@[start as int] == '{',
            depth as int == brace_depth(s@, start as int, k as int),
            depth <= k - start,
            k > start ==> depth > 0,
            object_end(s@, start as int, start as int + 1) == object_end(s@, start as int, k as int + 1),
        decreases s@.len() - k,
    {
        let c = s[k];
        if c == '{' {
            depth = depth + 1;
        } else if c == '}' {
            depth = depth - 1;
            if depth == 0 {
                return k + 1;
            }
        }
        k = k + 1;
    }
    start
}

/// Reads the request in reply text `s`.
pub fn request_from_text(s: &str, trimmed: &str) -> (r: Result<JsonValue, RustChainError>)
    ensures
        request_read(s@, trimmed@, r),
{
    let cs = chars_of(s);
    match find_brace(&cs, 0) {
        None => {
            let mut m = String::from_str("Could not find JSON object in LLM response: ");
            m.append(trimmed);
            Err(RustChainError::Other(m))
        },
        Some(st) => {
            let end = find_object_end(&cs, st);
            let text = char_range(&cs, st, end);
            match parse_json(text.as_str()) {
                Ok(v) => Ok(v),
                Err(e) => {
                    let mut m = String::from_str("Failed to parse LLM response as JSON: ");
                    push_string(&mut m, &e);
                    Err(RustChainError::Other(m))
                },
            }
        },
    }
}

// ---------------------------------------------------------------------------
// APIChain
// ---------------------------------------------------------------------------

/// The default prompt: the API description, then the question, asking for a
/// JSON request object only.
pub open spec fn default_api_prompt() -> Seq<char> {
    "You are an API request constructor. Given the following API specification and a user question, construct the appropriate HTTP request.\n\n{api_description}\n\nUser question: {question}\n\nRespond with ONLY a JSON object in this exact format (no markdown, no explanation):\n{{\"method\": \"GET\", \"url\": \"https://...\", \"headers\": {{}}, \"body\": null}}"@
}

/// Whether `a` is the object `{"question": question, "request": request}`.
pub open spec fn is_answer(a: JsonValue, question: Seq<char>, request: JsonValue) -> bool {
    match a {
        JsonValue::Object(ms) => {
            &&& ms@.len() == 2
            &&& ms@[0].0@ == "question"@
            &&& ms@[0].1 is Str
            &&& ms@[0].1->Str_0@ == question
            &&& ms@[1].0@ == "request"@
            &&& ms@[1].1 == request
        },
        _ => false,
    }
}

/// The settings of a chain that turns questions into HTTP requests: the API,
/// whether requests are sent, the allowed methods and the prompt. The model
/// that writes the request is held by the caller.
pub struct APIChain {
    /// The API requests are built for.
    pub api_spec: APISpec,
    /// Whether validated requests are sent.
    pub execute_requests: bool,
    /// The allowed HTTP methods.
    pub allowed_methods: Vec<String>,
    /// The prompt, with `{api_description}` and `{question}` placeholders.
    pub prompt_template: String,
}

/// Builds an [`APIChain`].
pub struct APIChainBuilder {
    /// The API, once given.
    pub api_spec: Option<APISpec>,
    /// Whether validated requests are sent.
    pub execute_requests: bool,
    /// The allowed HTTP methods.
    pub allowed_methods: Vec<String>,
    /// The prompt.
    pub prompt_template: String,
}

impl APIChainBuilder {
    /// A builder with the default prompt, `GET` alone allowed, and requests
    /// not sent.
    pub fn new() -> (r: Self)
        ensures
            r.api_spec is None,
            !r.execute_requests,
            text_set(r.allowed_methods@) == set!["GET"@],
            r.prompt_template@ == default_api_prompt(),
    {
        let mut allowed: Vec<String> = Vec::new();
        allowed.push(String::from_str("GET"));
        proof {
            assert(text_set(allowed@) =~= set!["GET"@]) by {
                assert(allowed@[0]@ == "GET"@);
            }
        }
        APIChainBuilder {
            api_spec: None,
            execute_requests: false,
            allowed_methods: allowed,
            prompt_template: String::from_str(
                "You are an API request constructor. Given the following API specification and a user question, construct the appropriate HTTP request.\n\n{api_description}\n\nUser question: {question}\n\nRespond with ONLY a JSON object in this exact format (no markdown, no explanation):\n{{\"method\": \"GET\", \"url\": \"https://...\", \"headers\": {{}}, \"body\": null}}",
            ),
        }
    }

    /// Sets the API.
    pub fn api_spec(self, spec: APISpec) -> (r: Self)
        ensures
            r.api_spec == Some(spec),
            r.execute_requests == self.execute_requests,
            r.allowed_methods == self.allowed_methods,
            r.prompt_template == self.prompt_template,
    {
        APIChainBuilder { api_spec: Some(spec), ..self }
    }

    /// Turns the sending of requests on or off.
    pub fn execute_requests(self, execute: bool) -> (r: Self)
        ensures
            r.execute_requests == execute,
            r.api_spec == self.api_spec,
            r.allowed_methods == self.allowed_methods,
            r.prompt_template == self.prompt_template,
    {
        APIChainBuilder { execute_requests: execute, ..self }
    }

    /// Sets the allowed methods.
    pub fn allowed_methods(self, methods: Vec<String>) -> (r: Self)
        ensures
            r.allowed_methods == methods,
            r.api_spec == self.api_spec,
            r.execute_requests == self.execute_requests,
            r.prompt_template == self.prompt_template,
    {
        APIChainBuilder { allowed_methods: methods, ..self }
    }

    /// Allows one more method, taken in upper case.
    pub fn allow_method(self, method: &str) -> (r: Self)
        ensures
            text_set(r.allowed_methods@) == text_set(self.allowed_methods@).insert(uppercase_of(method@)),
            r.api_spec == self.api_spec,
            r.execute_requests == self.execute_requests,
            r.prompt_template == self.prompt_template,
    {
        let up = to_uppercase(method);
        let mut methods = self.allowed_methods;
        let ghost before = methods@;
        if !holds_text(&methods, up.as_str()) {
            methods.push(up);
            proof {
                assert(text_set(methods@) =~= text_set(before).insert(uppercase_of(method@))) by {
                    assert(methods@[before.len() as int]@ == uppercase_of(method@));
                    assert forall|t: Seq<char>| text_set(before).contains(t) implies text_set(
                        methods@,
                    ).contains(t) by {
                        let k = choose|k: int| 0 <= k < before.len() && (#[trigger] before[k])@ == t;
                        assert(methods@[k] == before[k]);
                    }
                    assert forall|t: Seq<char>| text_set(methods@).contains(t) implies text_set(
                        before,
                    ).insert(uppercase_of(method@)).contains(t) by {
                        let k = choose|k: int| 0 <= k < methods@.len() && (#[trigger] methods@[k])@ == t;
                        if k < before.len() {
                            assert(before[k] == methods@[k]);
                        }
                    }
                }
            }
        } else {
            proof {
                assert(text_set(methods@) =~= text_set(before).insert(uppercase_of(method@)));
            }
        }
        APIChainBuilder { allowed_methods: methods, ..self }
    }

    /// Sets the prompt.
    pub fn prompt_template(self, template: &str) -> (r: Self)
        ensures
            r.prompt_template@ == template@,
            r.api_spec == self.api_spec,
            r.execute_requests == self.execute_requests,
            r.allowed_methods == self.allowed_methods,
    {
        APIChainBuilder { prompt_template: String::from_str(template), ..self }
    }

    /// The chain; the API must have been given.
    pub fn build(self) -> (r: APIChain)
        requires
            self.api_spec is Some,
        ensures
            Some(r.api_spec) == self.api_spec,
            r.execute_requests == self.execute_requests,
            r.allowed_methods == self.allowed_methods,
            r.prompt_template == self.prompt_template,
    {
        let api_spec = match self.api_spec {
            Some(s) => s,
            None => APISpec { base_url: String::new(), endpoints: Vec::new() },
        };
        APIChain {
            api_spec,
            execute_requests: self.execute_requests,
            allowed_methods: self.allowed_methods,
            prompt_template: self.prompt_template,
        }
    }
}

impl APIChain {
    /// A builder with the default settings.
    pub fn builder() -> (r: APIChainBuilder)
        ensures
            r.api_spec is None,
            !r.execute_requests,
            text_set(r.allowed_methods@) == set!["GET"@],
            r.prompt_template@ == default_api_prompt(),
    {
        APIChainBuilder::new()
    }

    /// The prompt for `input`: the template with `{api_description}` taking
    /// the API's description and the other placeholders taken from `input`.
    pub fn format_prompt(&self, input: &JsonValue) -> (r: Result<String, RustChainError>)
        ensures
            template_filled(
                self.prompt_template@,
                "input"@,
                "api_description"@,
                api_description(self.api_spec),
                *input,
                r,
            ),
    {
        let description = self.api_spec.to_description();
        fill_template(self.prompt_template.as_str(), "input", "api_description", description.as_str(), input)
    }

    /// The text a request is looked for in, given the trimmed reply and the
    /// code blocks found in it.
    pub fn request_text(trimmed: &str, caps: &Result<Vec<Vec<Option<String>>>, String>) -> (r: String)
        ensures
            r@ == block_or_reply(
                trimmed@,
                match caps {
                    Ok(c) => Ok(captures_view(c@)),
                    Err(e) => Err(e@),
                },
            ),
    {
        match caps {
            Ok(c) => {
                if c.len() > 0 {
                    let g = group_of(&c[0], 1);
                    trim_text(g.as_str())
                } else {
                    String::from_str(trimmed)
                }
            },
            Err(_) => String::from_str(trimmed),
        }
    }

    /// The request object in a model reply: the first braced object of the
    /// body of its first fenced code block, else of the whole reply.
    pub fn extract_request(response: &str) -> (r: Result<JsonValue, RustChainError>)
        ensures
            request_read(
                block_or_reply(
                    trim_ws(response@),
                    regex_captures(json_block_pattern(), trim_ws(response@)),
                ),
                trim_ws(response@),
                r,
            ),
    {
        let trimmed = trim_text(response);
        let caps = captures_all("(?is)```(?:json)?\\s*\\n?(.*?)\\n?\\s*```", trimmed.as_str());
        let text = Self::request_text(trimmed.as_str(), &caps);
        request_from_text(text.as_str(), trimmed.as_str())
    }

    /// The name the chain runs under.
    pub fn name(&self) -> (r: &'static str)
        ensures
            r@ == "APIChain"@,
    {
        "APIChain"
    }

    /// The question of an input: its string member `question`.
    pub fn question_of(input: &JsonValue) -> (r: Result<String, RustChainError>)
        ensures
            match str_member(*input, "question"@) {
                Some(q) => r matches Ok(s) && s@ == q,
                None => r matches Err(RustChainError::InvalidKey(m))
                    && m@ == "Input must be a JSON object with a 'question' key"@,
            },
    {
        match input.get_str("question") {
            Some(q) => Ok(String::from_str(q)),
            None => Err(
                RustChainError::InvalidKey(
                    String::from_str("Input must be a JSON object with a 'question' key"),
                ),
            ),
        }
    }

    /// The answer to `question` once the model's reply gave `request`: the
    /// error of the chain's check, or an object holding the question and the
    /// request. (Sending the request, when the chain does, is left to the
    /// caller.) The check lists the allowed methods in an order of its own.
    pub fn respond(&self, question: &str, request: JsonValue) -> (r: Result<JsonValue, RustChainError>)
        ensures
            exists|v: RequestValidator|
                {
                    &&& v.wf()
                    &&& v.base() == self.api_spec.base_url@
                    &&& v.methods() == text_set(self.allowed_methods@)
                    &&& match request_error(v, request) {
                        Some(m) => r matches Err(e) && error_is(e, m),
                        None => r matches Ok(a) && is_answer(a, question@, request),
                    }
                },
    {
        let v = self.validator();
        match v.validate(&request) {
            Err(e) => Err(e),
            Ok(()) => {
                let mut ms: Vec<(String, JsonValue)> = Vec::new();
                ms.push((String::from_str("question"), JsonValue::Str(String::from_str(question))));
                ms.push((String::from_str("request"), request));
                Ok(JsonValue::Object(ms))
            },
        }
    }

    /// The check the requests of this chain must pass.
    pub fn validator(&self) -> (r: RequestValidator)
        ensures
            r.wf(),
            r.base() == self.api_spec.base_url@,
            r.methods() == text_set(self.allowed_methods@),
    {
        RequestValidator::new(self.api_spec.base_url.as_str(), &self.allowed_methods)
    }
}

// ---------------------------------------------------------------------------
// Sending a validated request
// ---------------------------------------------------------------------------

/// What an HTTP call is made with: the method (one of the seven the chain
/// sends), the URL, the string-valued headers in order, and the JSON body
/// when there is one.
#[derive(Debug)]
pub struct HttpPlan {
    /// The method, upper-cased.
    pub method: String,
    /// The URL.
    pub url: String,
    /// The headers whose value is a string, in the request's order.
    pub headers: Vec<(String, String)>,
    /// The body, when the request has one that is not null.
    pub body: Option<JsonValue>,
}

/// The method a request names, upper-cased; `GET` when it names none.
pub open spec fn request_method(request: JsonValue) -> Seq<char> {
    match str_member(request, "method"@) {
        Some(m) => uppercase_of(m),
        None => "GET"@,
    }
}

/// Whether the chain sends requests with method `m`.
pub open spec fn sendable_method(m: Seq<char>) -> bool {
    m == "GET"@ || m == "POST"@ || m == "PUT"@ || m == "DELETE"@ || m == "PATCH"@ || m == "HEAD"@
        || m == "OPTIONS"@
}

/// The members among `ms[0..n)` whose value is a string, as texts.
pub open spec fn string_members(ms: Seq<(String, JsonValue)>, n: nat) -> Seq<(Seq<char>, Seq<char>)>
    decreases n,
{
    if n == 0 || n > ms.len() {
        Seq::empty()
    } else if ms[n - 1].1 is Str {
        string_members(ms, (n - 1) as nat).push((ms[n - 1].0@, ms[n - 1].1->Str_0@))
    } else {
        string_members(ms, (n - 1) as nat)
    }
}

/// The string-valued headers of a request: those of its `headers` object.
pub open spec fn request_headers(request: JsonValue) -> Seq<(Seq<char>, Seq<char>)> {
    match member(request, "headers"@) {
        Some(JsonValue::Object(ms)) => string_members(ms@, ms@.len()),
        _ => Seq::empty(),
    }
}

/// The texts of a list of header pairs.
pub open spec fn header_texts(v: Seq<(String, String)>) -> Seq<(Seq<char>, Seq<char>)> {
    v.map_values(|h: (String, String)| (h.0@, h.1@))
}

/// Whether `b` is the body a request sends: its `body` member when that is
/// not null (the same JSON text), else none.
pub open spec fn planned_body(request: JsonValue, b: Option<JsonValue>) -> bool {
    match member(request, "body"@) {
        Some(x) => if x is Null {
            b is None
        } else {
            b matches Some(y) && json_text(y) == json_text(x)
        },
        None => b is None,
    }
}

/// Whether `v` is the result of a call that answered `status` with
/// `body_text`: `{"body": .., "status": ..}`, the body being the value the
/// text parses to, else the text as a string.
pub open spec fn response_object(v: JsonValue, status: u16, body_text: Seq<char>) -> bool {
    match v {
        JsonValue::Object(ms) => {
            &&& ms@.len() == 2
            &&& ms@[0].0@ == "body"@
            &&& match parsed_json(body_text) {
                Ok(x) => ms@[0].1 == x,
                Err(_) => ms@[0].1 is Str && ms@[0].1->Str_0@ == body_text,
            }
            &&& ms@[1].0@ == "status"@
            &&& ms@[1].1 is Number
            &&& ms@[1].1->Number_0@ == decimal(status as nat)
        },
        _ => false,
    }
}

/// Whether `m` is one of the seven methods.
fn is_sendable(m: &str) -> (r: bool)
    ensures
        r == sendable_method(m@),
{
    str_eq(m, "GET") || str_eq(m, "POST") || str_eq(m, "PUT") || str_eq(m, "DELETE") || str_eq(
        m,
        "PATCH",
    ) || str_eq(m, "HEAD") || str_eq(m, "OPTIONS")
}

/// The string-valued members of an object, in order.
fn string_headers(ms: &Vec<(String, JsonValue)>) -> (r: Vec<(String, String)>)
    ensures
        header_texts(r@) == string_members(ms@, ms@.len()),
{
    let mut out: Vec<(String, String)> = Vec::new();
    let mut i: usize = 0;
    while i < ms.len()
        invariant
            i <= ms@.len(),
            header_texts(out@) == string_members(ms@, i as nat),
        decreases ms.len() - i,
    {
        let ghost before = out@;
        match &ms[i].1 {
            JsonValue::Str(v) => {
                out.push((ms[i].0.clone(), v.clone()));
                assert(header_texts(out@) =~= header_texts(before).push((ms@[i as int].0@, v@)));
            },
            _ => {},
        }
        i = i + 1;
    }
    out
}

/// What an HTTP call for `request` is made with: a missing `url` string is
/// refused first, then a method other than `GET`, `POST`, `PUT`, `DELETE`,
/// `PATCH`, `HEAD` and `OPTIONS` (the method defaults to `GET` and is
/// upper-cased); otherwise the plan keeps the string-valued headers and the
/// body unless it is null.
pub fn http_request_plan(request: &JsonValue) -> (r: Result<HttpPlan, RustChainError>)
    ensures
        str_member(*request, "url"@) is None ==> (r matches Err(RustChainError::InvalidKey(m)) && m@
            == "Missing 'url' in request"@),
        str_member(*request, "url"@) is Some && !sendable_method(request_method(*request)) ==> (
        r matches Err(RustChainError::Other(m)) && m@ == "Unsupported HTTP method: "@
            + request_method(*request)),
        str_member(*request, "url"@) is Some && sendable_method(request_method(*request)) ==> (
        r matches Ok(p) && p.method@ == request_method(*request) && p.url@ == str_member(
            *request,
            "url"@,
        ).unwrap() && header_texts(p.headers@) == request_headers(*request) && planned_body(
            *request,
            p.body,
        )),
{
    let method = match request.get_str("method") {
        Some(m) => to_uppercase(m),
        None => String::from_str("GET"),
    };
    let url = match request.get_str("url") {
        Some(u) => String::from_str(u),
        None => {
            return Err(RustChainError::InvalidKey(String::from_str("Missing 'url' in request")));
        },
    };
    if !is_sendable(method.as_str()) {
        let mut m = String::from_str("Unsupported HTTP method: ");
        push_string(&mut m, &method);
        return Err(RustChainError::Other(m));
    }
    let headers = match request.get("headers") {
        Some(JsonValue::Object(ms)) => string_headers(ms),
        _ => {
            let h: Vec<(String, String)> = Vec::new();
            assert(header_texts(h@) =~= Seq::empty());
            h
        },
    };
    let body = match request.get("body") {
        Some(b) => match b {
            JsonValue::Null => None,
            _ => Some(b.copy()),
        },
        None => None,
    };
    Ok(HttpPlan { method, url, headers, body })
}

/// The result of a call that answered `status` with `body_text`: the
/// body parsed as JSON (the text itself when it does not parse) beside the
/// status.
pub fn http_response_value(status: u16, body_text: &str) -> (r: JsonValue)
    ensures
        response_object(r, status, body_text@),
{
    let body = match parse_json(body_text) {
        Ok(v) => v,
        Err(_) => JsonValue::Str(String::from_str(body_text)),
    };
    let mut ms: Vec<(String, JsonValue)> = Vec::new();
    ms.push((String::from_str("body"), body));
    ms.push((String::from_str("status"), JsonValue::Number(u64_to_string(status as u64))));
    JsonValue::Object(ms)
}

} // verus!
