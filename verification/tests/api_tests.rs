use rustchain::chains::api::{
    http_request_plan, http_response_value, APIChain, APISpec, EndpointSpec, EndpointSpecBuilder, ParameterSpecBuilder, RequestValidator,
};
use rustchain::error::RustChainError;
use rustchain::json::JsonValue;

fn s(x: &str) -> JsonValue {
    JsonValue::Str(x.to_string())
}

fn obj(pairs: Vec<(&str, JsonValue)>) -> JsonValue {
    JsonValue::Object(pairs.into_iter().map(|(k, v)| (k.to_string(), v)).collect())
}

fn message(e: &RustChainError) -> String {
    match e {
        RustChainError::Other(m) => m.clone(),
        RustChainError::InvalidKey(m) => m.clone(),
        RustChainError::TypeMismatch { expected, got } => format!("{expected} {got}"),
        other => format!("{other:?}"),
    }
}

fn request(method: &str, url: &str) -> JsonValue {
    obj(vec![
        ("method", s(method)),
        ("url", s(url)),
        ("headers", obj(vec![])),
        ("body", JsonValue::Null),
    ])
}

fn get_only() -> RequestValidator {
    RequestValidator::new("https://api.example.com", &vec!["GET".to_string()])
}

fn sample_api_spec() -> APISpec {
    APISpec::builder("https://api.example.com")
        .endpoint(
            EndpointSpecBuilder::new("GET", "/users")
                .description("List all users")
                .parameter(
                    ParameterSpecBuilder::new("limit", "integer")
                        .required(false)
                        .description("Maximum number of results")
                        .build(),
                )
                .build(),
        )
        .endpoint(
            EndpointSpecBuilder::new("GET", "/users/{id}")
                .description("Get a specific user by ID")
                .parameter(
                    ParameterSpecBuilder::new("id", "integer")
                        .required(true)
                        .description("User ID")
                        .build(),
                )
                .build(),
        )
        .endpoint(
            EndpointSpecBuilder::new("POST", "/users")
                .description("Create a new user")
                .parameter(
                    ParameterSpecBuilder::new("name", "string")
                        .required(true)
                        .description("User name")
                        .build(),
                )
                .parameter(
                    ParameterSpecBuilder::new("email", "string")
                        .required(true)
                        .description("User email")
                        .build(),
                )
                .build(),
        )
        .build()
}

#[test]
fn test_api_spec_to_description() {
    let spec = sample_api_spec();
    let desc = spec.to_description();

    assert!(desc.contains("API Base URL: https://api.example.com"));
    assert!(desc.contains("GET /users - List all users"));
    assert!(desc.contains("GET /users/{id} - Get a specific user by ID"));
    assert!(desc.contains("POST /users - Create a new user"));
    assert!(desc.contains("limit (integer, optional)"));
    assert!(desc.contains("id (integer, required)"));
    assert!(desc.contains("name (string, required)"));
    assert!(desc.contains("email (string, required)"));
}

#[test]
fn test_request_validation_valid_url() {
    let validator = get_only();
    let request = request("GET", "https://api.example.com/users?limit=10");
    assert!(validator.validate(&request).is_ok());
}

#[test]
fn test_request_validation_invalid_method_rejected() {
    let validator = get_only();
    let request = request("DELETE", "https://api.example.com/users/1");
    let result = validator.validate(&request);
    assert!(result.is_err());
    let err = message(&result.unwrap_err());
    assert!(err.contains("not allowed"), "Error should mention 'not allowed': {err}");
}

#[test]
fn test_api_spec_builder() {
    let spec = APISpec::builder("https://api.test.com")
        .endpoint(EndpointSpecBuilder::new("GET", "/health").description("Health check").build())
        .endpoint(
            EndpointSpecBuilder::new("POST", "/data")
                .description("Submit data")
                .parameter(
                    ParameterSpecBuilder::new("payload", "object")
                        .required(true)
                        .description("Data payload")
                        .build(),
                )
                .build(),
        )
        .build();

    assert_eq!(spec.base_url, "https://api.test.com");
    assert_eq!(spec.endpoints.len(), 2);
    assert_eq!(spec.endpoints[0].method, "GET");
    assert_eq!(spec.endpoints[0].path, "/health");
    assert_eq!(spec.endpoints[1].method, "POST");
    assert_eq!(spec.endpoints[1].parameters.len(), 1);
    assert!(spec.endpoints[1].parameters[0].required);
}

#[test]
fn test_endpoint_spec_with_parameters() {
    let endpoint: EndpointSpec = EndpointSpecBuilder::new("PUT", "/items/{id}")
        .description("Update an item")
        .parameter(
            ParameterSpecBuilder::new("id", "integer").required(true).description("Item ID").build(),
        )
        .parameter(
            ParameterSpecBuilder::new("name", "string")
                .required(false)
                .description("New item name")
                .build(),
        )
        .parameter(
            ParameterSpecBuilder::new("active", "boolean")
                .required(false)
                .description("Whether the item is active")
                .build(),
        )
        .build();

    assert_eq!(endpoint.method, "PUT");
    assert_eq!(endpoint.path, "/items/{id}");
    assert_eq!(endpoint.description, "Update an item");
    assert_eq!(endpoint.parameters.len(), 3);
    assert!(endpoint.parameters[0].required);
    assert!(!endpoint.parameters[1].required);
    assert_eq!(endpoint.parameters[2].param_type, "boolean");
}

#[test]
fn test_from_json_parsing() {
    let param = |name: &str, ty: &str, required: bool, desc: &str| {
        obj(vec![
            ("name", s(name)),
            ("type", s(ty)),
            ("required", JsonValue::Bool(required)),
            ("description", s(desc)),
        ])
    };
    let json_spec = obj(vec![
        ("base_url", s("https://api.weather.com")),
        (
            "endpoints",
            JsonValue::Array(vec![obj(vec![
                ("method", s("GET")),
                ("path", s("/forecast")),
                ("description", s("Get weather forecast")),
                (
                    "parameters",
                    JsonValue::Array(vec![
                        param("city", "string", true, "City name"),
                        param("days", "integer", false, "Number of forecast days"),
                    ]),
                ),
            ])]),
        ),
    ]);

    let spec = APISpec::from_json(&json_spec).unwrap();
    assert_eq!(spec.base_url, "https://api.weather.com");
    assert_eq!(spec.endpoints.len(), 1);
    assert_eq!(spec.endpoints[0].method, "GET");
    assert_eq!(spec.endpoints[0].path, "/forecast");
    assert_eq!(spec.endpoints[0].parameters.len(), 2);
    assert_eq!(spec.endpoints[0].parameters[0].name, "city");
    assert!(spec.endpoints[0].parameters[0].required);
    assert_eq!(spec.endpoints[0].parameters[1].param_type, "integer");
    assert!(!spec.endpoints[0].parameters[1].required);
}

#[test]
fn test_url_injection_prevention() {
    let validator = get_only();

    let result = validator.validate(&request("GET", "https://api.example.com/users\r\nX-Injected: header"));
    assert!(message(&result.unwrap_err()).contains("newline"));

    let result = validator.validate(&request("GET", "https://api.example.com/users`whoami`"));
    assert!(message(&result.unwrap_err()).contains("backtick"));

    let result = validator.validate(&request("GET", "https://evil.com/api"));
    assert!(message(&result.unwrap_err()).contains("base URL"));

    let result = validator
        .validate(&request("GET", "https://api.example.com/users?redirect=javascript:alert(1)"));
    assert!(message(&result.unwrap_err()).contains("javascript"));
}

#[test]
fn test_from_json_missing_base_url() {
    let json_spec = obj(vec![("endpoints", JsonValue::Array(vec![]))]);
    let result = APISpec::from_json(&json_spec);
    assert!(result.is_err());
}

#[test]
fn test_double_encoded_url_rejection() {
    let validator = get_only();
    let req = request("GET", "https://api.example.com/path%252F..%252Fetc%252Fpasswd");
    let result = validator.validate(&req);
    assert!(message(&result.unwrap_err()).contains("double-encoded"));
}

#[test]
fn validator_messages_are_exact() {
    let validator = get_only();
    match validator.validate(&request("delete", "https://api.example.com/x")) {
        Err(RustChainError::Other(m)) => {
            assert_eq!(m, "HTTP method 'DELETE' is not allowed. Allowed methods: {\"GET\"}")
        }
        other => panic!("unexpected {other:?}"),
    }
    match validator.validate(&obj(vec![("url", s("https://api.example.com"))])) {
        Err(RustChainError::InvalidKey(m)) => assert_eq!(m, "Missing 'method' in request"),
        other => panic!("unexpected {other:?}"),
    }
    match validator.validate(&obj(vec![("method", s("get"))])) {
        Err(RustChainError::InvalidKey(m)) => assert_eq!(m, "Missing 'url' in request"),
        other => panic!("unexpected {other:?}"),
    }
    match validator.validate(&s("GET")) {
        Err(RustChainError::TypeMismatch { expected, got }) => {
            assert_eq!(expected, "JSON object");
            assert_eq!(got, "\"GET\"");
        }
        other => panic!("unexpected {other:?}"),
    }
    assert!(validator.validate(&request("get", "https://api.example.com/ok")).is_ok());
    match validator.validate(&request("GET", "https://api.example.com/x?u=DATA:1")) {
        Ok(()) => {}
        other => panic!("data: only counts at the start: {other:?}"),
    }
}

#[test]
fn check_url_injection_data_scheme() {
    assert!(RequestValidator::check_url_injection("https://ok.example.com/a").is_ok());
    match RequestValidator::check_url_injection("DATA:text/html,hi") {
        Err(RustChainError::Other(m)) => assert_eq!(m, "URL uses 'data:' scheme (possible injection)"),
        other => panic!("unexpected {other:?}"),
    }
}

#[test]
fn from_json_type_errors() {
    match APISpec::from_json(&obj(vec![("base_url", JsonValue::Number("3".into()))])) {
        Err(RustChainError::InvalidKey(_)) => {}
        other => panic!("unexpected {other:?}"),
    }
    match APISpec::from_json(&obj(vec![("base_url", s("https://x"))])) {
        Err(RustChainError::InvalidKey(m)) => assert_eq!(m, "Missing 'endpoints' array"),
        other => panic!("unexpected {other:?}"),
    }
    let spec = APISpec::from_json(&obj(vec![
        ("base_url", s("https://x")),
        ("endpoints", JsonValue::Array(vec![obj(vec![])])),
    ]))
    .unwrap();
    assert_eq!(spec.endpoints[0].method, "GET");
    assert_eq!(spec.endpoints[0].path, "/");
    assert!(spec.endpoints[0].parameters.is_empty());
    match APISpec::from_json(&obj(vec![
        ("base_url", s("https://x")),
        ("endpoints", JsonValue::Array(vec![s("oops")])),
    ])) {
        Err(RustChainError::TypeMismatch { .. }) => {}
        other => panic!("unexpected {other:?}"),
    }
}

fn field<'a>(v: &'a JsonValue, key: &str) -> &'a JsonValue {
    v.get(key).expect("member present")
}

fn text(v: &JsonValue) -> String {
    match v {
        JsonValue::Str(x) => x.clone(),
        other => panic!("not a string: {other:?}"),
    }
}

/// Runs a chain on `input` with `reply` standing for what the model answers.
fn run(chain: &APIChain, input: &JsonValue, reply: &str) -> Result<JsonValue, RustChainError> {
    let question = APIChain::question_of(input)?;
    let prompt = chain.format_prompt(input)?;
    assert!(prompt.contains(&question));
    let request = APIChain::extract_request(reply)?;
    chain.respond(&question, request)
}

#[test]
fn test_basic_api_request_construction() {
    let response = r#"{"method": "GET", "url": "https://api.example.com/users?limit=10", "headers": {}, "body": null}"#;
    let chain = APIChain::builder().api_spec(sample_api_spec()).build();
    let result = run(&chain, &obj(vec![("question", s("List the first 10 users"))]), response).unwrap();
    assert_eq!(text(field(field(&result, "request"), "method")), "GET");
    assert_eq!(
        text(field(field(&result, "request"), "url")),
        "https://api.example.com/users?limit=10"
    );
    assert_eq!(text(field(&result, "question")), "List the first 10 users");
    assert!(result.get("response").is_none());
}

#[test]
fn test_allowed_methods_filtering() {
    let response = r#"{"method": "POST", "url": "https://api.example.com/users", "headers": {}, "body": {"name": "test"}}"#;
    let chain = APIChain::builder().api_spec(sample_api_spec()).build();
    let result = run(&chain, &obj(vec![("question", s("Create a new user named test"))]), response);
    assert!(result.is_err());
    let err = message(&result.unwrap_err());
    assert!(err.contains("not allowed"), "Error should mention method not allowed: {err}");
}

#[test]
fn api_test_runnable_trait_implementation() {
    let response = r#"{"method": "GET", "url": "https://api.example.com/users/42", "headers": {}, "body": null}"#;
    let chain = APIChain::builder().api_spec(sample_api_spec()).build();
    assert_eq!(chain.name(), "APIChain");
    let result = run(&chain, &obj(vec![("question", s("Get user 42"))]), response).unwrap();
    assert_eq!(text(field(field(&result, "request"), "method")), "GET");
    assert_eq!(text(field(field(&result, "request"), "url")), "https://api.example.com/users/42");
}

#[test]
fn test_request_extraction_from_llm_response() {
    let plain = r#"{"method": "GET", "url": "https://api.example.com/users", "headers": {}, "body": null}"#;
    let parsed = APIChain::extract_request(plain).unwrap();
    assert_eq!(text(field(&parsed, "method")), "GET");

    let markdown = "Here is the request:\n```json\n{\"method\": \"GET\", \"url\": \"https://api.example.com/users\", \"headers\": {}, \"body\": null}\n```";
    let parsed = APIChain::extract_request(markdown).unwrap();
    assert_eq!(text(field(&parsed, "method")), "GET");
    assert_eq!(text(field(&parsed, "url")), "https://api.example.com/users");

    let noisy = "Sure! Here you go: {\"method\": \"POST\", \"url\": \"https://api.example.com/data\", \"headers\": {\"Content-Type\": \"application/json\"}, \"body\": {\"key\": \"value\"}} Hope that helps!";
    let parsed = APIChain::extract_request(noisy).unwrap();
    assert_eq!(text(field(&parsed, "method")), "POST");
    assert_eq!(text(field(field(&parsed, "body"), "key")), "value");
}

#[test]
fn test_allow_multiple_methods() {
    let response = r#"{"method": "POST", "url": "https://api.example.com/users", "headers": {"Content-Type": "application/json"}, "body": {"name": "Alice"}}"#;
    let chain = APIChain::builder().api_spec(sample_api_spec()).allow_method("POST").build();
    let result = run(&chain, &obj(vec![("question", s("Create user Alice"))]), response).unwrap();
    assert_eq!(text(field(field(&result, "request"), "method")), "POST");
    assert_eq!(text(field(field(field(&result, "request"), "body"), "name")), "Alice");
}

#[test]
fn extract_request_errors() {
    let e = APIChain::extract_request("  no object here  ").unwrap_err();
    assert_eq!(message(&e), "Could not find JSON object in LLM response: no object here");
    let e = APIChain::extract_request("{\"method\": ").unwrap_err();
    assert!(message(&e).starts_with("Failed to parse LLM response as JSON: "));
    let nested = APIChain::extract_request("x {\"a\": {\"b\": 1}} {\"c\": 2}").unwrap();
    assert_eq!(field(field(&nested, "a"), "b").to_json_text(), "1");
    assert!(nested.get("c").is_none());
}

#[test]
fn api_format_prompt_fills_description_and_question() {
    let chain = APIChain::builder()
        .api_spec(sample_api_spec())
        .prompt_template("Q={question}\n{api_description}")
        .build();
    let p = chain.format_prompt(&obj(vec![("question", s("hi"))])).unwrap();
    assert_eq!(p, format!("Q=hi\n{}", sample_api_spec().to_description()));
    let e = chain.format_prompt(&obj(vec![])).unwrap_err();
    assert!(matches!(e, RustChainError::InvalidKey(ref m) if m == "Missing input variable(s): question"));
    let e = chain.format_prompt(&s("x")).unwrap_err();
    assert!(matches!(e, RustChainError::TypeMismatch { .. }));
    let e = APIChain::question_of(&obj(vec![])).unwrap_err();
    assert_eq!(message(&e), "Input must be a JSON object with a 'question' key");
}

#[test]
fn api_builder_methods_are_upper_cased_once() {
    let chain = APIChain::builder()
        .api_spec(sample_api_spec())
        .allow_method("post")
        .allow_method("POST")
        .build();
    let mut m = chain.allowed_methods.clone();
    m.sort();
    assert_eq!(m, vec!["GET".to_string(), "POST".to_string()]);
    assert!(!chain.execute_requests);
    assert!(chain.prompt_template.contains("{api_description}"));
}

#[test]
fn http_plan_cases() {
    let req = obj(vec![
        ("method", s("post")),
        ("url", s("https://api.example.com/users")),
        ("headers", obj(vec![("A", s("1")), ("B", JsonValue::Number("2".into())), ("C", s("3"))])),
        ("body", obj(vec![("name", s("Alice"))])),
    ]);
    let p = http_request_plan(&req).unwrap();
    assert_eq!(p.method, "POST");
    assert_eq!(p.url, "https://api.example.com/users");
    assert_eq!(p.headers, vec![("A".to_string(), "1".to_string()), ("C".to_string(), "3".to_string())]);
    assert_eq!(p.body.unwrap().to_json_text(), "{\"name\":\"Alice\"}");
    let p = http_request_plan(&obj(vec![("url", s("u")), ("body", JsonValue::Null)])).unwrap();
    assert_eq!(p.method, "GET");
    assert!(p.body.is_none());
    assert!(p.headers.is_empty());
    let e = http_request_plan(&obj(vec![("method", s("TRACE"))])).unwrap_err();
    assert_eq!(message(&e), "Missing 'url' in request");
    let e = http_request_plan(&obj(vec![("method", s("trace")), ("url", s("u"))])).unwrap_err();
    assert_eq!(message(&e), "Unsupported HTTP method: TRACE");
}

#[test]
fn http_response_cases() {
    assert_eq!(http_response_value(200, "{\"a\": [1, 2]}").to_json_text(), "{\"body\":{\"a\":[1,2]},\"status\":200}");
    assert_eq!(http_response_value(404, "not found").to_json_text(), "{\"body\":\"not found\",\"status\":404}");
}
