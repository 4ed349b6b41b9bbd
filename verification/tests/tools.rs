//! Tool surface tests: auth detection, descriptor generation, name
//! sanitization, tool-name parsing, request planning, and response framing.

use mcp_wallet::auth::AuthScheme;
use mcp_wallet::executor::{frame_http_response, parse_tool_name, HttpRequestPlan};
use mcp_wallet::generator::{sanitize_property_name, ToolGenerator};
use mcp_wallet::jsontext::parse_json;
use mcp_wallet::mcp::ToolContent;
use mcp_wallet::optypes::{
    ApiKeyLocation, ApiOperation, HttpMethod, OperationParameter, ParameterLocation, RequestBody,
    SecurityRequirement, SecurityScheme,
};
use mcp_wallet::parser::OpenApiParser;

#[test]
fn test_detect_bearer() {
    let schemes = vec![
        (
            "bearerAuth".to_string(),
            SecurityScheme::Http { scheme: "bearer".to_string(), bearer_format: Some("JWT".to_string()) },
        ),
    ];

    let requirements = vec![
        SecurityRequirement { scheme_name: "bearerAuth".to_string(), scopes: vec![] },
    ];

    let auth = AuthScheme::detect(&schemes, &requirements);

    match auth {
        AuthScheme::Bearer { format } => {
            assert_eq!(format, Some("JWT".to_string()));
        },
        _ => panic!("Expected Bearer auth"),
    }
}

#[test]
fn test_detect_api_key() {
    let schemes = vec![
        (
            "apiKey".to_string(),
            SecurityScheme::ApiKey { name: "X-API-Key".to_string(), location: ApiKeyLocation::Header },
        ),
    ];

    let requirements = vec![
        SecurityRequirement { scheme_name: "apiKey".to_string(), scopes: vec![] },
    ];

    let auth = AuthScheme::detect(&schemes, &requirements);

    match auth {
        AuthScheme::ApiKey { name, location } => {
            assert_eq!(name, "X-API-Key");
            assert_eq!(location, ApiKeyLocation::Header);
        },
        _ => panic!("Expected ApiKey auth"),
    }
}

#[test]
fn test_format_bearer_header() {
    let auth = AuthScheme::Bearer { format: None };
    let header = auth.format_header("my-token");
    assert_eq!(header, Some("Bearer my-token".to_string()));
}

fn test_operation() -> ApiOperation {
    ApiOperation {
        operation_id: "createCustomer".to_string(),
        normalized_id: "customers.create".to_string(),
        method: HttpMethod::Post,
        path: "/v1/customers".to_string(),
        summary: Some("Create a customer".to_string()),
        description: Some("Creates a new customer object.".to_string()),
        tags: vec!["Customers".to_string()],
        deprecated: false,
        parameters: vec![
            OperationParameter {
                name: "email".to_string(),
                location: ParameterLocation::Query,
                required: true,
                description: Some("Customer email".to_string()),
                schema: parse_json(r#"{"type": "string", "format": "email"}"#),
                example: parse_json(r#""user@example.com""#),
                deprecated: false,
            },
        ],
        request_body: None,
        responses: vec![],
        security: vec![],
    }
}

#[test]
fn test_generate_tool_name() {
    let generator = ToolGenerator::new();
    let operation = test_operation();

    let tool = generator.generate_tool("stripe", &operation);

    assert_eq!(tool.name, "stripe_customers_create");
}

#[test]
fn test_generate_tool_description() {
    let generator = ToolGenerator::new();
    let operation = test_operation();

    let tool = generator.generate_tool("stripe", &operation);

    assert!(tool.description.as_ref().unwrap().contains("Create a customer"));
    assert!(tool.description.as_ref().unwrap().contains("[POST /v1/customers]"));
}

#[test]
fn test_generate_tool_input_schema() {
    let generator = ToolGenerator::new();
    let operation = test_operation();

    let tool = generator.generate_tool("stripe", &operation);

    let props = tool.input_schema.properties.as_ref().unwrap();
    assert!(props.iter().any(|(k, _)| k == "email"));

    let required = tool.input_schema.required.as_ref().unwrap();
    assert!(required.contains(&"email".to_string()));
}

#[test]
fn test_sanitize_property_name_rules() {
    assert_eq!(sanitize_property_name(""), "param");
    assert_eq!(sanitize_property_name("a b/c"), "a_b_c");
    assert_eq!(sanitize_property_name("ok_name.x-y"), "ok_name.x-y");
    let long = "a".repeat(100);
    let sanitized = sanitize_property_name(&long);
    assert_eq!(sanitized.len(), 64);
    assert!(sanitized.chars().all(|c| c.is_ascii_alphanumeric() || "_.-".contains(c)));
}

#[test]
fn test_parse_tool_name() {
    let (key, path) = parse_tool_name("stripe_customers_create").unwrap();
    assert_eq!(key, "stripe");
    assert_eq!(path, "customers.create");

    let (key, path) = parse_tool_name("openai_chat_completions_create").unwrap();
    assert_eq!(key, "openai");
    assert_eq!(path, "chat.completions.create");

    assert!(parse_tool_name("noseparator").is_err());
}

const USERS_SPEC: &str = r#"
openapi: "3.0.0"
info:
  title: Users API
  version: "1.0.0"
servers:
  - url: https://api.test/v1
paths:
  /users:
    get:
      operationId: listUsers
      responses:
        '200':
          description: OK
    post:
      operationId: createUser
      requestBody:
        required: true
        content:
          application/json:
            schema:
              type: object
              properties:
                name:
                  type: string
              required: [name]
      responses:
        '201':
          description: Created
  /users/{id}:
    get:
      operationId: getUser
      parameters:
        - name: id
          in: path
          required: true
          schema:
            type: string
      responses:
        '200':
          description: OK
"#;

#[test]
fn test_spec_to_tools_names_and_schemas() {
    let spec = OpenApiParser::parse_yaml(USERS_SPEC).unwrap();
    let generator = ToolGenerator::new();
    let tools = generator.generate_tools("x", &spec.operations);
    let names: Vec<&str> = tools.iter().map(|t| t.name.as_str()).collect();
    assert!(names.contains(&"x_list_users"));
    assert!(names.contains(&"x_create_user"));
    assert!(names.contains(&"x_get_user"));

    let create = tools.iter().find(|t| t.name == "x_create_user").unwrap();
    assert_eq!(create.input_schema.required.as_ref().unwrap(), &vec!["name".to_string()]);

    let get_user = tools.iter().find(|t| t.name == "x_get_user").unwrap();
    let props = get_user.input_schema.properties.as_ref().unwrap();
    let id_prop = &props.iter().find(|(k, _)| k == "id").unwrap().1;
    let desc = id_prop.get("description").unwrap().as_text().unwrap();
    assert!(desc.contains("(path parameter)"));
    assert!(get_user.input_schema.required.as_ref().unwrap().contains(&"id".to_string()));
}

#[test]
fn test_tool_call_routing() {
    let spec = OpenApiParser::parse_yaml(USERS_SPEC).unwrap();
    let get_user = spec.operations.iter().find(|op| op.operation_id == "getUser").unwrap();
    let args = parse_json(r#"{"id": "42"}"#).unwrap();
    let plan = HttpRequestPlan::build("https://api.test/v1", get_user, Some(&args), "k").unwrap();
    assert_eq!(plan.method, HttpMethod::Get);
    assert_eq!(plan.url, "https://api.test/v1/users/42");
    assert!(plan.body.is_none());
    assert_eq!(plan.headers[0].0, "Authorization");
    assert_eq!(plan.headers[0].1, "Bearer k");

    let create_user = spec.operations.iter().find(|op| op.operation_id == "createUser").unwrap();
    let args = parse_json(r#"{"name": "Ada"}"#).unwrap();
    let plan = HttpRequestPlan::build("https://api.test/v1", create_user, Some(&args), "k").unwrap();
    assert_eq!(plan.url, "https://api.test/v1/users");
    let body = plan.body.as_ref().unwrap();
    let fields = body.as_object().unwrap();
    assert_eq!(fields.len(), 1);
    assert_eq!(fields[0].0, "name");
    assert_eq!(fields[0].1.as_text().unwrap(), "Ada");
}

#[test]
fn test_ref_flattening_in_tools() {
    let spec_text = r##"
openapi: "3.0.0"
info:
  title: Ref API
  version: "1.0.0"
servers:
  - url: https://api.test
paths:
  /things:
    post:
      operationId: createThing
      requestBody:
        required: true
        content:
          application/json:
            schema:
              $ref: "#/components/schemas/CreateReq"
      responses:
        '201':
          description: Created
components:
  schemas:
    Base:
      type: object
      properties:
        id:
          type: string
    CreateReq:
      allOf:
        - $ref: "#/components/schemas/Base"
        - properties:
            extra:
              type: string
"##;
    let spec = OpenApiParser::parse_yaml(spec_text).unwrap();
    let generator = ToolGenerator::new();
    let tools = generator.generate_tools("x", &spec.operations);
    let tool = tools.iter().find(|t| t.name == "x_create_thing").unwrap();
    let props = tool.input_schema.properties.as_ref().unwrap();
    assert!(props.iter().any(|(k, _)| k == "id"));
    assert!(props.iter().any(|(k, _)| k == "extra"));
}

#[test]
fn test_frame_http_response_success_and_error() {
    let ok = frame_http_response(200, "{\"a\":1}".to_string());
    assert!(ok.is_error.is_none());
    match &ok.content[0] {
        ToolContent::Text { text } => {
            assert!(text.contains('\n'), "a JSON body is pretty-printed");
            assert!(text.contains("\"a\""));
        },
        _ => panic!("expected text content"),
    }

    let plain = frame_http_response(204, "not json".to_string());
    match &plain.content[0] {
        ToolContent::Text { text } => assert_eq!(text, "not json"),
        _ => panic!("expected text content"),
    }

    let err = frame_http_response(404, "missing".to_string());
    assert_eq!(err.is_error, Some(true));
    match &err.content[0] {
        ToolContent::Text { text } => assert_eq!(text, "HTTP 404 - missing"),
        _ => panic!("expected text content"),
    }
}

#[test]
fn test_required_without_properties() {
    // A required body whose schema names required fields but no
    // properties: the required list is emitted even though the property
    // map stays empty.
    let generator = ToolGenerator::new();
    let mut operation = test_operation();
    operation.parameters = vec![];
    operation.request_body = Some(RequestBody {
        required: true,
        content_type: "application/json".to_string(),
        schema: parse_json(r#"{"required": ["x", "x"]}"#),
        description: None,
    });

    let tool = generator.generate_tool("stripe", &operation);
    assert!(tool.input_schema.properties.is_none());
    let required = tool.input_schema.required.as_ref().unwrap();
    assert_eq!(required, &vec!["x".to_string()]);
}

#[test]
fn test_auth_headers_skipped_in_schema() {
    let generator = ToolGenerator::new();
    let mut operation = test_operation();
    operation.parameters = vec![
        OperationParameter {
            name: "Authorization".to_string(),
            location: ParameterLocation::Header,
            required: true,
            description: None,
            schema: None,
            example: None,
            deprecated: false,
        },
        OperationParameter {
            name: "X-Trace".to_string(),
            location: ParameterLocation::Header,
            required: false,
            description: None,
            schema: None,
            example: None,
            deprecated: false,
        },
    ];

    let tool = generator.generate_tool("stripe", &operation);
    let props = tool.input_schema.properties.as_ref().unwrap();
    assert!(props.iter().any(|(k, _)| k == "X-Trace"));
    assert!(!props.iter().any(|(k, _)| k == "Authorization"));
    assert!(tool.input_schema.required.is_none());
}
