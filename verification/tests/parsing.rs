//! Parser tests: YAML and JSON documents, extraction, security schemes,
//! `$ref` resolution, and the large-number sanitizer.

use mcp_wallet::dispatch::{message_of_json, message_to_json};
use mcp_wallet::extract::OperationExtractor;
use mcp_wallet::json::{to_json_string, JsonValue};
use mcp_wallet::mcp::{McpError, McpMessage};
use mcp_wallet::jsontext::parse_json;
use mcp_wallet::optypes::HttpMethod;
use mcp_wallet::parser::OpenApiParser;
use mcp_wallet::resolver::resolve;

const SAMPLE_SPEC: &str = r#"
openapi: "3.0.0"
info:
  title: Test API
  version: "1.0.0"
servers:
  - url: https://api.example.com/v1
paths:
  /users:
    get:
      operationId: listUsers
      summary: List all users
      responses:
        '200':
          description: A list of users
    post:
      operationId: createUser
      summary: Create a user
      requestBody:
        required: true
        content:
          application/json:
            schema:
              type: object
              properties:
                name:
                  type: string
      responses:
        '201':
          description: User created
  /users/{id}:
    get:
      operationId: getUser
      summary: Get a user by ID
      parameters:
        - name: id
          in: path
          required: true
          schema:
            type: string
      responses:
        '200':
          description: A user
components:
  securitySchemes:
    bearerAuth:
      type: http
      scheme: bearer
security:
  - bearerAuth: []
"#;

#[test]
fn test_parse_yaml() {
    let spec = OpenApiParser::parse_yaml(SAMPLE_SPEC).unwrap();

    assert_eq!(spec.title, "Test API");
    assert_eq!(spec.version, "1.0.0");
    assert_eq!(spec.operations.len(), 3);
    assert_eq!(spec.servers.len(), 1);
    assert_eq!(spec.servers[0].url, "https://api.example.com/v1");
}

#[test]
fn test_parse_extracts_operations() {
    let spec = OpenApiParser::parse_yaml(SAMPLE_SPEC).unwrap();

    let list_users = spec.operations.iter().find(|op| op.operation_id == "listUsers").unwrap();
    assert_eq!(list_users.method, HttpMethod::Get);
    assert_eq!(list_users.path, "/users");

    let create_user = spec.operations.iter().find(|op| op.operation_id == "createUser").unwrap();
    assert_eq!(create_user.method, HttpMethod::Post);
    assert!(create_user.request_body.is_some());

    let get_user = spec.operations.iter().find(|op| op.operation_id == "getUser").unwrap();
    assert_eq!(get_user.parameters.len(), 1);
    assert_eq!(get_user.parameters[0].name, "id");
}

#[test]
fn test_parse_extracts_security() {
    let spec = OpenApiParser::parse_yaml(SAMPLE_SPEC).unwrap();

    assert!(spec.security_schemes.iter().any(|(k, _)| k == "bearerAuth"));
    assert_eq!(spec.global_security.len(), 1);
    assert_eq!(spec.global_security[0].scheme_name, "bearerAuth");
}

#[test]
fn test_sanitize_large_numbers() {
    let yaml_with_large_nums = r#"
openapi: "3.0.0"
info:
  title: Test API
  version: "1.0.0"
servers:
  - url: https://api.example.com
paths: {}
components:
  schemas:
    TestSchema:
      type: object
      properties:
        seed:
          type: integer
          minimum: -9223372036854776000
          maximum: 9223372036854776000
"#;

    let result = OpenApiParser::parse_yaml(yaml_with_large_nums);
    assert!(result.is_ok(), "the document should parse after sanitization");
}

#[test]
fn test_sanitize_rewrites_exact_lines() {
    let text = "  minimum: -9223372036854776000\n  maximum: 9223372036854776000\n  other: 9223372036854776000";
    let sanitized = OpenApiParser::sanitize_large_numbers(text);
    assert_eq!(
        sanitized,
        "  minimum: -2147483648\n  maximum: 2147483647\n  other: 9223372036854776000",
    );
}

#[test]
fn test_normalize_operation_id_camel_case() {
    assert_eq!(OperationExtractor::normalize_operation_id("createCustomer"), "create.customer");
}

#[test]
fn test_normalize_operation_id_snake_case() {
    assert_eq!(OperationExtractor::normalize_operation_id("create_customer"), "create.customer");
}

#[test]
fn test_generate_operation_id() {
    assert_eq!(
        OperationExtractor::generate_operation_id("/users/{id}/posts", HttpMethod::Get),
        "get_users_id_posts",
    );
}

#[test]
fn test_unsupported_version_is_rejected() {
    let doc = parse_json(r#"{"openapi": "2.0", "info": {"title": "x", "version": "1"}}"#).unwrap();
    let result = OpenApiParser::convert_spec(&doc);
    match result {
        Err(mcp_wallet::errors::ParseError::UnsupportedVersion(_)) => {},
        Err(_) => panic!("wrong error kind"),
        Ok(_) => panic!("an unsupported version must be rejected"),
    }
}

fn text_at<'a>(v: &'a JsonValue, name: &str) -> &'a str {
    v.get(name).unwrap().as_text().unwrap().as_str()
}

#[test]
fn test_resolve_simple_ref() {
    let schemas_doc = parse_json(
        r#"{"User": {"type": "object", "properties": {"name": {"type": "string"}, "email": {"type": "string"}}, "required": ["name", "email"]}}"#,
    ).unwrap();
    let schemas = match schemas_doc {
        JsonValue::Object(f) => f,
        _ => panic!("expected an object"),
    };

    let schema = parse_json(r##"{"$ref": "#/components/schemas/User"}"##).unwrap();
    let resolved = resolve(&schemas, &schema);

    assert_eq!(text_at(&resolved, "type"), "object");
    assert!(resolved.get("properties").unwrap().get("name").is_some());
}

#[test]
fn test_resolve_nested_ref() {
    let schemas_doc = parse_json(
        r##"{
            "Address": {"type": "object", "properties": {"street": {"type": "string"}}},
            "User": {"type": "object", "properties": {"name": {"type": "string"}, "address": {"$ref": "#/components/schemas/Address"}}}
        }"##,
    ).unwrap();
    let schemas = match schemas_doc {
        JsonValue::Object(f) => f,
        _ => panic!("expected an object"),
    };

    let schema = parse_json(r##"{"$ref": "#/components/schemas/User"}"##).unwrap();
    let resolved = resolve(&schemas, &schema);

    let address = resolved.get("properties").unwrap().get("address").unwrap();
    assert_eq!(text_at(address, "type"), "object");
    assert!(address.get("properties").unwrap().get("street").is_some());
}

#[test]
fn test_resolve_allof() {
    let schemas_doc = parse_json(
        r#"{"Base": {"type": "object", "properties": {"id": {"type": "string"}}}}"#,
    ).unwrap();
    let schemas = match schemas_doc {
        JsonValue::Object(f) => f,
        _ => panic!("expected an object"),
    };

    let schema = parse_json(
        r##"{"allOf": [{"$ref": "#/components/schemas/Base"}, {"properties": {"name": {"type": "string"}}}]}"##,
    ).unwrap();
    let resolved = resolve(&schemas, &schema);

    let all_of = resolved.get("allOf").unwrap().as_array().unwrap();
    let first_props = all_of[0].get("properties").unwrap();
    assert_eq!(text_at(first_props.get("id").unwrap(), "type"), "string");
}

#[test]
fn test_json_render_roundtrip() {
    let v = parse_json(r#"{"a": [1, true, null, "x\ny"], "b": {"c": -2.5}}"#).unwrap();
    let text = mcp_wallet::json::to_json_string(&v);
    let reparsed = parse_json(&text).unwrap();
    assert_eq!(mcp_wallet::json::to_json_string(&reparsed), text);
}

#[test]
fn test_message_error_encoding() {
    let msg = McpMessage::error_response(
        Some(JsonValue::Number("7".to_string())),
        McpError::method_not_found(),
    );
    let encoded = message_to_json(&msg);
    let text = to_json_string(&encoded);
    assert!(text.contains("\"code\":-32601"));
    assert!(text.contains("\"message\":\"Method not found\""));

    let back = message_of_json(&encoded);
    assert_eq!(back.jsonrpc, "2.0");
    assert!(back.method.is_none());
    assert!(matches!(back.id, Some(JsonValue::Number(ref n)) if n == "7"));
}
