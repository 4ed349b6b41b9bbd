//! MCP protocol message and tool types.

use vstd::prelude::*;
use crate::json::JsonValue;

verus! {

/// The JSON-RPC version string.
pub open spec fn spec_jsonrpc_version() -> Seq<char> {
    "2.0"@
}

/// The MCP protocol version this server speaks.
pub open spec fn spec_mcp_version() -> Seq<char> {
    "2024-11-05"@
}

/// An MCP JSON-RPC message.
pub struct McpMessage {
    /// The JSON-RPC version, always `2.0`.
    pub jsonrpc: String,
    /// Request id; absent on notifications.
    pub id: Option<JsonValue>,
    /// Method name; absent on responses.
    pub method: Option<String>,
    /// Request parameters.
    pub params: Option<JsonValue>,
    /// Response result.
    pub result: Option<JsonValue>,
    /// Response error.
    pub error: Option<McpError>,
}

/// A JSON-RPC error.
pub struct McpError {
    /// The error code.
    pub code: i32,
    /// The error message.
    pub message: String,
    /// Extra data.
    pub data: Option<JsonValue>,
}

impl McpError {
    /// An error with a code and message.
    pub fn new(code: i32, message: String) -> (r: McpError)
        ensures
            r.code == code,
            r.message@ == message@,
            r.data is None,
    {
        McpError { code, message, data: None }
    }

    /// The standard parse error.
    pub fn parse_error() -> (r: McpError)
        ensures
            r.code == -32700,
    {
        McpError { code: -32700, message: "Parse error".to_owned(), data: None }
    }

    /// The standard invalid-request error.
    pub fn invalid_request() -> (r: McpError)
        ensures
            r.code == -32600,
    {
        McpError { code: -32600, message: "Invalid request".to_owned(), data: None }
    }

    /// The standard method-not-found error.
    pub fn method_not_found() -> (r: McpError)
        ensures
            r.code == -32601,
    {
        McpError { code: -32601, message: "Method not found".to_owned(), data: None }
    }

    /// The standard invalid-params error.
    pub fn invalid_params(message: String) -> (r: McpError)
        ensures
            r.code == -32602,
            r.message@ == message@,
    {
        McpError { code: -32602, message, data: None }
    }

    /// The standard internal error.
    pub fn internal_error(message: String) -> (r: McpError)
        ensures
            r.code == -32603,
            r.message@ == message@,
    {
        McpError { code: -32603, message, data: None }
    }
}

impl McpMessage {
    /// Whether this is a request: a method with an id.
    pub open spec fn spec_is_request(&self) -> bool {
        self.method is Some && self.id is Some
    }

    /// Whether this is a notification: a method without an id.
    pub open spec fn spec_is_notification(&self) -> bool {
        self.method is Some && self.id is None
    }

    /// Whether this is a response: no method, but a result or error.
    pub open spec fn spec_is_response(&self) -> bool {
        self.method is None && (self.result is Some || self.error is Some)
    }

    /// Build a request message.
    pub fn request(id: JsonValue, method: String, params: Option<JsonValue>) -> (r: McpMessage)
        ensures
            r.jsonrpc@ == spec_jsonrpc_version(),
            r.id == Some(id),
            r.method == Some(method),
            r.params == params,
            r.result is None,
            r.error is None,
            r.spec_is_request(),
    {
        proof {
            reveal_strlit("2.0");
        }
        McpMessage {
            jsonrpc: "2.0".to_owned(),
            id: Some(id),
            method: Some(method),
            params,
            result: None,
            error: None,
        }
    }

    /// Build a success response.
    pub fn response(id: JsonValue, result: JsonValue) -> (r: McpMessage)
        ensures
            r.jsonrpc@ == spec_jsonrpc_version(),
            r.id == Some(id),
            r.method is None,
            r.params is None,
            r.result == Some(result),
            r.error is None,
            r.spec_is_response(),
    {
        proof {
            reveal_strlit("2.0");
        }
        McpMessage {
            jsonrpc: "2.0".to_owned(),
            id: Some(id),
            method: None,
            params: None,
            result: Some(result),
            error: None,
        }
    }

    /// Build an error response.
    pub fn error_response(id: Option<JsonValue>, error: McpError) -> (r: McpMessage)
        ensures
            r.jsonrpc@ == spec_jsonrpc_version(),
            r.id == id,
            r.method is None,
            r.params is None,
            r.result is None,
            r.error == Some(error),
            r.spec_is_response(),
    {
        proof {
            reveal_strlit("2.0");
        }
        McpMessage {
            jsonrpc: "2.0".to_owned(),
            id,
            method: None,
            params: None,
            result: None,
            error: Some(error),
        }
    }

    /// Build a notification.
    pub fn notification(method: String, params: Option<JsonValue>) -> (r: McpMessage)
        ensures
            r.jsonrpc@ == spec_jsonrpc_version(),
            r.id is None,
            r.method == Some(method),
            r.params == params,
            r.result is None,
            r.error is None,
            r.spec_is_notification(),
    {
        proof {
            reveal_strlit("2.0");
        }
        McpMessage {
            jsonrpc: "2.0".to_owned(),
            id: None,
            method: Some(method),
            params,
            result: None,
            error: None,
        }
    }

    /// Whether this is a request.
    pub fn is_request(&self) -> (r: bool)
        ensures
            r == self.spec_is_request(),
    {
        self.method.is_some() && self.id.is_some()
    }

    /// Whether this is a notification.
    pub fn is_notification(&self) -> (r: bool)
        ensures
            r == self.spec_is_notification(),
    {
        self.method.is_some() && self.id.is_none()
    }

    /// Whether this is a response.
    pub fn is_response(&self) -> (r: bool)
        ensures
            r == self.spec_is_response(),
    {
        self.method.is_none() && (self.result.is_some() || self.error.is_some())
    }
}

/// An MCP tool descriptor.
pub struct McpTool {
    /// The tool name.
    pub name: String,
    /// The tool description.
    pub description: Option<String>,
    /// The input schema.
    pub input_schema: McpInputSchema,
}

/// A JSON Schema for tool inputs.
pub struct McpInputSchema {
    /// The schema type, always `object`.
    pub schema_type: String,
    /// The properties, in insertion order; absent when empty.
    pub properties: Option<Vec<(String, JsonValue)>>,
    /// The required property names; absent when empty.
    pub required: Option<Vec<String>>,
}

impl Default for McpInputSchema {
    /// An empty object schema.
    fn default() -> (r: McpInputSchema)
        ensures
            r.schema_type@ == "object"@,
            r.properties is None,
            r.required is None,
    {
        McpInputSchema { schema_type: "object".to_owned(), properties: None, required: None }
    }
}

/// One piece of tool-call output.
pub enum ToolContent {
    /// Text output.
    Text {
        /// The text.
        text: String,
    },
    /// Image output.
    Image {
        /// Base64 image data.
        data: String,
        /// The MIME type.
        mime_type: String,
    },
    /// A resource reference.
    Resource {
        /// The resource URI.
        uri: String,
        /// The MIME type, if known.
        mime_type: Option<String>,
        /// Inline text, if any.
        text: Option<String>,
    },
}

/// The result of a tool call.
pub struct ToolCallResult {
    /// The content pieces.
    pub content: Vec<ToolContent>,
    /// Set to true where the result carries an error.
    pub is_error: Option<bool>,
}

impl ToolCallResult {
    /// A successful text result.
    pub fn text(text: String) -> (r: ToolCallResult)
        ensures
            r.content@.len() == 1,
            r.content@[0] matches ToolContent::Text { text: t } && t@ == text@,
            r.is_error is None,
    {
        let mut content: Vec<ToolContent> = Vec::new();
        content.push(ToolContent::Text { text });
        ToolCallResult { content, is_error: None }
    }

    /// An error text result.
    pub fn error(message: String) -> (r: ToolCallResult)
        ensures
            r.content@.len() == 1,
            r.content@[0] matches ToolContent::Text { text: t } && t@ == message@,
            r.is_error == Some(true),
    {
        let mut content: Vec<ToolContent> = Vec::new();
        content.push(ToolContent::Text { text: message });
        ToolCallResult { content, is_error: Some(true) }
    }
}

/// Capabilities the server advertises on `initialize`.
pub struct ServerCapabilities {
    /// Tools support.
    pub tools: Option<ToolsCapability>,
    /// Resources support.
    pub resources: Option<ResourcesCapability>,
    /// Prompts support.
    pub prompts: Option<PromptsCapability>,
    /// Logging support.
    pub logging: Option<LoggingCapability>,
}

impl ServerCapabilities {
    /// Capabilities with tools support and nothing else.
    pub fn with_tools() -> (r: ServerCapabilities)
        ensures
            r.tools matches Some(t) && t.list_changed is None,
            r.resources is None,
            r.prompts is None,
            r.logging is None,
    {
        ServerCapabilities {
            tools: Some(ToolsCapability { list_changed: None }),
            resources: None,
            prompts: None,
            logging: None,
        }
    }
}

/// Tools capability.
pub struct ToolsCapability {
    /// Whether list-changed notifications are sent.
    pub list_changed: Option<bool>,
}

/// Resources capability.
pub struct ResourcesCapability {
    /// Whether subscriptions are supported.
    pub subscribe: Option<bool>,
    /// Whether list-changed notifications are sent.
    pub list_changed: Option<bool>,
}

/// Prompts capability.
pub struct PromptsCapability {
    /// Whether list-changed notifications are sent.
    pub list_changed: Option<bool>,
}

/// Logging capability.
pub struct LoggingCapability {}

/// Server identity returned on `initialize`.
pub struct ServerInfo {
    /// Server name.
    pub name: String,
    /// Server version.
    pub version: String,
}

/// Client identity sent on `initialize`.
pub struct ClientInfo {
    /// Client name.
    pub name: String,
    /// Client version.
    pub version: String,
}

} // verus!
