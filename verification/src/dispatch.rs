//! JSON-RPC routing for the MCP surface.
//!
//! A message routes to a decision: answer `initialize` and `ping` in
//! place, hand `tools/list` and `tools/call` to the caller (they need the
//! wallet and, for calls, the network), reject unknown request methods,
//! and stay silent on notifications and responses. The embedding program
//! runs the loop: it performs the handed-out work and frames the results
//! with the builders here.

use vstd::prelude::*;
use crate::json::{Json, JsonValue, spec_get};
use crate::mcp::{
    McpError, McpMessage, McpTool, ServerCapabilities, ToolCallResult, ToolContent,
};
use crate::strutil::str_eq;

verus! {

/// What a received message asks of the server.
pub enum DispatchAction {
    /// Send this response.
    Respond(McpMessage),
    /// List the tools and answer with [`tools_list_response`].
    ListTools {
        /// The request id.
        id: JsonValue,
    },
    /// Execute a tool call and answer with [`tool_call_response`].
    CallTool {
        /// The request id.
        id: JsonValue,
        /// The tool name.
        name: String,
        /// The call arguments, if any.
        arguments: Option<JsonValue>,
    },
    /// Say nothing: a notification or a stray response.
    Silent,
}

/// A signed number rendered in decimal.
pub open spec fn spec_i32_decimal(n: int) -> Seq<char> {
    if n >= 0 {
        crate::credential::spec_decimal(n)
    } else {
        "-"@ + crate::credential::spec_decimal(-n)
    }
}

/// The encoded fields of a JSON-RPC error: code, message, and data where
/// present.
pub open spec fn spec_error_fields(e: McpError) -> Seq<(Seq<char>, Json)> {
    let f = seq![
        ("code"@, Json::Number(spec_i32_decimal(e.code as int))),
        ("message"@, Json::Text(e.message@)),
    ];
    match e.data {
        Some(d) => f.push(("data"@, d.deep_view())),
        None => f,
    }
}

/// The encoded fields of a JSON-RPC message: the version, then each
/// present member in wire order.
pub open spec fn spec_message_fields(msg: McpMessage) -> Seq<(Seq<char>, Json)> {
    let f0 = seq![("jsonrpc"@, Json::Text(msg.jsonrpc@))];
    let f1 = match msg.id {
        Some(x) => f0.push(("id"@, x.deep_view())),
        None => f0,
    };
    let f2 = match msg.method {
        Some(m) => f1.push(("method"@, Json::Text(m@))),
        None => f1,
    };
    let f3 = match msg.params {
        Some(p) => f2.push(("params"@, p.deep_view())),
        None => f2,
    };
    let f4 = match msg.result {
        Some(x) => f3.push(("result"@, x.deep_view())),
        None => f3,
    };
    match msg.error {
        Some(e) => f4.push(("error"@, Json::Object(spec_error_fields(e)))),
        None => f4,
    }
}

/// What one piece of tool-call content encodes to: its type tag and its
/// mandatory payload fields.
pub open spec fn content_fields_post(j: Json, piece: ToolContent) -> bool {
    match piece {
        ToolContent::Text { text } => spec_get(j, "type"@) == Some(Json::Text("text"@))
            && spec_get(j, "text"@) == Some(Json::Text(text@)),
        ToolContent::Image { data, mime_type } => spec_get(j, "type"@) == Some(
            Json::Text("image"@),
        ) && spec_get(j, "data"@) == Some(Json::Text(data@)) && spec_get(j, "mimeType"@) == Some(
            Json::Text(mime_type@),
        ),
        ToolContent::Resource { uri, mime_type, text } => spec_get(j, "type"@) == Some(
            Json::Text("resource"@),
        ) && spec_get(j, "uri"@) == Some(Json::Text(uri@)),
    }
}

/// Route one message.
///
/// Requests: `initialize` and `ping` are answered at once; `tools/list`
/// and `tools/call` are handed out; anything else gets a method-not-found
/// error. Notifications and responses are silent.
pub fn route(msg: McpMessage, server_name: &str, server_version: &str) -> (r: DispatchAction)
    ensures
        msg.spec_is_notification() ==> r is Silent,
        msg.spec_is_response() ==> r is Silent,
        !msg.spec_is_request() && !msg.spec_is_notification() ==> r is Silent,
        msg.spec_is_request() && msg.method.unwrap()@ == "tools/list"@ ==> r is ListTools,
        r matches DispatchAction::ListTools { id } ==> Some(id) == msg.id,
        r matches DispatchAction::Respond(m) ==> m.spec_is_response() && m.id == msg.id,
        msg.spec_is_request() && msg.method.unwrap()@ == "ping"@ ==> (r matches
            DispatchAction::Respond(m) && m.error is None && (m.result matches Some(v)
            && v.deep_view() == Json::Object(Seq::<(Seq<char>, Json)>::empty()))),
        msg.spec_is_request() && msg.method.unwrap()@ == "initialize"@ ==> (r matches
            DispatchAction::Respond(m) && m.error is None && (m.result matches Some(v)
            && spec_get(v.deep_view(), "protocolVersion"@) == Some(
            Json::Text(crate::mcp::spec_mcp_version()),
        ))),
        msg.spec_is_request() && msg.method.unwrap()@ == "tools/call"@ ==> (match msg.params {
            Some(p) => (match spec_get(p.deep_view(), "name"@) {
                Some(Json::Text(nm)) => (r matches DispatchAction::CallTool {
                    id,
                    name,
                    arguments,
                } && Some(id) == msg.id && name@ == nm && (match spec_get(
                    p.deep_view(),
                    "arguments"@,
                ) {
                    Some(a) => arguments matches Some(ag) && ag.deep_view() == a,
                    None => arguments is None,
                })),
                _ => (r matches DispatchAction::Respond(m) && (m.error matches Some(e) && e.code
                    == -32602)),
            }),
            None => (r matches DispatchAction::Respond(m) && (m.error matches Some(e) && e.code
                == -32602)),
        }),
        msg.spec_is_request() && msg.method.unwrap()@ != "initialize"@ && msg.method.unwrap()@
            != "ping"@ && msg.method.unwrap()@ != "tools/list"@ && msg.method.unwrap()@
            != "tools/call"@ ==> (r matches DispatchAction::Respond(m) && (m.error matches Some(e)
            && e.code == -32601)),
{
    proof {
        reveal_strlit("initialize");
        reveal_strlit("ping");
        reveal_strlit("tools/list");
        reveal_strlit("tools/call");
        reveal_strlit("name");
        reveal_strlit("arguments");
        assert("initialize"@.len() == 10 && "ping"@.len() == 4 && "tools/list"@.len() == 10
            && "tools/call"@.len() == 10);
        assert("initialize"@[0] == 'i' && "tools/list"@[0] == 't' && "tools/call"@[6] == 'c'
            && "tools/list"@[6] == 'l');
        assert("initialize"@ != "tools/list"@);
        assert("ping"@ != "tools/list"@);
        assert("tools/call"@ != "tools/list"@) by {
            assert("tools/call"@[6] != "tools/list"@[6]);
        }
        assert("initialize"@ != "ping"@);
    }
    if msg.is_request() {
        let id = match msg.id {
            Some(id) => id,
            None => {
                return DispatchAction::Silent;
            },
        };
        let method = match msg.method {
            Some(m) => m,
            None => {
                return DispatchAction::Silent;
            },
        };
        if str_eq(method.as_str(), "initialize") {
            DispatchAction::Respond(
                McpMessage::response(id, initialize_result(server_name, server_version)),
            )
        } else if str_eq(method.as_str(), "ping") {
            let empty: Vec<(String, JsonValue)> = Vec::new();
            proof {
                assert(crate::json::json_view_obj(empty@, 0) =~= Seq::<(Seq<char>, Json)>::empty());
            }
            DispatchAction::Respond(McpMessage::response(id, JsonValue::Object(empty)))
        } else if str_eq(method.as_str(), "tools/list") {
            DispatchAction::ListTools { id }
        } else if str_eq(method.as_str(), "tools/call") {
            let params = match msg.params {
                Some(p) => p,
                None => {
                    return DispatchAction::Respond(
                        McpMessage::error_response(
                            Some(id),
                            McpError::invalid_params("missing params".to_owned()),
                        ),
                    );
                },
            };
            let name = match params.get("name") {
                Some(n) => match n.as_text() {
                    Some(t) => t.clone(),
                    None => {
                        return DispatchAction::Respond(
                            McpMessage::error_response(
                                Some(id),
                                McpError::invalid_params("the tool name must be a string".to_owned()),
                            ),
                        );
                    },
                },
                None => {
                    return DispatchAction::Respond(
                        McpMessage::error_response(
                            Some(id),
                            McpError::invalid_params("missing tool name".to_owned()),
                        ),
                    );
                },
            };
            let arguments = match params.get("arguments") {
                Some(a) => Some(a.deep_copy()),
                None => None,
            };
            DispatchAction::CallTool { id, name, arguments }
        } else {
            DispatchAction::Respond(McpMessage::error_response(Some(id), McpError::method_not_found()))
        }
    } else {
        DispatchAction::Silent
    }
}

/// The `initialize` result: the protocol version, the capabilities, and
/// the server identity.
pub fn initialize_result(server_name: &str, server_version: &str) -> (r: JsonValue)
    ensures
        spec_get(r.deep_view(), "protocolVersion"@) == Some(
            Json::Text(crate::mcp::spec_mcp_version()),
        ),
{
    let caps = ServerCapabilities::with_tools();
    let mut caps_fields: Vec<(String, JsonValue)> = Vec::new();
    if caps.tools.is_some() {
        caps_fields.push(("tools".to_owned(), JsonValue::Object(Vec::new())));
    }
    let mut info_fields: Vec<(String, JsonValue)> = Vec::new();
    info_fields.push(("name".to_owned(), JsonValue::Text(server_name.to_owned())));
    info_fields.push(("version".to_owned(), JsonValue::Text(server_version.to_owned())));
    let mut fields: Vec<(String, JsonValue)> = Vec::new();
    fields.push(("protocolVersion".to_owned(), JsonValue::Text("2024-11-05".to_owned())));
    fields.push(("capabilities".to_owned(), JsonValue::Object(caps_fields)));
    fields.push(("serverInfo".to_owned(), JsonValue::Object(info_fields)));
    proof {
        reveal_strlit("protocolVersion");
        reveal_strlit("2024-11-05");
        crate::json::lemma_object_deep_view(fields);
        crate::json::lemma_obj_get_at(fields.deep_view(), "protocolVersion"@, 0);
        assert(fields.deep_view()[0] == (
            fields@[0].0@,
            crate::json::json_view(fields@[0].1),
        ));
    }
    JsonValue::Object(fields)
}

/// The `tools/list` result for generated tools: a `tools` array with one
/// entry per tool, each carrying its name.
pub fn tools_list_response(id: JsonValue, tools: Vec<McpTool>) -> (r: McpMessage)
    ensures
        r.spec_is_response(),
        r.id == Some(id),
        r.error is None,
        r.result matches Some(v) && (spec_get(v.deep_view(), "tools"@) matches Some(
            Json::Array(a),
        ) && a.len() == tools@.len() && (forall|k: int|
            0 <= k < a.len() ==> spec_get(#[trigger] a[k], "name"@) == Some(
                Json::Text(tools@[k].name@),
            ))),
{
    let mut tool_values: Vec<JsonValue> = Vec::new();
    let mut incoming = tools;
    while incoming.len() > 0
        invariant
            tool_values@.len() + incoming@.len() == tools@.len(),
            forall|k: int|
                0 <= k < incoming@.len() ==> incoming@[k] == tools@[tool_values@.len() + k],
            forall|k: int|
                0 <= k < tool_values@.len() ==> spec_get(
                    #[trigger] tool_values.deep_view()[k],
                    "name"@,
                ) == Some(Json::Text(tools@[k].name@)),
        decreases incoming@.len(),
    {
        let ghost j = tool_values@.len() as int;
        let ghost inc0 = incoming@;
        let t = incoming.remove(0);
        proof {
            assert(t == tools@[j]);
            assert(forall|k: int| 0 <= k < incoming@.len() ==> incoming@[k] == inc0[k + 1]);
        }
        let mut fields: Vec<(String, JsonValue)> = Vec::new();
        fields.push(("name".to_owned(), JsonValue::Text(t.name)));
        match t.description {
            Some(d) => {
                fields.push(("description".to_owned(), JsonValue::Text(d)));
            },
            None => {},
        }
        let mut schema_fields: Vec<(String, JsonValue)> = Vec::new();
        schema_fields.push(("type".to_owned(), JsonValue::Text(t.input_schema.schema_type)));
        match t.input_schema.properties {
            Some(props) => {
                schema_fields.push(("properties".to_owned(), JsonValue::Object(props)));
            },
            None => {},
        }
        match t.input_schema.required {
            Some(req) => {
                let mut req_values: Vec<JsonValue> = Vec::new();
                let mut rq = req;
                while rq.len() > 0
                    decreases rq@.len(),
                {
                    let name = rq.remove(0);
                    req_values.push(JsonValue::Text(name));
                }
                schema_fields.push(("required".to_owned(), JsonValue::Array(req_values)));
            },
            None => {},
        }
        fields.push(("inputSchema".to_owned(), JsonValue::Object(schema_fields)));
        let entry = JsonValue::Object(fields);
        proof {
            crate::json::lemma_object_deep_view(entry->Object_0);
            crate::json::lemma_obj_get_at(entry->Object_0.deep_view(), "name"@, 0);
            assert(spec_get(entry.deep_view(), "name"@) == Some(Json::Text(tools@[j].name@)));
        }
        let ghost tv0 = tool_values.deep_view();
        tool_values.push(entry);
        proof {
            assert(tool_values.deep_view() =~= tv0.push(entry.deep_view()));
        }
    }
    proof {
        crate::json::lemma_array_deep_view(tool_values);
    }
    let mut result_fields: Vec<(String, JsonValue)> = Vec::new();
    result_fields.push(("tools".to_owned(), JsonValue::Array(tool_values)));
    proof {
        crate::json::lemma_object_deep_view(result_fields);
        crate::json::lemma_obj_get_at(result_fields.deep_view(), "tools"@, 0);
        assert(result_fields.deep_view()[0] == (
            result_fields@[0].0@,
            crate::json::json_view(result_fields@[0].1),
        ));
    }
    McpMessage::response(id, JsonValue::Object(result_fields))
}

/// The `tools/call` result: the executor's framing, as a response, never a
/// protocol error. The result carries a `content` array with one entry per
/// piece, each with its type tag and payload, and the error flag where the
/// executor set one.
pub fn tool_call_response(id: JsonValue, result: ToolCallResult) -> (r: McpMessage)
    ensures
        r.spec_is_response(),
        r.id == Some(id),
        r.error is None,
        r.result matches Some(v) && (spec_get(v.deep_view(), "content"@) matches Some(
            Json::Array(a),
        ) && a.len() == result.content@.len() && (forall|k: int|
            0 <= k < a.len() ==> content_fields_post(#[trigger] a[k], result.content@[k]))),
        r.result matches Some(v) && (match result.is_error {
            Some(b) => spec_get(v.deep_view(), "isError"@) == Some(Json::Bool(b)),
            None => spec_get(v.deep_view(), "isError"@) is None,
        }),
{
    proof {
        reveal_strlit("type");
        reveal_strlit("text");
        reveal_strlit("data");
        reveal_strlit("mimeType");
        reveal_strlit("uri");
        reveal_strlit("content");
        reveal_strlit("isError");
        assert("type"@.len() == 4 && "text"@.len() == 4 && "data"@.len() == 4 && "mimeType"@.len()
            == 8 && "uri"@.len() == 3);
        assert("text"@[1] != "type"@[1]);
        assert("data"@[0] != "type"@[0]);
        assert("content"@[0] != "isError"@[0]);
    }
    let mut content_values: Vec<JsonValue> = Vec::new();
    let mut incoming = result.content;
    while incoming.len() > 0
        invariant
            content_values@.len() + incoming@.len() == result.content@.len(),
            forall|k: int|
                0 <= k < incoming@.len() ==> incoming@[k] == result.content@[content_values@.len()
                    + k],
            forall|k: int|
                0 <= k < content_values@.len() ==> content_fields_post(
                    #[trigger] content_values.deep_view()[k],
                    result.content@[k],
                ),
            "text"@ != "type"@ && "data"@ != "type"@ && "mimeType"@ != "type"@ && "mimeType"@
                != "data"@ && "uri"@ != "type"@,
        decreases incoming@.len(),
    {
        let ghost j = content_values@.len() as int;
        let ghost inc0 = incoming@;
        let piece = incoming.remove(0);
        let ghost gpiece = piece;
        proof {
            assert(piece == result.content@[j]);
            assert(forall|k: int| 0 <= k < incoming@.len() ==> incoming@[k] == inc0[k + 1]);
        }
        let mut fields: Vec<(String, JsonValue)> = Vec::new();
        match piece {
            ToolContent::Text { text } => {
                fields.push(("type".to_owned(), JsonValue::Text("text".to_owned())));
                fields.push(("text".to_owned(), JsonValue::Text(text)));
            },
            ToolContent::Image { data, mime_type } => {
                fields.push(("type".to_owned(), JsonValue::Text("image".to_owned())));
                fields.push(("data".to_owned(), JsonValue::Text(data)));
                fields.push(("mimeType".to_owned(), JsonValue::Text(mime_type)));
            },
            ToolContent::Resource { uri, mime_type, text } => {
                fields.push(("type".to_owned(), JsonValue::Text("resource".to_owned())));
                fields.push(("uri".to_owned(), JsonValue::Text(uri)));
                match mime_type {
                    Some(m) => {
                        fields.push(("mimeType".to_owned(), JsonValue::Text(m)));
                    },
                    None => {},
                }
                match text {
                    Some(t) => {
                        fields.push(("text".to_owned(), JsonValue::Text(t)));
                    },
                    None => {},
                }
            },
        }
        let entry = JsonValue::Object(fields);
        proof {
            let dv = entry->Object_0.deep_view();
            crate::json::lemma_object_deep_view(entry->Object_0);
            crate::json::lemma_obj_get_at(dv, "type"@, 0);
            match gpiece {
                ToolContent::Text { text } => {
                    crate::json::lemma_obj_get_at(dv, "text"@, 1);
                },
                ToolContent::Image { data, mime_type } => {
                    crate::json::lemma_obj_get_at(dv, "data"@, 1);
                    crate::json::lemma_obj_get_at(dv, "mimeType"@, 2);
                },
                ToolContent::Resource { uri, mime_type, text } => {
                    crate::json::lemma_obj_get_at(dv, "uri"@, 1);
                },
            }
            assert(content_fields_post(entry.deep_view(), result.content@[j]));
        }
        let ghost cv0 = content_values.deep_view();
        content_values.push(entry);
        proof {
            assert(content_values.deep_view() =~= cv0.push(entry.deep_view()));
        }
    }
    proof {
        crate::json::lemma_array_deep_view(content_values);
    }
    let mut result_fields: Vec<(String, JsonValue)> = Vec::new();
    result_fields.push(("content".to_owned(), JsonValue::Array(content_values)));
    match result.is_error {
        Some(b) => {
            result_fields.push(("isError".to_owned(), JsonValue::Bool(b)));
        },
        None => {},
    }
    proof {
        crate::json::lemma_object_deep_view(result_fields);
        let dv = result_fields.deep_view();
        crate::json::lemma_obj_get_at(dv, "content"@, 0);
        assert(dv[0] == (result_fields@[0].0@, crate::json::json_view(result_fields@[0].1)));
        match result.is_error {
            Some(b) => {
                assert(dv[1] == (
                    result_fields@[1].0@,
                    crate::json::json_view(result_fields@[1].1),
                ));
                crate::json::lemma_obj_get_at(dv, "isError"@, 1);
            },
            None => {
                reveal_strlit("content");
                reveal_strlit("isError");
                assert("content"@[0] != "isError"@[0]);
                assert(dv.len() == 1);
                assert(dv[0].0 == "content"@);
                assert(dv.skip(1) =~= Seq::<(Seq<char>, Json)>::empty());
                assert(crate::json::spec_obj_get(dv.skip(1), "isError"@) is None);
                assert(crate::json::spec_obj_get(dv, "isError"@) is None);
            },
        }
    }
    McpMessage::response(id, JsonValue::Object(result_fields))
}

/// Decode a JSON-RPC message from its parsed value: each member comes from
/// the field of its name, the version defaulting where absent or not text.
pub fn message_of_json(v: &JsonValue) -> (r: McpMessage)
    ensures
        (match spec_get(v.deep_view(), "jsonrpc"@) {
            Some(Json::Text(t)) => r.jsonrpc@ == t,
            _ => r.jsonrpc@ == "2.0"@,
        }),
        (match spec_get(v.deep_view(), "id"@) {
            Some(x) => r.id matches Some(xv) && xv.deep_view() == x,
            None => r.id is None,
        }),
        (match spec_get(v.deep_view(), "method"@) {
            Some(Json::Text(t)) => r.method matches Some(m) && m@ == t,
            _ => r.method is None,
        }),
        (match spec_get(v.deep_view(), "params"@) {
            Some(x) => r.params matches Some(xv) && xv.deep_view() == x,
            None => r.params is None,
        }),
        (match spec_get(v.deep_view(), "result"@) {
            Some(x) => r.result matches Some(xv) && xv.deep_view() == x,
            None => r.result is None,
        }),
        r.error is None,
{
    let jsonrpc = match text_of(v, "jsonrpc") {
        Some(t) => t,
        None => "2.0".to_owned(),
    };
    McpMessage {
        jsonrpc,
        id: match v.get("id") {
            Some(x) => Some(x.deep_copy()),
            None => None,
        },
        method: text_of(v, "method"),
        params: match v.get("params") {
            Some(x) => Some(x.deep_copy()),
            None => None,
        },
        result: match v.get("result") {
            Some(x) => Some(x.deep_copy()),
            None => None,
        },
        error: None,
    }
}

/// Encode a JSON-RPC message as a value: exactly [`spec_message_fields`]
/// of the message.
pub fn message_to_json(msg: &McpMessage) -> (r: JsonValue)
    ensures
        r.deep_view() == Json::Object(spec_message_fields(*msg)),
{
    let mut fields: Vec<(String, JsonValue)> = Vec::new();
    fields.push(("jsonrpc".to_owned(), JsonValue::Text(msg.jsonrpc.clone())));
    proof {
        assert(fields.deep_view() =~= seq![("jsonrpc"@, Json::Text(msg.jsonrpc@))]);
    }
    match &msg.id {
        Some(id) => {
            let ghost before = fields.deep_view();
            fields.push(("id".to_owned(), id.deep_copy()));
            proof {
                assert(fields.deep_view() =~= before.push(("id"@, id.deep_view())));
            }
        },
        None => {},
    }
    match &msg.method {
        Some(m) => {
            let ghost before = fields.deep_view();
            fields.push(("method".to_owned(), JsonValue::Text(m.clone())));
            proof {
                assert(fields.deep_view() =~= before.push(("method"@, Json::Text(m@))));
            }
        },
        None => {},
    }
    match &msg.params {
        Some(p) => {
            let ghost before = fields.deep_view();
            fields.push(("params".to_owned(), p.deep_copy()));
            proof {
                assert(fields.deep_view() =~= before.push(("params"@, p.deep_view())));
            }
        },
        None => {},
    }
    match &msg.result {
        Some(x) => {
            let ghost before = fields.deep_view();
            fields.push(("result".to_owned(), x.deep_copy()));
            proof {
                assert(fields.deep_view() =~= before.push(("result"@, x.deep_view())));
            }
        },
        None => {},
    }
    match &msg.error {
        Some(e) => {
            let mut err_fields: Vec<(String, JsonValue)> = Vec::new();
            err_fields.push(
                (
                    "code".to_owned(),
                    JsonValue::Number(i32_string(e.code)),
                ),
            );
            err_fields.push(("message".to_owned(), JsonValue::Text(e.message.clone())));
            match &e.data {
                Some(d) => {
                    err_fields.push(("data".to_owned(), d.deep_copy()));
                },
                None => {},
            }
            proof {
                crate::json::lemma_object_deep_view(err_fields);
                assert(err_fields.deep_view() =~= spec_error_fields(*e));
            }
            let ghost before = fields.deep_view();
            let err_value = JsonValue::Object(err_fields);
            fields.push(("error".to_owned(), err_value));
            proof {
                assert(fields.deep_view() =~= before.push((
                    "error"@,
                    Json::Object(spec_error_fields(*e)),
                )));
            }
        },
        None => {},
    }
    proof {
        crate::json::lemma_object_deep_view(fields);
        assert(fields.deep_view() =~= spec_message_fields(*msg));
    }
    JsonValue::Object(fields)
}

/// Render a signed 32-bit number in decimal.
fn i32_string(n: i32) -> (r: String)
    ensures
        r@ == spec_i32_decimal(n as int),
{
    if n >= 0 {
        crate::credential::u64_string(n as u64)
    } else {
        let mag: u64 = if n == i32::MIN {
            2147483648u64
        } else {
            (-n) as u64
        };
        proof {
            reveal_strlit("-");
        }
        "-".to_owned().concat(crate::credential::u64_string(mag).as_str())
    }
}

/// Read a field's string content, if the field is a string.
fn text_of(v: &JsonValue, name: &str) -> (r: Option<String>)
    ensures
        match r {
            Some(s) => spec_get(v.deep_view(), name@) == Some(Json::Text(s@)),
            None => !(spec_get(v.deep_view(), name@) matches Some(j) && j is Text),
        },
{
    match v.get(name) {
        Some(f) => match f.as_text() {
            Some(t) => Some(t.clone()),
            None => None,
        },
        None => None,
    }
}

} // verus!
