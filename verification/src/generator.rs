//! Generating MCP tool descriptors from operations.
//!
//! A tool is named `{integration_key}_{normalized_id with dots as
//! underscores}`; its description joins summary, description, the method
//! and path, and a deprecation mark; its input schema unions path, query
//! and non-auth header parameters with the request body's flattened
//! properties. Property names are sanitized to `[a-zA-Z0-9_.-]{1,64}` with
//! the empty name becoming `param`.

use vstd::prelude::*;
use crate::json::{Json, JsonValue, json_view, spec_obj_get, spec_obj_set, spec_has_key, obj_get,
    obj_set, has_key};
use crate::mcp::{McpInputSchema, McpTool};
use crate::optypes::{ApiOperation, OperationParameter, ParameterLocation, RequestBody};
use crate::strutil::{
    chars_of, string_of, spec_is_upper, spec_is_lower, spec_is_digit, spec_lower_seq, lower_chars,
    str_eq, subrange_chars,
};

verus! {

/// Whether a character may stand in a property name.
pub open spec fn valid_prop_char(c: char) -> bool {
    spec_is_upper(c) || spec_is_lower(c) || spec_is_digit(c) || c == '_' || c == '.' || c == '-'
}

/// A property name sanitized: invalid characters become `_`, the result is
/// cut to 64 characters, and the empty name becomes `param`.
pub open spec fn spec_sanitize_prop(s: Seq<char>) -> Seq<char> {
    let mapped = s.map_values(|c: char| if valid_prop_char(c) { c } else { '_' });
    if s.len() == 0 {
        "param"@
    } else if mapped.len() > 64 {
        mapped.take(64)
    } else {
        mapped
    }
}

/// Sanitize a property name to `[a-zA-Z0-9_.-]{1,64}`; the empty name
/// becomes `param`.
pub fn sanitize_property_name(name: &str) -> (r: String)
    ensures
        r@ == spec_sanitize_prop(name@),
        1 <= r@.len() <= 64,
        forall|i: int| 0 <= i < r@.len() ==> valid_prop_char(#[trigger] r@[i]),
{
    let cs = chars_of(name);
    let n = cs.len();
    proof {
        reveal_strlit("param");
        assert("param"@.len() == 5);
        assert(valid_prop_char("param"@[0]));
        assert(valid_prop_char("param"@[1]));
        assert(valid_prop_char("param"@[2]));
        assert(valid_prop_char("param"@[3]));
        assert(valid_prop_char("param"@[4]));
    }
    if n == 0 {
        return "param".to_owned();
    }
    let mut out: Vec<char> = Vec::new();
    let mut i: usize = 0;
    let limit = if n > 64 {
        64
    } else {
        n
    };
    while i < limit
        invariant
            i <= limit <= n,
            n == name@.len(),
            cs@ == name@,
            out@.len() == i,
            forall|k: int|
                0 <= k < i ==> out@[k] == (if valid_prop_char(name@[k]) {
                    name@[k]
                } else {
                    '_'
                }),
        decreases limit - i,
    {
        let c = cs[i];
        let u = c as u32;
        let ok = (65 <= u && u <= 90) || (97 <= u && u <= 122) || (48 <= u && u <= 57) || c == '_'
            || c == '.' || c == '-';
        proof {
            assert(ok == valid_prop_char(c));
        }
        out.push(if ok {
            c
        } else {
            '_'
        });
        i += 1;
    }
    proof {
        let mapped = name@.map_values(|c: char| if valid_prop_char(c) { c } else { '_' });
        if n > 64 {
            assert(out@ =~= mapped.take(64));
        } else {
            assert(out@ =~= mapped);
        }
    }
    string_of(&out)
}

/// The tool name for an operation: the integration key, `_`, and the
/// normalized id with dots as underscores.
pub open spec fn spec_tool_name(key: Seq<char>, normalized_id: Seq<char>) -> Seq<char> {
    key + seq!['_'] + normalized_id.map_values(|c: char| if c == '.' { '_' } else { c })
}

/// The description: summary, description (where distinct), `[METHOD
/// path]`, and a deprecation mark, joined with blank lines.
pub open spec fn spec_description(op: ApiOperation) -> Seq<char> {
    let bracket = seq!['['] + op.method.spec_str() + seq![' '] + op.path@ + seq![']'];
    let tail = if op.deprecated {
        bracket + "\n\n"@ + "(DEPRECATED)"@
    } else {
        bracket
    };
    let with_desc = match op.description {
        Some(d) => if op.summary matches Some(su) && su@ == d@ {
            tail
        } else {
            d@ + "\n\n"@ + tail
        },
        None => tail,
    };
    match op.summary {
        Some(su) => su@ + "\n\n"@ + with_desc,
        None => with_desc,
    }
}


/// The location hint appended to a parameter's description.
pub open spec fn spec_loc_hint(l: ParameterLocation) -> Seq<char> {
    match l {
        ParameterLocation::Path => "(path parameter)"@,
        ParameterLocation::Query => "(query parameter)"@,
        ParameterLocation::Header => "(header)"@,
        ParameterLocation::Cookie => "(cookie)"@,
    }
}

/// A sequence with leading blanks removed.
pub open spec fn spec_trim_front(s: Seq<char>) -> Seq<char>
    decreases s.len(),
{
    if s.len() > 0 && crate::parser::spec_is_blank(s[0]) {
        spec_trim_front(s.skip(1))
    } else {
        s
    }
}

/// A sequence with trailing blanks removed.
pub open spec fn spec_trim_back(s: Seq<char>) -> Seq<char>
    decreases s.len(),
{
    if s.len() > 0 && crate::parser::spec_is_blank(s[s.len() - 1]) {
        spec_trim_back(s.take(s.len() - 1))
    } else {
        s
    }
}

/// A sequence with leading and trailing blanks removed.
pub open spec fn spec_trim(s: Seq<char>) -> Seq<char> {
    spec_trim_back(spec_trim_front(s))
}

/// The property object a parameter contributes: its own schema fields (or
/// none), a `string` type where none is given, its description with the
/// location hint, and its example.
pub open spec fn param_prop_fields(p: OperationParameter) -> Seq<(Seq<char>, Json)> {
    let base = match p.schema {
        Some(s) => match json_view(s) {
            Json::Object(fs) => fs,
            _ => Seq::<(Seq<char>, Json)>::empty(),
        },
        None => Seq::<(Seq<char>, Json)>::empty(),
    };
    let with_type = if spec_has_key(base, "type"@) {
        base
    } else {
        spec_obj_set(base, "type"@, Json::Text("string"@))
    };
    let desc = spec_trim(
        (match p.description {
            Some(d) => d@,
            None => Seq::<char>::empty(),
        }) + seq![' '] + spec_loc_hint(p.location),
    );
    let with_desc = spec_obj_set(with_type, "description"@, Json::Text(desc));
    match p.example {
        Some(e) => spec_obj_set(with_desc, "example"@, json_view(e)),
        None => with_desc,
    }
}

/// One parameter added to the schema: its property under its sanitized
/// name, and its name on the required list where the parameter is
/// required.
pub open spec fn spec_add_param(
    props: Seq<(Seq<char>, Json)>,
    reqs: Seq<Seq<char>>,
    p: OperationParameter,
) -> (Seq<(Seq<char>, Json)>, Seq<Seq<char>>) {
    (
        spec_obj_set(props, spec_sanitize_prop(p.name@), Json::Object(param_prop_fields(p))),
        if p.required {
            reqs.push(spec_sanitize_prop(p.name@))
        } else {
            reqs
        },
    )
}

/// A header name the schema skips: the auth headers.
pub open spec fn spec_auth_header(name: Seq<char>) -> bool {
    spec_lower_seq(name) == "authorization"@ || spec_lower_seq(name) == "x-api-key"@
        || spec_lower_seq(name) == "api-key"@
}

/// Whether a pass takes a parameter: its location matches, and on the
/// header pass the auth headers are skipped.
pub open spec fn spec_pass_takes(
    p: OperationParameter,
    loc: ParameterLocation,
    skip_auth: bool,
) -> bool {
    p.location == loc && (!skip_auth || !spec_auth_header(p.name@))
}

/// One pass over the parameters from index `i`, adding those a location
/// takes.
pub open spec fn spec_pass(
    props: Seq<(Seq<char>, Json)>,
    reqs: Seq<Seq<char>>,
    params: Seq<OperationParameter>,
    i: int,
    loc: ParameterLocation,
    skip_auth: bool,
) -> (Seq<(Seq<char>, Json)>, Seq<Seq<char>>)
    decreases params.len() - i,
{
    if i < 0 || i >= params.len() {
        (props, reqs)
    } else if spec_pass_takes(params[i], loc, skip_auth) {
        let step = spec_add_param(props, reqs, params[i]);
        spec_pass(step.0, step.1, params, i + 1, loc, skip_auth)
    } else {
        spec_pass(props, reqs, params, i + 1, loc, skip_auth)
    }
}

/// The `properties` entries of a schema object, or none.
pub open spec fn props_entries(fields: Seq<(Seq<char>, Json)>) -> Seq<(Seq<char>, Json)> {
    match spec_obj_get(fields, "properties"@) {
        Some(Json::Object(po)) => po,
        _ => Seq::<(Seq<char>, Json)>::empty(),
    }
}

/// The `required` entries of a schema object, or none.
pub open spec fn required_entries(fields: Seq<(Seq<char>, Json)>) -> Seq<Json> {
    match spec_obj_get(fields, "required"@) {
        Some(Json::Array(ra)) => ra,
        _ => Seq::<Json>::empty(),
    }
}

/// A composition list of a schema object, or none.
pub open spec fn list_of(fields: Seq<(Seq<char>, Json)>, key: Seq<char>) -> Seq<Json> {
    match spec_obj_get(fields, key) {
        Some(Json::Array(a)) => a,
        _ => Seq::<Json>::empty(),
    }
}

/// Direct properties added from index `i`, first occurrence of a name
/// winning.
pub open spec fn add_direct_props(
    acc: Seq<(Seq<char>, Json)>,
    entries: Seq<(Seq<char>, Json)>,
    i: int,
) -> Seq<(Seq<char>, Json)>
    decreases entries.len() - i,
{
    if i < 0 || i >= entries.len() {
        acc
    } else if spec_has_key(acc, entries[i].0) {
        add_direct_props(acc, entries, i + 1)
    } else {
        add_direct_props(acc.push(entries[i]), entries, i + 1)
    }
}

/// Required names added from index `i`: string entries, deduplicated.
pub open spec fn add_required_names(acc: Seq<Seq<char>>, entries: Seq<Json>, i: int) -> Seq<
    Seq<char>,
>
    decreases entries.len() - i,
{
    if i < 0 || i >= entries.len() {
        acc
    } else {
        match entries[i] {
            Json::Text(t) => if acc.contains(t) {
                add_required_names(acc, entries, i + 1)
            } else {
                add_required_names(acc.push(t), entries, i + 1)
            },
            _ => add_required_names(acc, entries, i + 1),
        }
    }
}

/// A schema's flattened properties and required names, to depth 10: direct
/// properties first (first name wins), required entries deduplicated, then
/// each `allOf`, `oneOf` and `anyOf` variant in turn.
pub open spec fn spec_flatten(
    schema: Json,
    props: Seq<(Seq<char>, Json)>,
    reqs: Seq<Seq<char>>,
    depth: int,
) -> (Seq<(Seq<char>, Json)>, Seq<Seq<char>>)
    decreases 11 - depth, 1int, 0int,
{
    if depth > 10 {
        (props, reqs)
    } else {
        match schema {
            Json::Object(fields) => {
                let p1 = add_direct_props(props, props_entries(fields), 0);
                let r1 = add_required_names(reqs, required_entries(fields), 0);
                let s2 = spec_flatten_list(list_of(fields, "allOf"@), 0, p1, r1, depth);
                let s3 = spec_flatten_list(list_of(fields, "oneOf"@), 0, s2.0, s2.1, depth);
                spec_flatten_list(list_of(fields, "anyOf"@), 0, s3.0, s3.1, depth)
            },
            _ => (props, reqs),
        }
    }
}

/// Each variant of a composition list flattened, one level deeper.
pub open spec fn spec_flatten_list(
    elems: Seq<Json>,
    i: int,
    props: Seq<(Seq<char>, Json)>,
    reqs: Seq<Seq<char>>,
    depth: int,
) -> (Seq<(Seq<char>, Json)>, Seq<Seq<char>>)
    decreases 11 - depth, 0int, elems.len() - i,
{
    if depth > 10 || i < 0 || i >= elems.len() {
        (props, reqs)
    } else {
        let step = spec_flatten(elems[i], props, reqs, depth + 1);
        spec_flatten_list(elems, i + 1, step.0, step.1, depth)
    }
}

/// A flattened body property as the schema carries it: an object gains the
/// `(body)` description suffix; anything else passes through.
pub open spec fn spec_body_prop(v: Json) -> Json {
    match v {
        Json::Object(obj) => {
            let desc0 = match spec_obj_get(obj, "description"@) {
                Some(Json::Text(t)) => t,
                _ => Seq::<char>::empty(),
            };
            Json::Object(
                spec_obj_set(
                    obj,
                    "description"@,
                    Json::Text(spec_trim(desc0 + seq![' '] + "(body)"@)),
                ),
            )
        },
        _ => v,
    }
}

/// Flattened body properties merged from index `i`, under sanitized names.
pub open spec fn add_body_props(
    acc: Seq<(Seq<char>, Json)>,
    fp: Seq<(Seq<char>, Json)>,
    i: int,
) -> Seq<(Seq<char>, Json)>
    decreases fp.len() - i,
{
    if i < 0 || i >= fp.len() {
        acc
    } else {
        add_body_props(
            spec_obj_set(acc, spec_sanitize_prop(fp[i].0), spec_body_prop(fp[i].1)),
            fp,
            i + 1,
        )
    }
}

/// Flattened body required names merged from index `i`, sanitized and
/// deduplicated.
pub open spec fn add_body_reqs(acc: Seq<Seq<char>>, fr: Seq<Seq<char>>, i: int) -> Seq<Seq<char>>
    decreases fr.len() - i,
{
    if i < 0 || i >= fr.len() {
        acc
    } else {
        let name = spec_sanitize_prop(fr[i]);
        if acc.contains(name) {
            add_body_reqs(acc, fr, i + 1)
        } else {
            add_body_reqs(acc.push(name), fr, i + 1)
        }
    }
}

/// The request body merged into the schema: its flattened properties, and
/// — only where the body itself is required — its flattened required
/// names.
pub open spec fn spec_merge_body(
    props: Seq<(Seq<char>, Json)>,
    reqs: Seq<Seq<char>>,
    body: RequestBody,
) -> (Seq<(Seq<char>, Json)>, Seq<Seq<char>>) {
    match body.schema {
        None => (props, reqs),
        Some(s) => {
            let flat = spec_flatten(
                json_view(s),
                Seq::<(Seq<char>, Json)>::empty(),
                Seq::<Seq<char>>::empty(),
                0,
            );
            (
                add_body_props(props, flat.0, 0),
                if body.required {
                    add_body_reqs(reqs, flat.1, 0)
                } else {
                    reqs
                },
            )
        },
    }
}

/// The whole input schema of an operation: path, query and non-auth header
/// parameters in that order, then the request body.
pub open spec fn spec_input_schema(op: ApiOperation) -> (Seq<(Seq<char>, Json)>, Seq<Seq<char>>) {
    let empty_props = Seq::<(Seq<char>, Json)>::empty();
    let empty_reqs = Seq::<Seq<char>>::empty();
    let s1 = spec_pass(empty_props, empty_reqs, op.parameters@, 0, ParameterLocation::Path, false);
    let s2 = spec_pass(s1.0, s1.1, op.parameters@, 0, ParameterLocation::Query, false);
    let s3 = spec_pass(s2.0, s2.1, op.parameters@, 0, ParameterLocation::Header, true);
    match op.request_body {
        Some(b) => spec_merge_body(s3.0, s3.1, b),
        None => s3,
    }
}

/// Tools are generated per operation with the integration key prefix.
pub struct ToolGenerator;

impl ToolGenerator {
    /// A tool generator.
    pub fn new() -> (r: ToolGenerator) {
        ToolGenerator
    }

    /// The tool name for an operation.
    fn tool_name(&self, integration_key: &str, normalized_id: &str) -> (r: String)
        ensures
            r@ == spec_tool_name(integration_key@, normalized_id@),
    {
        let mut out = chars_of(integration_key);
        out.push('_');
        let cs = chars_of(normalized_id);
        let n = cs.len();
        let mut i: usize = 0;
        let ghost base = out@;
        while i < n
            invariant
                i <= n,
                cs@ == normalized_id@,
                n == normalized_id@.len(),
                out@.len() == base.len() + i,
                out@.subrange(0, base.len() as int) == base,
                forall|k: int|
                    0 <= k < i ==> out@[base.len() + k] == (if normalized_id@[k] == '.' {
                        '_'
                    } else {
                        normalized_id@[k]
                    }),
            decreases n - i,
        {
            let c = cs[i];
            out.push(
                if c == '.' {
                    '_'
                } else {
                    c
                },
            );
            proof {
                assert(out@.subrange(0, base.len() as int) =~= base);
            }
            i += 1;
        }
        proof {
            assert forall|k: int| 0 <= k < base.len() implies out@[k] == base[k] by {
                assert(out@.subrange(0, base.len() as int)[k] == out@[k]);
            }
            assert(base =~= integration_key@ + seq!['_']);
            assert(out@ =~= spec_tool_name(integration_key@, normalized_id@));
        }
        string_of(&out)
    }

    /// Build the description of an operation's tool.
    #[verifier::rlimit(100)]
    pub fn build_description(&self, operation: &ApiOperation) -> (r: String)
        ensures
            r@ == spec_description(*operation),
    {
        proof {
            reveal_strlit("\n\n");
            reveal_strlit("(DEPRECATED)");
            reveal_strlit("[");
            reveal_strlit(" ");
            reveal_strlit("]");
        }
        let mut out: Vec<char> = Vec::new();
        match &operation.summary {
            Some(su) => {
                let mut sc = chars_of(su.as_str());
                out.append(&mut sc);
                out.push('\n');
                out.push('\n');
            },
            None => {},
        }
        match &operation.description {
            Some(d) => {
                let skip_desc = match &operation.summary {
                    Some(su) => str_eq(su.as_str(), d.as_str()),
                    None => false,
                };
                if !skip_desc {
                    let mut dc = chars_of(d.as_str());
                    out.append(&mut dc);
                    out.push('\n');
                    out.push('\n');
                }
            },
            None => {},
        }
        out.push('[');
        let mut mc = chars_of(operation.method.as_str());
        out.append(&mut mc);
        out.push(' ');
        let mut pc = chars_of(operation.path.as_str());
        out.append(&mut pc);
        out.push(']');
        if operation.deprecated {
            out.push('\n');
            out.push('\n');
            let mut depc = chars_of("(DEPRECATED)");
            out.append(&mut depc);
        }
        proof {
            assert(out@ =~= spec_description(*operation));
        }
        string_of(&out)
    }

    /// Generate the tool for one operation.
    pub fn generate_tool(&self, integration_key: &str, operation: &ApiOperation) -> (r: McpTool)
        ensures
            r.name@ == spec_tool_name(integration_key@, operation.normalized_id@),
            r.description matches Some(d) && d@ == spec_description(*operation),
            r.input_schema.schema_type@ == "object"@,
            ({
                let target = spec_input_schema(*operation);
                &&& (target.0.len() == 0 ==> r.input_schema.properties is None)
                &&& (target.0.len() > 0 ==> (r.input_schema.properties matches Some(ps)
                    && ps.deep_view() == target.0))
                &&& (target.1.len() == 0 ==> r.input_schema.required is None)
                &&& (target.1.len() > 0 ==> (r.input_schema.required matches Some(rs)
                    && rs.deep_view() == target.1))
            }),
    {
        let name = self.tool_name(integration_key, operation.normalized_id.as_str());
        let description = self.build_description(operation);
        let input_schema = self.build_input_schema(operation);
        McpTool { name, description: Some(description), input_schema }
    }

    /// Generate the tools of an integration's operations, in order.
    pub fn generate_tools(&self, integration_key: &str, operations: &Vec<ApiOperation>) -> (r:
        Vec<McpTool>)
        ensures
            r@.len() == operations@.len(),
            forall|k: int|
                0 <= k < r@.len() ==> (#[trigger] r@[k]).name@ == spec_tool_name(
                    integration_key@,
                    operations@[k].normalized_id@,
                ) && (r@[k].description matches Some(d) && d@ == spec_description(
                    operations@[k],
                )),
    {
        let n = operations.len();
        let mut out: Vec<McpTool> = Vec::new();
        let mut i: usize = 0;
        while i < n
            invariant
                i <= n,
                n == operations@.len(),
                out@.len() == i,
                forall|k: int|
                    0 <= k < i ==> (#[trigger] out@[k]).name@ == spec_tool_name(
                        integration_key@,
                        operations@[k].normalized_id@,
                    ) && (out@[k].description matches Some(d) && d@ == spec_description(
                        operations@[k],
                    )),
            decreases n - i,
        {
            let tool = self.generate_tool(integration_key, &operations[i]);
            out.push(tool);
            i += 1;
        }
        out
    }

    /// Build the input schema: path, query and non-auth header parameters,
    /// then the request body's flattened properties; the required list
    /// unions required parameters with the body's required fields. The
    /// result is exactly [`spec_input_schema`] of the operation, with empty
    /// maps and lists omitted.
    #[verifier::loop_isolation(false)]
    pub fn build_input_schema(&self, operation: &ApiOperation) -> (r: McpInputSchema)
        ensures
            r.schema_type@ == "object"@,
            ({
                let target = spec_input_schema(*operation);
                &&& (target.0.len() == 0 ==> r.properties is None)
                &&& (target.0.len() > 0 ==> (r.properties matches Some(ps) && ps.deep_view()
                    == target.0))
                &&& (target.1.len() == 0 ==> r.required is None)
                &&& (target.1.len() > 0 ==> (r.required matches Some(rs) && rs.deep_view()
                    == target.1))
            }),
    {
        let mut properties: Vec<(String, JsonValue)> = Vec::new();
        let mut required: Vec<String> = Vec::new();
        let ghost params = operation.parameters@;
        let ghost target = spec_input_schema(*operation);
        let n = operation.parameters.len();
        let ghost s1 = spec_pass(
            Seq::<(Seq<char>, Json)>::empty(),
            Seq::<Seq<char>>::empty(),
            params,
            0,
            ParameterLocation::Path,
            false,
        );
        let mut i: usize = 0;
        proof {
            assert(properties.deep_view() =~= Seq::<(Seq<char>, Json)>::empty());
            assert(required.deep_view() =~= Seq::<Seq<char>>::empty());
        }
        while i < n
            invariant
                i <= n,
                s1 == spec_pass(
                    properties.deep_view(),
                    required.deep_view(),
                    params,
                    i as int,
                    ParameterLocation::Path,
                    false,
                ),
            decreases n - i,
        {
            let p = &operation.parameters[i];
            if matches!(p.location, ParameterLocation::Path) {
                self.add_parameter(&mut properties, &mut required, p);
            }
            i += 1;
        }
        let ghost s2 = spec_pass(s1.0, s1.1, params, 0, ParameterLocation::Query, false);
        let mut i2: usize = 0;
        while i2 < n
            invariant
                i2 <= n,
                s2 == spec_pass(
                    properties.deep_view(),
                    required.deep_view(),
                    params,
                    i2 as int,
                    ParameterLocation::Query,
                    false,
                ),
            decreases n - i2,
        {
            let p = &operation.parameters[i2];
            if matches!(p.location, ParameterLocation::Query) {
                self.add_parameter(&mut properties, &mut required, p);
            }
            i2 += 1;
        }
        let ghost s3 = spec_pass(s2.0, s2.1, params, 0, ParameterLocation::Header, true);
        let mut i3: usize = 0;
        proof {
            reveal_strlit("authorization");
            reveal_strlit("x-api-key");
            reveal_strlit("api-key");
        }
        while i3 < n
            invariant
                i3 <= n,
                s3 == spec_pass(
                    properties.deep_view(),
                    required.deep_view(),
                    params,
                    i3 as int,
                    ParameterLocation::Header,
                    true,
                ),
            decreases n - i3,
        {
            let p = &operation.parameters[i3];
            if matches!(p.location, ParameterLocation::Header) {
                let lc = lower_chars(&chars_of(p.name.as_str()));
                let lowered = string_of(&lc);
                let skip = str_eq(lowered.as_str(), "authorization") || str_eq(
                    lowered.as_str(),
                    "x-api-key",
                ) || str_eq(lowered.as_str(), "api-key");
                proof {
                    assert(skip == spec_auth_header(p.name@));
                }
                if !skip {
                    self.add_parameter(&mut properties, &mut required, p);
                }
            }
            i3 += 1;
        }
        match &operation.request_body {
            Some(body) => {
                self.merge_body_schema(&mut properties, &mut required, body);
            },
            None => {},
        }
        proof {
            assert(properties.deep_view() == target.0);
            assert(required.deep_view() == target.1);
        }
        let has_props = properties.len() > 0;
        let has_req = required.len() > 0;
        proof {
            crate::json::lemma_object_deep_view(properties);
            assert(properties.deep_view().len() == properties@.len());
            assert(required.deep_view().len() == required@.len());
        }
        McpInputSchema {
            schema_type: "object".to_owned(),
            properties: if has_props {
                Some(properties)
            } else {
                None
            },
            required: if has_req {
                Some(required)
            } else {
                None
            },
        }
    }

    /// Add one parameter to the schema: its own schema object (or a string
    /// type), a description with a location hint, and an example, under
    /// its sanitized name; required parameters also join the required
    /// list.
    #[verifier::loop_isolation(false)]
    fn add_parameter(
        &self,
        properties: &mut Vec<(String, JsonValue)>,
        required: &mut Vec<String>,
        param: &OperationParameter,
    )
        ensures
            (final(properties).deep_view(), final(required).deep_view()) == spec_add_param(
                old(properties).deep_view(),
                old(required).deep_view(),
                *param,
            ),
    {
        proof {
            reveal_strlit("type");
            reveal_strlit("string");
            reveal_strlit("description");
            reveal_strlit("example");
            reveal_strlit("(path parameter)");
            reveal_strlit("(query parameter)");
            reveal_strlit("(header)");
            reveal_strlit("(cookie)");
        }
        let mut prop: Vec<(String, JsonValue)> = match &param.schema {
            Some(s) => match s {
                JsonValue::Object(o) => {
                    proof {
                        crate::json::lemma_object_deep_view(*o);
                    }
                    clone_fields(o)
                },
                _ => Vec::new(),
            },
            None => Vec::new(),
        };
        proof {
            assert(prop.deep_view() =~= (match param.schema {
                Some(s) => match json_view(s) {
                    Json::Object(fs) => fs,
                    _ => Seq::<(Seq<char>, Json)>::empty(),
                },
                None => Seq::<(Seq<char>, Json)>::empty(),
            }));
        }
        if !has_key(&prop, "type") {
            obj_set(&mut prop, "type".to_owned(), JsonValue::Text("string".to_owned()));
        }
        let hint: &str = match param.location {
            ParameterLocation::Path => "(path parameter)",
            ParameterLocation::Query => "(query parameter)",
            ParameterLocation::Header => "(header)",
            ParameterLocation::Cookie => "(cookie)",
        };
        let mut desc_chars: Vec<char> = match &param.description {
            Some(d) => chars_of(d.as_str()),
            None => Vec::new(),
        };
        desc_chars.push(' ');
        let mut hint_chars = chars_of(hint);
        desc_chars.append(&mut hint_chars);
        proof {
            assert(desc_chars@ =~= (match param.description {
                Some(d) => d@,
                None => Seq::<char>::empty(),
            }) + seq![' '] + spec_loc_hint(param.location));
        }
        let trimmed = trim_spaces(&desc_chars);
        obj_set(&mut prop, "description".to_owned(), JsonValue::Text(string_of(&trimmed)));
        match &param.example {
            Some(e) => {
                obj_set(&mut prop, "example".to_owned(), e.deep_copy());
            },
            None => {},
        }
        proof {
            assert(prop.deep_view() == param_prop_fields(*param));
            crate::json::lemma_object_deep_view(prop);
        }
        let sanitized = sanitize_property_name(param.name.as_str());
        obj_set(properties, sanitized.clone(), JsonValue::Object(prop));
        if param.required {
            required.push(sanitized);
            proof {
                assert(required.deep_view() =~= old(required).deep_view().push(
                    spec_sanitize_prop(param.name@),
                ));
            }
        }
    }

    /// Merge a request body's flattened properties into the schema; the
    /// body's required fields count only where the body itself is
    /// required.
    #[verifier::loop_isolation(false)]
    fn merge_body_schema(
        &self,
        properties: &mut Vec<(String, JsonValue)>,
        required: &mut Vec<String>,
        body: &RequestBody,
    )
        ensures
            (final(properties).deep_view(), final(required).deep_view()) == spec_merge_body(
                old(properties).deep_view(),
                old(required).deep_view(),
                *body,
            ),
    {
        proof {
            reveal_strlit("description");
            reveal_strlit("(body)");
        }
        let schema = match &body.schema {
            Some(s) => s,
            None => {
                return ;
            },
        };
        let mut flat_props: Vec<(String, JsonValue)> = Vec::new();
        let mut flat_required: Vec<String> = Vec::new();
        proof {
            assert(flat_props.deep_view() =~= Seq::<(Seq<char>, Json)>::empty());
            assert(flat_required.deep_view() =~= Seq::<Seq<char>>::empty());
        }
        flatten_schema_into(schema, &mut flat_props, &mut flat_required, 0);
        let ghost flat = spec_flatten(
            json_view(*schema),
            Seq::<(Seq<char>, Json)>::empty(),
            Seq::<Seq<char>>::empty(),
            0,
        );
        let nf = flat_props.len();
        let mut i: usize = 0;
        while i < nf
            invariant
                i <= nf,
                nf == flat_props@.len(),
                flat_props.deep_view() == flat.0,
                add_body_props(properties.deep_view(), flat.0, i as int) == add_body_props(
                    old(properties).deep_view(),
                    flat.0,
                    0,
                ),
                required.deep_view() == old(required).deep_view(),
            decreases nf - i,
        {
            let ghost old_props_dv_at_i = properties.deep_view();
            let prop0 = flat_props[i].1.deep_copy();
            proof {
                assert(flat_props.deep_view()[i as int] == (
                    flat_props@[i as int].0@,
                    json_view(flat_props@[i as int].1),
                ));
                assert(prop0.deep_view() == flat.0[i as int].1);
            }
            let ghost target_prop = spec_body_prop(flat.0[i as int].1);
            let prop = match prop0 {
                JsonValue::Object(mut obj) => {
                    proof {
                        crate::json::lemma_object_deep_view(obj);
                        assert(flat.0[i as int].1 == Json::Object(obj.deep_view()));
                    }
                    let ghost obj0 = obj.deep_view();
                    let desc0: Vec<char> = match obj_get(&obj, "description") {
                        Some(d) => match d.as_text() {
                            Some(t) => chars_of(t.as_str()),
                            None => Vec::new(),
                        },
                        None => Vec::new(),
                    };
                    proof {
                        assert(desc0@ =~= (match spec_obj_get(obj0, "description"@) {
                            Some(Json::Text(t)) => t,
                            _ => Seq::<char>::empty(),
                        }));
                    }
                    let ghost d0 = desc0@;
                    let mut dc = desc0;
                    dc.push(' ');
                    let mut suffix = chars_of("(body)");
                    dc.append(&mut suffix);
                    proof {
                        assert(dc@ =~= d0 + seq![' '] + "(body)"@);
                    }
                    let trimmed = trim_spaces(&dc);
                    obj_set(&mut obj, "description".to_owned(), JsonValue::Text(string_of(&trimmed)));
                    let r = JsonValue::Object(obj);
                    proof {
                        crate::json::lemma_object_deep_view(r->Object_0);
                        assert(r.deep_view() == target_prop);
                    }
                    r
                },
                other => {
                    proof {
                        assert(other.deep_view() == target_prop);
                    }
                    other
                },
            };
            let sanitized = sanitize_property_name(flat_props[i].0.as_str());
            obj_set(properties, sanitized, prop);
            proof {
                assert(properties.deep_view() == spec_obj_set(
                    old_props_dv_at_i,
                    spec_sanitize_prop(flat.0[i as int].0),
                    target_prop,
                ));
            }
            i += 1;
        }
        if body.required {
            let nr = flat_required.len();
            let mut j: usize = 0;
            while j < nr
                invariant
                    j <= nr,
                    nr == flat_required@.len(),
                    flat_required.deep_view() == flat.1,
                    add_body_reqs(required.deep_view(), flat.1, j as int) == add_body_reqs(
                        old(required).deep_view(),
                        flat.1,
                        0,
                    ),
                    properties.deep_view() == add_body_props(old(properties).deep_view(), flat.0, 0),
                decreases nr - j,
            {
                proof {
                    assert(flat.1[j as int] == flat_required@[j as int]@);
                }
                let ghost rdv = required.deep_view();
                let sanitized = sanitize_property_name(flat_required[j].as_str());
                if !contains_string(required, sanitized.as_str()) {
                    required.push(sanitized);
                    proof {
                        assert(required.deep_view() =~= rdv.push(spec_sanitize_prop(
                            flat.1[j as int],
                        )));
                    }
                }
                j += 1;
            }
        }
    }
}

/// Whether a string list holds a value.
fn contains_string(v: &Vec<String>, s: &str) -> (r: bool)
    ensures
        r == v.deep_view().contains(s@),
{
    let n = v.len();
    let mut i: usize = 0;
    while i < n
        invariant
            i <= n,
            n == v@.len(),
            forall|k: int| 0 <= k < i ==> v.deep_view()[k] != s@,
        decreases n - i,
    {
        if str_eq(v[i].as_str(), s) {
            proof {
                assert(v.deep_view()[i as int] == s@);
            }
            return true;
        }
        i += 1;
    }
    proof {
        if v.deep_view().contains(s@) {
            let k = choose|k: int| 0 <= k < v.deep_view().len() && v.deep_view()[k] == s@;
        }
    }
    false
}

/// The characters of `v` with leading and trailing blanks removed.
#[verifier::loop_isolation(false)]
fn trim_spaces(v: &Vec<char>) -> (r: Vec<char>)
    ensures
        r@ == spec_trim(v@),
{
    let n = v.len();
    let mut start: usize = 0;
    proof {
        assert(v@.skip(0) =~= v@);
    }
    while start < n && (v[start] == ' ' || v[start] == '\t' || v[start] == '\n' || v[start]
        == '\r')
        invariant
            start <= n,
            n == v@.len(),
            spec_trim_front(v@) == spec_trim_front(v@.skip(start as int)),
        decreases n - start,
    {
        proof {
            assert(v@.skip(start as int)[0] == v@[start as int]);
            assert(v@.skip(start as int).skip(1) =~= v@.skip(start as int + 1));
        }
        start += 1;
    }
    proof {
        if start < n {
            assert(v@.skip(start as int)[0] == v@[start as int]);
        }
        assert(spec_trim_front(v@) == v@.skip(start as int));
    }
    let mut end: usize = n;
    while end > start && (v[end - 1] == ' ' || v[end - 1] == '\t' || v[end - 1] == '\n' || v[end
        - 1] == '\r')
        invariant
            start <= end <= n,
            n == v@.len(),
            spec_trim_back(v@.skip(start as int)) == spec_trim_back(
                v@.subrange(start as int, end as int),
            ),
        decreases end,
    {
        proof {
            let cur = v@.subrange(start as int, end as int);
            assert(cur[cur.len() - 1] == v@[end - 1]);
            assert(cur.take(cur.len() - 1) =~= v@.subrange(start as int, end as int - 1));
        }
        end -= 1;
    }
    proof {
        let cur = v@.subrange(start as int, end as int);
        if end > start {
            assert(cur[cur.len() - 1] == v@[end - 1]);
        }
        assert(spec_trim_back(cur) == cur);
        assert(v@.skip(start as int) =~= v@.subrange(start as int, n as int));
    }
    subrange_chars(v, start, end)
}

/// Copy an object's field list.
fn clone_fields(fields: &Vec<(String, JsonValue)>) -> (r: Vec<(String, JsonValue)>)
    ensures
        r.deep_view() == fields.deep_view(),
{
    let n = fields.len();
    let mut out: Vec<(String, JsonValue)> = Vec::new();
    let mut i: usize = 0;
    while i < n
        invariant
            i <= n,
            n == fields@.len(),
            out@.len() == i,
            forall|k: int|
                0 <= k < i ==> (#[trigger] out@[k]).0@ == fields@[k].0@ && out@[k].1.deep_view()
                    == fields@[k].1.deep_view(),
        decreases n - i,
    {
        let key = fields[i].0.clone();
        let val = fields[i].1.deep_copy();
        out.push((key, val));
        i += 1;
    }
    proof {
        assert(out.deep_view() =~= fields.deep_view());
    }
    out
}

/// Flatten a schema's properties and required names into the accumulators:
/// direct `properties` first (first occurrence of a name wins), `required`
/// entries deduplicated, then each `allOf`/`oneOf`/`anyOf` variant, to
/// depth 10.
#[verifier::loop_isolation(false)]
fn flatten_schema_into(
    schema: &JsonValue,
    properties: &mut Vec<(String, JsonValue)>,
    required: &mut Vec<String>,
    depth: usize,
)
    ensures
        (final(properties).deep_view(), final(required).deep_view()) == spec_flatten(
            json_view(*schema),
            old(properties).deep_view(),
            old(required).deep_view(),
            depth as int,
        ),
    decreases 11int - depth, 1int,
{
    if depth > 10 {
        return ;
    }
    let fields = match schema {
        JsonValue::Object(f) => f,
        _ => {
            return ;
        },
    };
    proof {
        crate::json::lemma_object_deep_view(*fields);
        assert(json_view(*schema) == Json::Object(fields.deep_view()));
    }
    let ghost fdv = fields.deep_view();
    let ghost p0 = old(properties).deep_view();
    let ghost r0 = old(required).deep_view();
    match obj_get(fields, "properties") {
        Some(props) => match props.as_object() {
            Some(po) => {
                proof {
                    assert(props_entries(fdv) == po.deep_view());
                }
                let np = po.len();
                let mut i: usize = 0;
                while i < np
                    invariant
                        i <= np,
                        np == po@.len(),
                        required.deep_view() == r0,
                        add_direct_props(p0, po.deep_view(), 0) == add_direct_props(
                            properties.deep_view(),
                            po.deep_view(),
                            i as int,
                        ),
                    decreases np - i,
                {
                    proof {
                        assert(po.deep_view()[i as int] == (po@[i as int].0@, json_view(
                            po@[i as int].1,
                        )));
                    }
                    if !has_key(properties, po[i].0.as_str()) {
                        let ghost before = properties.deep_view();
                        properties.push((po[i].0.clone(), po[i].1.deep_copy()));
                        proof {
                            assert(properties.deep_view() =~= before.push(
                                po.deep_view()[i as int],
                            ));
                        }
                    }
                    i += 1;
                }
            },
            None => {
                proof {
                    assert(props_entries(fdv) =~= Seq::<(Seq<char>, Json)>::empty());
                }
            },
        },
        None => {
            proof {
                assert(props_entries(fdv) =~= Seq::<(Seq<char>, Json)>::empty());
            }
        },
    }
    proof {
        assert(properties.deep_view() == add_direct_props(p0, props_entries(fdv), 0));
    }
    let ghost p1 = properties.deep_view();
    match obj_get(fields, "required") {
        Some(req) => match req.as_array() {
            Some(ra) => {
                proof {
                    assert(required_entries(fdv) == ra.deep_view());
                }
                let nr = ra.len();
                let mut i: usize = 0;
                while i < nr
                    invariant
                        i <= nr,
                        nr == ra@.len(),
                        properties.deep_view() == p1,
                        add_required_names(r0, ra.deep_view(), 0) == add_required_names(
                            required.deep_view(),
                            ra.deep_view(),
                            i as int,
                        ),
                    decreases nr - i,
                {
                    proof {
                        assert(ra.deep_view()[i as int] == json_view(ra@[i as int]));
                    }
                    match ra[i].as_text() {
                        Some(t) => {
                            if !contains_string(required, t.as_str()) {
                                let ghost before = required.deep_view();
                                required.push(t.clone());
                                proof {
                                    assert(required.deep_view() =~= before.push(t@));
                                }
                            }
                        },
                        None => {},
                    }
                    i += 1;
                }
            },
            None => {
                proof {
                    assert(required_entries(fdv) =~= Seq::<Json>::empty());
                }
            },
        },
        None => {
            proof {
                assert(required_entries(fdv) =~= Seq::<Json>::empty());
            }
        },
    }
    proof {
        assert(required.deep_view() == add_required_names(r0, required_entries(fdv), 0));
    }
    flatten_variants(fields, "allOf", properties, required, depth);
    flatten_variants(fields, "oneOf", properties, required, depth);
    flatten_variants(fields, "anyOf", properties, required, depth);
}

/// Flatten each variant of a composition list.
#[verifier::loop_isolation(false)]
fn flatten_variants(
    fields: &Vec<(String, JsonValue)>,
    key: &str,
    properties: &mut Vec<(String, JsonValue)>,
    required: &mut Vec<String>,
    depth: usize,
)
    requires
        depth <= 10,
    ensures
        (final(properties).deep_view(), final(required).deep_view()) == spec_flatten_list(
            list_of(fields.deep_view(), key@),
            0,
            old(properties).deep_view(),
            old(required).deep_view(),
            depth as int,
        ),
    decreases 11int - depth, 0int,
{
    let ghost p0 = properties.deep_view();
    let ghost r0 = required.deep_view();
    match obj_get(fields, key) {
        Some(list) => match list.as_array() {
            Some(arr) => {
                proof {
                    assert(list_of(fields.deep_view(), key@) == arr.deep_view());
                }
                let na = arr.len();
                let mut i: usize = 0;
                while i < na
                    invariant
                        i <= na,
                        na == arr@.len(),
                        spec_flatten_list(arr.deep_view(), 0, p0, r0, depth as int)
                            == spec_flatten_list(
                            arr.deep_view(),
                            i as int,
                            properties.deep_view(),
                            required.deep_view(),
                            depth as int,
                        ),
                    decreases na - i,
                {
                    proof {
                        assert(arr.deep_view()[i as int] == json_view(arr@[i as int]));
                    }
                    flatten_schema_into(&arr[i], properties, required, depth + 1);
                    i += 1;
                }
            },
            None => {
                proof {
                    assert(list_of(fields.deep_view(), key@) =~= Seq::<Json>::empty());
                }
            },
        },
        None => {
            proof {
                assert(list_of(fields.deep_view(), key@) =~= Seq::<Json>::empty());
            }
        },
    }
}

} // verus!
