//! Planning tool calls as HTTP requests, and framing their responses.
//!
//! A tool name splits at its first underscore into the integration slug
//! and a dotted operation path. The plan built for an operation carries
//! the method, the URL with path parameters substituted, the query pairs,
//! a bearer authorization header, and — for body-carrying methods — the
//! arguments that are not path, query or header parameters. The embedding
//! program performs the exchange and hands the status and body text back
//! for framing.

use vstd::prelude::*;
use crate::errors::WalletError;
use crate::json::{Json, JsonValue, json_text, to_json_string, obj_get};
use crate::jsontext::{pretty_reformat, pretty_of};
use crate::mcp::ToolCallResult;
use crate::optypes::{ApiOperation, HttpMethod, OperationParameter, ParameterLocation};
use crate::strutil::{chars_of, string_of, find_char, subrange_chars, str_eq};

verus! {

/// The characters of a tool name before its first underscore, and after
/// it with underscores turned to dots; nothing where it has no
/// underscore.
pub open spec fn spec_tool_name_parts(s: Seq<char>) -> Option<(Seq<char>, Seq<char>)> {
    if exists|i: int| 0 <= i < s.len() && s[i] == '_' {
        let i = choose|i: int| 0 <= i < s.len() && s[i] == '_' && (forall|j: int|
            0 <= j < i ==> s[j] != '_');
        Some(
            (
                s.subrange(0, i),
                s.skip(i + 1).map_values(|c: char| if c == '_' { '.' } else { c }),
            ),
        )
    } else {
        None
    }
}

/// Split a tool name into the integration slug and the dotted operation
/// path; a name without an underscore is not a tool name.
pub fn parse_tool_name(tool_name: &str) -> (r: Result<(String, String), WalletError>)
    ensures
        match r {
            Ok(parts) => spec_tool_name_parts(tool_name@) matches Some(p) && parts.0@ == p.0
                && parts.1@ == p.1,
            Err(e) => e is OperationNotFound && spec_tool_name_parts(tool_name@) is None,
        },
{
    let cs = chars_of(tool_name);
    let i = match find_char(&cs, 0, '_') {
        Some(i) => i,
        None => {
            return Err(
                WalletError::OperationNotFound("the tool name has no underscore".to_owned()),
            );
        },
    };
    let key_chars = subrange_chars(&cs, 0, i);
    let n = cs.len();
    let mut path_chars: Vec<char> = Vec::new();
    let mut k: usize = i + 1;
    while k < n
        invariant
            i + 1 <= k <= n,
            n == cs@.len(),
            cs@ == tool_name@,
            path_chars@.len() == k - i - 1,
            forall|b: int|
                0 <= b < path_chars@.len() ==> path_chars@[b] == (if tool_name@[i + 1 + b] == '_' {
                    '.'
                } else {
                    tool_name@[i + 1 + b]
                }),
        decreases n - k,
    {
        let c = cs[k];
        path_chars.push(
            if c == '_' {
                '.'
            } else {
                c
            },
        );
        k += 1;
    }
    proof {
        let iw = choose|iw: int|
            0 <= iw < tool_name@.len() && tool_name@[iw] == '_' && (forall|j: int|
                0 <= j < iw ==> tool_name@[j] != '_');
        assert(iw == i);
        assert(path_chars@ =~= tool_name@.skip(i + 1).map_values(
            |c: char| if c == '_' {
                '.'
            } else {
                c
            },
        ));
    }
    Ok((string_of(&key_chars), string_of(&path_chars)))
}

/// A planned HTTP exchange for a tool call.
pub struct HttpRequestPlan {
    /// The HTTP method.
    pub method: HttpMethod,
    /// The URL, path parameters substituted.
    pub url: String,
    /// Query pairs, one per query parameter present in the arguments.
    pub query: Vec<(String, String)>,
    /// Headers: the bearer authorization.
    pub headers: Vec<(String, String)>,
    /// The body, for body-carrying methods with body arguments.
    pub body: Option<JsonValue>,
}

/// The string a JSON argument value contributes to a URL or query: string
/// content as is, anything else as its JSON rendering.
pub open spec fn spec_value_str(v: Json) -> Seq<char> {
    match v {
        Json::Text(t) => t,
        _ => json_text(v),
    }
}

/// Render an argument value for a URL or query position.
pub fn value_str(v: &JsonValue) -> (r: String)
    ensures
        r@ == spec_value_str(v.deep_view()),
{
    match v {
        JsonValue::Text(t) => t.clone(),
        _ => to_json_string(v),
    }
}

/// A sequence with all trailing occurrences of `c` removed.
pub open spec fn spec_trim_trailing(s: Seq<char>, c: char) -> Seq<char>
    decreases s.len(),
{
    if s.len() > 0 && s[s.len() - 1] == c {
        spec_trim_trailing(s.take(s.len() - 1), c)
    } else {
        s
    }
}

/// The substituted URL path from index `i` on: inside `{name}` spans, a
/// path parameter present in the arguments is replaced by its rendered
/// value; everything else is copied.
/// The first `}` strictly after `i`, or -1.
pub open spec fn close_brace(path: Seq<char>, i: int) -> int
    decreases path.len() - i,
{
    if i + 1 >= path.len() || i + 1 < 0 {
        -1
    } else if path[i + 1] == '}' {
        i + 1
    } else {
        close_brace(path, i + 1)
    }
}

/// `close_brace` finds the first closing brace after `i`.
pub proof fn lemma_close_brace(path: Seq<char>, i: int)
    requires
        0 <= i,
    ensures
        ({
            let j = close_brace(path, i);
            &&& j == -1 || (i < j < path.len() && path[j] == '}')
            &&& j >= 0 ==> forall|b: int| i < b < j ==> path[b] != '}'
            &&& j == -1 ==> forall|b: int| i < b < path.len() ==> path[b] != '}'
        }),
    decreases path.len() - i,
{
    if i + 1 >= path.len() {
    } else if path[i + 1] == '}' {
    } else {
        lemma_close_brace(path, i + 1);
    }
}

/// The substituted URL path from index `i` on: inside `{name}` spans, a
/// path parameter present in the arguments is replaced by its rendered
/// value; everything else is copied.
pub open spec fn spec_subst(
    path: Seq<char>,
    i: int,
    params: Seq<OperationParameter>,
    args: Seq<(Seq<char>, Json)>,
) -> Seq<char>
    decreases path.len() - i,
    via spec_subst_decreases
{
    if i < 0 || i >= path.len() {
        Seq::<char>::empty()
    } else if path[i] == '{' && close_brace(path, i) >= 0 {
        let j = close_brace(path, i);
        let name = path.subrange(i + 1, j);
        if is_path_param(params, name) && crate::json::spec_obj_get(args, name) is Some {
            spec_value_str(crate::json::spec_obj_get(args, name).unwrap()) + spec_subst(
                path,
                j + 1,
                params,
                args,
            )
        } else {
            seq!['{'] + name + seq!['}'] + spec_subst(path, j + 1, params, args)
        }
    } else {
        seq![path[i]] + spec_subst(path, i + 1, params, args)
    }
}

#[via_fn]
proof fn spec_subst_decreases(
    path: Seq<char>,
    i: int,
    params: Seq<OperationParameter>,
    args: Seq<(Seq<char>, Json)>,
) {
    if 0 <= i < path.len() && path[i] == '{' && close_brace(path, i) >= 0 {
        lemma_close_brace(path, i);
    }
}

/// Whether a name names a path parameter of the operation.
pub open spec fn is_path_param(params: Seq<OperationParameter>, name: Seq<char>) -> bool {
    exists|k: int|
        0 <= k < params.len() && (#[trigger] params[k]).location == ParameterLocation::Path
            && params[k].name@ == name
}

/// How the query pairs relate to the operation's query parameters and the
/// arguments: one pair, in order, per query parameter present.
pub open spec fn query_post(
    params: Seq<OperationParameter>,
    args: Seq<(Seq<char>, Json)>,
    out: Seq<(String, String)>,
) -> bool
    decreases params.len(),
{
    if params.len() == 0 {
        out.len() == 0
    } else {
        if params[0].location == ParameterLocation::Query && crate::json::spec_obj_get(
            args,
            params[0].name@,
        ) is Some {
            out.len() > 0 && out[0].0@ == params[0].name@ && out[0].1@ == spec_value_str(
                crate::json::spec_obj_get(args, params[0].name@).unwrap(),
            ) && query_post(params.skip(1), args, out.skip(1))
        } else {
            query_post(params.skip(1), args, out)
        }
    }
}

/// Whether the method carries a body.
pub open spec fn carries_body(m: HttpMethod) -> bool {
    m == HttpMethod::Post || m == HttpMethod::Put || m == HttpMethod::Patch
}

/// Whether a name names a path, query or header parameter: such arguments
/// stay out of the body.
pub open spec fn reserved_name(params: Seq<OperationParameter>, name: Seq<char>) -> bool {
    exists|k: int|
        0 <= k < params.len() && ((#[trigger] params[k]).location == ParameterLocation::Path
            || params[k].location == ParameterLocation::Query || params[k].location
            == ParameterLocation::Header) && params[k].name@ == name
}

/// The body fields for an argument object: exactly the arguments that name
/// no path, query or header parameter, in argument order.
pub open spec fn spec_body_fields(
    params: Seq<OperationParameter>,
    args: Seq<(Seq<char>, Json)>,
) -> Seq<(Seq<char>, Json)> {
    args.filter(|f: (Seq<char>, Json)| !reserved_name(params, f.0))
}

impl HttpRequestPlan {
    /// Build the plan for an operation: substituted URL, query pairs, a
    /// bearer authorization header, and the leftover arguments as the
    /// body for body-carrying methods.
    pub fn build(
        server_url: &str,
        operation: &ApiOperation,
        arguments: Option<&JsonValue>,
        api_key: &str,
    ) -> (r: Result<HttpRequestPlan, WalletError>)
        ensures
            r matches Err(e) ==> e is ParseError && (arguments matches Some(a) && !(
            a.deep_view() is Object)),
            arguments matches Some(a) && !(a.deep_view() is Object) ==> r is Err,
            r matches Ok(plan) ==> ({
                let args = match arguments {
                    Some(a) => a.deep_view()->Object_0,
                    None => Seq::<(Seq<char>, Json)>::empty(),
                };
                &&& plan.method == operation.method
                &&& plan.url@ == spec_trim_trailing(server_url@, '/') + spec_subst(
                    operation.path@,
                    0,
                    operation.parameters@,
                    args,
                )
                &&& query_post(operation.parameters@, args, plan.query@)
                &&& plan.headers@.len() == 1 && plan.headers@[0].0@ == "Authorization"@
                    && plan.headers@[0].1@ == "Bearer "@ + api_key@
                &&& (!carries_body(operation.method) ==> plan.body is None)
                &&& (carries_body(operation.method) ==> ({
                    let fields = spec_body_fields(operation.parameters@, args);
                    if fields.len() == 0 {
                        plan.body is None
                    } else {
                        plan.body matches Some(b) && b.deep_view() == Json::Object(fields)
                    }
                }))
            }),
    {
        let empty_args: Vec<(String, JsonValue)> = Vec::new();
        let args: &Vec<(String, JsonValue)> = match arguments {
            Some(a) => match a {
                JsonValue::Object(fields) => {
                    proof {
                        crate::json::lemma_object_deep_view(*fields);
                    }
                    fields
                },
                _ => {
                    return Err(WalletError::ParseError("arguments must be an object".to_owned()));
                },
            },
            None => &empty_args,
        };
        let url = substituted_url(server_url, operation, args);
        let query = query_pairs(operation, args);
        proof {
            reveal_strlit("Authorization");
            reveal_strlit("Bearer ");
        }
        let mut headers: Vec<(String, String)> = Vec::new();
        headers.push(("Authorization".to_owned(), "Bearer ".to_owned().concat(api_key)));
        let body: Option<JsonValue> = if matches!(
            operation.method,
            HttpMethod::Post | HttpMethod::Put | HttpMethod::Patch,
        ) {
            let b = body_fields_of(operation, args);
            proof {
                assert(carries_body(operation.method));
            }
            b
        } else {
            None
        };
        proof {
            match arguments {
                Some(a) => {
                    assert(args.deep_view() =~= a.deep_view()->Object_0);
                },
                None => {
                    assert(args.deep_view() =~= Seq::<(Seq<char>, Json)>::empty());
                },
            }
        }
        Ok(HttpRequestPlan { method: operation.method, url, query, headers, body })
    }
}

/// The URL for an operation: the server with trailing slashes trimmed,
/// then the path with its parameters substituted.
#[verifier::loop_isolation(false)]
fn substituted_url(
    server_url: &str,
    operation: &ApiOperation,
    args: &Vec<(String, JsonValue)>,
) -> (r: String)
    ensures
        r@ == spec_trim_trailing(server_url@, '/') + spec_subst(
            operation.path@,
            0,
            operation.parameters@,
            args.deep_view(),
        ),
{
    let ghost argsv = args.deep_view();
    let base = chars_of(server_url);
    let mut end = base.len();
    proof {
        assert(base@.take(base@.len() as int) =~= server_url@);
    }
    while end > 0 && base[end - 1] == '/'
        invariant
            end <= base@.len(),
            spec_trim_trailing(server_url@, '/') == spec_trim_trailing(
                base@.take(end as int),
                '/',
            ),
        decreases end,
    {
        proof {
            assert(base@.take(end as int).take(end - 1) =~= base@.take(end - 1));
        }
        end -= 1;
    }
    let mut url_chars = subrange_chars(&base, 0, end);
    proof {
        assert(base@.take(end as int) =~= base@.subrange(0, end as int));
        assert(spec_trim_trailing(base@.take(end as int), '/') == base@.take(end as int));
    }
    let path = chars_of(operation.path.as_str());
    let np = path.len();
    let mut i: usize = 0;
    let ghost base_url = url_chars@;
    while i < np
        invariant
            i <= np,
            np == path@.len(),
            path@ == operation.path@,
            base_url + spec_subst(operation.path@, 0, operation.parameters@, argsv) == url_chars@
                + spec_subst(operation.path@, i as int, operation.parameters@, argsv),
        decreases np - i,
    {
        let c = path[i];
        let mut advanced = false;
        if c == '{' {
            match find_char(&path, i + 1, '}') {
                Some(j) => {
                    proof {
                        lemma_close_brace(path@, i as int);
                        assert(close_brace(path@, i as int) == j);
                    }
                    let name_chars = subrange_chars(&path, i + 1, j);
                    let name = string_of(&name_chars);
                    let is_param = find_path_param(&operation.parameters, name.as_str());
                    let arg = obj_get(args, name.as_str());
                    if is_param && arg.is_some() {
                        let v = arg.unwrap();
                        let rendered = value_str(v);
                        let mut rc = chars_of(rendered.as_str());
                        url_chars.append(&mut rc);
                    } else {
                        url_chars.push('{');
                        let mut nc = name_chars;
                        url_chars.append(&mut nc);
                        url_chars.push('}');
                    }
                    proof {
                        assert(base_url + spec_subst(
                            operation.path@,
                            0,
                            operation.parameters@,
                            argsv,
                        ) =~= url_chars@ + spec_subst(
                            operation.path@,
                            j + 1,
                            operation.parameters@,
                            argsv,
                        ));
                    }
                    i = j + 1;
                    advanced = true;
                },
                None => {
                    proof {
                        lemma_close_brace(path@, i as int);
                        assert(close_brace(path@, i as int) == -1);
                    }
                },
            }
        }
        if !advanced {
            url_chars.push(c);
            proof {
                assert(base_url + spec_subst(operation.path@, 0, operation.parameters@, argsv)
                    =~= url_chars@ + spec_subst(
                    operation.path@,
                    i + 1,
                    operation.parameters@,
                    argsv,
                ));
            }
            i += 1;
        }
    }
    proof {
        assert(spec_subst(operation.path@, np as int, operation.parameters@, argsv).len() == 0);
        assert(url_chars@ =~= base_url + spec_subst(
            operation.path@,
            0,
            operation.parameters@,
            argsv,
        ));
    }
    string_of(&url_chars)
}

/// The query pairs: one per query parameter present in the arguments, in
/// parameter order.
#[verifier::loop_isolation(false)]
fn query_pairs(operation: &ApiOperation, args: &Vec<(String, JsonValue)>) -> (r: Vec<
    (String, String),
>)
    ensures
        query_post(operation.parameters@, args.deep_view(), r@),
{
    let ghost argsv = args.deep_view();
    let ghost paramsv = operation.parameters@;
    let nq = operation.parameters.len();
    let mut query: Vec<(String, String)> = Vec::new();
    let mut qi: usize = 0;
    proof {
        assert(paramsv.skip(0) =~= paramsv);
        assert forall|rest: Seq<(String, String)>|
            query_post(paramsv.skip(0), argsv, rest) implies #[trigger] query_post(
            paramsv,
            argsv,
            query@ + rest,
        ) by {
            assert(query@ + rest =~= rest);
        }
    }
    while qi < nq
        invariant
            qi <= nq,
            nq == operation.parameters@.len(),
            forall|rest: Seq<(String, String)>|
                query_post(paramsv.skip(qi as int), argsv, rest) ==> #[trigger] query_post(
                    paramsv,
                    argsv,
                    query@ + rest,
                ),
        decreases nq - qi,
    {
        let ghost pre = query@;
        proof {
            assert(paramsv.skip(qi as int)[0] == paramsv[qi as int]);
            assert(paramsv.skip(qi as int).skip(1) =~= paramsv.skip(qi + 1));
        }
        let p = &operation.parameters[qi];
        let mut pushed = false;
        if matches!(p.location, ParameterLocation::Query) {
            match obj_get(args, p.name.as_str()) {
                Some(v) => {
                    let pair = (p.name.clone(), value_str(v));
                    query.push(pair);
                    pushed = true;
                    proof {
                        let entry = query@[query@.len() - 1];
                        assert(query@ =~= pre.push(entry));
                        assert forall|rest: Seq<(String, String)>|
                            query_post(paramsv.skip(qi + 1), argsv, rest) implies #[trigger]
                            query_post(paramsv, argsv, query@ + rest) by {
                            assert(query_post(paramsv.skip(qi as int), argsv, seq![entry] + rest))
                                by {
                                assert((seq![entry] + rest).skip(1) =~= rest);
                            }
                            assert(pre + (seq![entry] + rest) =~= query@ + rest);
                        }
                    }
                },
                None => {},
            }
        }
        proof {
            if !pushed {
                assert forall|rest: Seq<(String, String)>|
                    query_post(paramsv.skip(qi + 1), argsv, rest) implies #[trigger] query_post(
                    paramsv,
                    argsv,
                    query@ + rest,
                ) by {
                    assert(query_post(paramsv.skip(qi as int), argsv, rest));
                }
            }
        }
        qi += 1;
    }
    proof {
        assert(paramsv.skip(nq as int).len() == 0);
        assert(query_post(paramsv.skip(nq as int), argsv, Seq::<(String, String)>::empty()));
        assert(query@ + Seq::<(String, String)>::empty() =~= query@);
    }
    query
}

/// The body object: every argument that names no path, query or header
/// parameter; none where that leaves nothing.
#[verifier::loop_isolation(false)]
fn body_fields_of(operation: &ApiOperation, args: &Vec<(String, JsonValue)>) -> (r: Option<
    JsonValue,
>)
    ensures
        ({
            let fields = spec_body_fields(operation.parameters@, args.deep_view());
            if fields.len() == 0 {
                r is None
            } else {
                r matches Some(b) && b.deep_view() == Json::Object(fields)
            }
        }),
{
    let ghost pred = |f: (Seq<char>, Json)| !reserved_name(operation.parameters@, f.0);
    let ghost dv = args.deep_view();
    let mut body_fields: Vec<(String, JsonValue)> = Vec::new();
    let na = args.len();
    let mut ai: usize = 0;
    proof {
        reveal(Seq::filter);
        assert(dv.take(0).filter(pred) =~= Seq::<(Seq<char>, Json)>::empty());
    }
    while ai < na
        invariant
            ai <= na,
            na == args@.len(),
            body_fields.deep_view() == dv.take(ai as int).filter(pred),
        decreases na - ai,
    {
        let name = &args[ai].0;
        let reserved = find_named_param(&operation.parameters, name.as_str());
        let ghost pre = body_fields.deep_view();
        if !reserved {
            let key = name.clone();
            let val = args[ai].1.deep_copy();
            body_fields.push((key, val));
        }
        proof {
            reveal(Seq::filter);
            assert(dv.take(ai + 1).drop_last() =~= dv.take(ai as int));
            assert(dv.take(ai + 1).last() == dv[ai as int]);
            assert(dv[ai as int] == (args@[ai as int].0@, args@[ai as int].1.deep_view()));
            assert(reserved == reserved_name(operation.parameters@, dv[ai as int].0));
            if !reserved {
                assert(body_fields.deep_view() =~= pre.push(dv[ai as int]));
            }
            assert(body_fields.deep_view() =~= dv.take(ai + 1).filter(pred));
        }
        ai += 1;
    }
    proof {
        assert(dv.take(na as int) =~= dv);
    }
    if body_fields.len() > 0 {
        proof {
            crate::json::lemma_object_deep_view(body_fields);
        }
        let r = JsonValue::Object(body_fields);
        proof {
            assert(r.deep_view() == Json::Object(spec_body_fields(operation.parameters@, dv)));
        }
        Some(r)
    } else {
        None
    }
}

/// Whether a name names a path parameter, as the URL substitution asks.
fn find_path_param(params: &Vec<OperationParameter>, name: &str) -> (r: bool)
    ensures
        r == is_path_param(params@, name@),
{
    let n = params.len();
    let mut i: usize = 0;
    while i < n
        invariant
            i <= n,
            n == params@.len(),
            forall|k: int|
                0 <= k < i ==> !((#[trigger] params@[k]).location == ParameterLocation::Path
                    && params@[k].name@ == name@),
        decreases n - i,
    {
        if matches!(params[i].location, ParameterLocation::Path) && str_eq(
            params[i].name.as_str(),
            name,
        ) {
            return true;
        }
        i += 1;
    }
    false
}

/// Whether a name names any path, query or header parameter: such
/// arguments stay out of the body.
fn find_named_param(params: &Vec<OperationParameter>, name: &str) -> (r: bool)
    ensures
        r == exists|k: int|
            0 <= k < params@.len() && ((#[trigger] params@[k]).location == ParameterLocation::Path
                || params@[k].location == ParameterLocation::Query || params@[k].location
                == ParameterLocation::Header) && params@[k].name@ == name@,
{
    let n = params.len();
    let mut i: usize = 0;
    while i < n
        invariant
            i <= n,
            n == params@.len(),
            forall|k: int|
                0 <= k < i ==> !(((#[trigger] params@[k]).location == ParameterLocation::Path
                    || params@[k].location == ParameterLocation::Query || params@[k].location
                    == ParameterLocation::Header) && params@[k].name@ == name@),
        decreases n - i,
    {
        let loc_matches = matches!(
            params[i].location,
            ParameterLocation::Path | ParameterLocation::Query | ParameterLocation::Header,
        );
        if loc_matches && str_eq(params[i].name.as_str(), name) {
            return true;
        }
        i += 1;
    }
    false
}

/// Frame an HTTP response as a tool result: a success is the body,
/// pretty-printed where it is JSON; anything else is an error result
/// naming the status.
pub fn frame_http_response(status: u16, body: String) -> (r: ToolCallResult)
    ensures
        200 <= status < 300 ==> r.is_error is None && r.content@.len() == 1 && (
        r.content@[0] matches crate::mcp::ToolContent::Text { text: t } && t@ == (
        match pretty_of(body@) {
            Some(p) => p,
            None => body@,
        })),
        !(200 <= status < 300) ==> r.is_error == Some(true) && r.content@.len() == 1 && (
        r.content@[0] matches crate::mcp::ToolContent::Text { text: t } && t@ == "HTTP "@
            + crate::credential::spec_decimal(status as int) + " - "@ + body@),
{
    if 200 <= status && status < 300 {
        match pretty_reformat(body.as_str()) {
            Some(p) => ToolCallResult::text(p),
            None => ToolCallResult::text(body),
        }
    } else {
        proof {
            reveal_strlit("HTTP ");
            reveal_strlit(" - ");
        }
        let mut msg = "HTTP ".to_owned().concat(
            crate::credential::u64_string(status as u64).as_str(),
        );
        let msg2 = msg.concat(" - ").concat(body.as_str());
        ToolCallResult::error(msg2)
    }
}

} // verus!
