//! Operation extraction from a parsed OpenAPI document.
//!
//! Every function here consumes the JSON value model and produces the typed
//! operation model; the contracts pin each output field to the document
//! field it came from: how operation ids are synthesized and normalized,
//! how path-level and operation-level parameters merge, which media type a
//! body or response selects, and which security list applies.

use vstd::prelude::*;
use crate::json::{Json, JsonValue, spec_get, obj_get};
use crate::optypes::{
    HttpMethod, ParameterLocation, OperationParameter, RequestBody, ResponseSchema,
    SecurityRequirement, ApiOperation,
};
use crate::resolver::{resolve, spec_resolve};
use crate::strutil::{
    chars_of, string_of, lower, lower_chars, spec_is_upper, spec_is_lower, spec_lower,
    spec_lower_seq, str_eq,
};

verus! {

/// Extracts operations from a parsed OpenAPI document.
pub struct OperationExtractor;

/// The normalized rest of an operation id from index `i`, given whether the
/// previous character was an ASCII lowercase letter: `_` and `-` become
/// `.`, a lowercase-to-uppercase transition inserts `.`, and everything is
/// lowercased.
pub open spec fn spec_normalize_from(s: Seq<char>, i: int, prev_lower: bool) -> Seq<char>
    decreases s.len() - i,
{
    if i < 0 || i >= s.len() {
        Seq::<char>::empty()
    } else {
        let c = s[i];
        if c == '_' || c == '-' {
            seq!['.'] + spec_normalize_from(s, i + 1, false)
        } else if spec_is_upper(c) && prev_lower {
            seq!['.', spec_lower(c)] + spec_normalize_from(s, i + 1, true)
        } else {
            seq![spec_lower(c)] + spec_normalize_from(s, i + 1, spec_is_lower(c))
        }
    }
}

/// The normalized, dotted form of an operation id.
pub open spec fn spec_normalize(s: Seq<char>) -> Seq<char> {
    spec_normalize_from(s, 0, false)
}

/// A sequence with all leading occurrences of `c` removed.
pub open spec fn spec_trim_leading(s: Seq<char>, c: char) -> Seq<char>
    decreases s.len(),
{
    if s.len() > 0 && s[0] == c {
        spec_trim_leading(s.skip(1), c)
    } else {
        s
    }
}

/// A path turned into an id tail: `/` becomes `_`, braces are dropped.
pub open spec fn spec_path_tail(s: Seq<char>) -> Seq<char>
    decreases s.len(),
{
    if s.len() == 0 {
        Seq::<char>::empty()
    } else if s[0] == '{' || s[0] == '}' {
        spec_path_tail(s.skip(1))
    } else if s[0] == '/' {
        seq!['_'] + spec_path_tail(s.skip(1))
    } else {
        seq![s[0]] + spec_path_tail(s.skip(1))
    }
}

/// The id synthesized for an operation without one: the lowercased method,
/// `_`, and the path with leading slashes trimmed, slashes underscored and
/// braces dropped.
pub open spec fn spec_generated_id(path: Seq<char>, method: HttpMethod) -> Seq<char> {
    spec_lower_seq(method.spec_str()) + seq!['_'] + spec_path_tail(spec_trim_leading(path, '/'))
}

impl OperationExtractor {
    /// Normalize an operation id to dotted, lowercase form.
    pub fn normalize_operation_id(operation_id: &str) -> (r: String)
        ensures
            r@ == spec_normalize(operation_id@),
    {
        let cs = chars_of(operation_id);
        let n = cs.len();
        let mut out: Vec<char> = Vec::new();
        let mut prev_lower = false;
        let mut i: usize = 0;
        while i < n
            invariant
                i <= n,
                n == operation_id@.len(),
                cs@ == operation_id@,
                spec_normalize(operation_id@) == out@ + spec_normalize_from(
                    operation_id@,
                    i as int,
                    prev_lower,
                ),
            decreases n - i,
        {
            let c = cs[i];
            if c == '_' || c == '-' {
                out.push('.');
                prev_lower = false;
            } else if crate::strutil::is_upper(c) && prev_lower {
                out.push('.');
                out.push(lower(c));
                prev_lower = true;
            } else {
                out.push(lower(c));
                prev_lower = crate::strutil::is_lower(c);
            }
            i += 1;
        }
        proof {
            assert(out@ + Seq::<char>::empty() =~= out@);
        }
        string_of(&out)
    }

    /// Synthesize an operation id from a path and method.
    pub fn generate_operation_id(path: &str, method: HttpMethod) -> (r: String)
        ensures
            r@ == spec_generated_id(path@, method),
    {
        let method_chars = chars_of(method.as_str());
        let mut out = lower_chars(&method_chars);
        out.push('_');
        let cs = chars_of(path);
        let n = cs.len();
        let mut i: usize = 0;
        while i < n && cs[i] == '/'
            invariant
                i <= n,
                cs@ == path@,
                n == path@.len(),
                forall|k: int| 0 <= k < i ==> path@[k] == '/',
            decreases n - i,
        {
            i += 1;
        }
        proof {
            lemma_trim_leading(path@, i as int);
        }
        let ghost trimmed = spec_trim_leading(path@, '/');
        let ghost base = out@;
        let start = i;
        while i < n
            invariant
                start <= i <= n,
                cs@ == path@,
                n == path@.len(),
                trimmed == path@.skip(start as int),
                base.len() <= out@.len(),
                base == out@.subrange(0, base.len() as int),
                spec_path_tail(trimmed) == out@.skip(base.len() as int) + spec_path_tail(
                    path@.skip(i as int),
                ),
            decreases n - i,
        {
            let c = cs[i];
            proof {
                assert(path@.skip(i as int)[0] == path@[i as int]);
                assert(path@.skip(i as int).skip(1) =~= path@.skip(i + 1));
            }
            if c == '{' || c == '}' {
            } else if c == '/' {
                out.push('_');
            } else {
                out.push(c);
            }
            proof {
                assert(base =~= out@.subrange(0, base.len() as int));
                assert(spec_path_tail(trimmed) =~= out@.skip(base.len() as int) + spec_path_tail(
                    path@.skip(i + 1),
                ));
            }
            i += 1;
        }
        proof {
            assert(path@.skip(n as int).len() == 0);
            assert(spec_path_tail(path@.skip(n as int)) == Seq::<char>::empty());
            assert(out@.skip(base.len() as int) + Seq::<char>::empty() =~= out@.skip(
                base.len() as int,
            ));
            assert(out@ =~= base + out@.skip(base.len() as int));
            assert(out@ =~= spec_generated_id(path@, method));
        }
        string_of(&out)
    }
}

proof fn lemma_trim_leading(s: Seq<char>, i: int)
    requires
        0 <= i <= s.len(),
        forall|k: int| 0 <= k < i ==> s[k] == '/',
        i < s.len() ==> s[i] != '/',
    ensures
        spec_trim_leading(s, '/') == s.skip(i),
    decreases i,
{
    if i == 0 {
        assert(s.skip(0) =~= s);
    } else {
        assert(s[0] == '/');
        lemma_trim_leading(s.skip(1), i - 1);
        assert(s.skip(1).skip(i - 1) =~= s.skip(i));
        assert(forall|k: int| 0 <= k < i - 1 ==> s.skip(1)[k] == '/');
    }
}


/// The text of a `Text` value, or empty.
pub open spec fn spec_text_or_empty(o: Option<Json>) -> Seq<char> {
    match o {
        Some(Json::Text(t)) => t,
        _ => Seq::<char>::empty(),
    }
}

/// The boolean of a `Bool` value, or `false`.
pub open spec fn spec_bool_or_false(o: Option<Json>) -> bool {
    match o {
        Some(Json::Bool(b)) => b,
        _ => false,
    }
}

/// `r` holds a field's string content exactly when the field is a string.
pub open spec fn opt_text_post(o: Option<Json>, r: Option<String>) -> bool {
    match o {
        Some(Json::Text(t)) => r matches Some(s) && s@ == t,
        _ => r is None,
    }
}

/// `out` holds exactly the string contents of the `Text` elements of
/// `arr`, in order.
pub open spec fn texts_post(arr: Seq<Json>, out: Seq<Seq<char>>) -> bool
    decreases arr.len(),
{
    if arr.len() == 0 {
        out.len() == 0
    } else {
        match arr[0] {
            Json::Text(t) => out.len() > 0 && out[0] == t && texts_post(arr.skip(1), out.skip(1)),
            _ => texts_post(arr.skip(1), out),
        }
    }
}

/// Collect the string elements of an array, in order.
#[verifier::loop_isolation(false)]
pub fn texts_of(arr: &Vec<JsonValue>) -> (r: Vec<String>)
    ensures
        texts_post(arr.deep_view(), r.deep_view()),
{
    let n = arr.len();
    let mut out: Vec<String> = Vec::new();
    let mut i: usize = 0;
    let ghost dv = arr.deep_view();
    proof {
        assert(dv.skip(0) =~= dv);
        assert forall|rest: Seq<Seq<char>>|
            texts_post(dv.skip(0), rest) implies #[trigger] texts_post(
            dv,
            out.deep_view() + rest,
        ) by {
            assert(out.deep_view() + rest =~= rest);
        }
    }
    while i < n
        invariant
            i <= n,
            forall|rest: Seq<Seq<char>>|
                texts_post(dv.skip(i as int), rest) ==> #[trigger] texts_post(
                    dv,
                    out.deep_view() + rest,
                ),
        decreases n - i,
    {
        let ghost pre = out.deep_view();
        proof {
            assert(dv.skip(i as int)[0] == dv[i as int]);
            assert(dv.skip(i as int).skip(1) =~= dv.skip(i + 1));
            assert(dv[i as int] == arr@[i as int].deep_view());
        }
        match &arr[i] {
            JsonValue::Text(t) => {
                out.push(t.clone());
                proof {
                    assert(out.deep_view() =~= pre.push(t@));
                    assert forall|rest: Seq<Seq<char>>|
                        texts_post(dv.skip(i + 1), rest) implies #[trigger] texts_post(
                        dv,
                        out.deep_view() + rest,
                    ) by {
                        assert(texts_post(dv.skip(i as int), seq![t@] + rest)) by {
                            assert((seq![t@] + rest).skip(1) =~= rest);
                        }
                        assert(pre + (seq![t@] + rest) =~= out.deep_view() + rest);
                    }
                }
            },
            _ => {
                proof {
                    assert forall|rest: Seq<Seq<char>>|
                        texts_post(dv.skip(i + 1), rest) implies #[trigger] texts_post(
                        dv,
                        out.deep_view() + rest,
                    ) by {
                        assert(texts_post(dv.skip(i as int), rest));
                    }
                }
            },
        }
        i += 1;
    }
    proof {
        assert(dv.skip(n as int).len() == 0);
        assert(texts_post(dv.skip(n as int), Seq::<Seq<char>>::empty()));
        assert(out.deep_view() + Seq::<Seq<char>>::empty() =~= out.deep_view());
    }
    out
}

/// Whether `sub` occurs contiguously inside `s`.
pub open spec fn has_sub(s: Seq<char>, sub: Seq<char>) -> bool {
    exists|i: int| 0 <= i <= s.len() - sub.len() && #[trigger] s.subrange(i, i + sub.len()) == sub
}

/// Whether `sub` occurs at position `i` of `v`.
fn match_at(v: &Vec<char>, sub: &Vec<char>, i: usize) -> (r: bool)
    requires
        i + sub@.len() <= v@.len(),
    ensures
        r == (v@.subrange(i as int, i + sub@.len()) == sub@),
{
    let m = sub.len();
    let nv = v.len();
    let mut j: usize = 0;
    while j < m
        invariant
            nv == v@.len(),
            i + m <= v@.len(),
            m == sub@.len(),
            j <= m,
            forall|b: int| 0 <= b < j ==> v@[i + b] == #[trigger] sub@[b],
        decreases m - j,
    {
        if v[i + j] != sub[j] {
            proof {
                assert(v@.subrange(i as int, i + sub@.len())[j as int] == v@[i + j]);
            }
            return false;
        }
        j += 1;
    }
    proof {
        assert(v@.subrange(i as int, i + sub@.len()) =~= sub@);
    }
    true
}

/// Whether `sub` occurs contiguously inside `v`.
pub fn contains_sub(v: &Vec<char>, sub: &Vec<char>) -> (r: bool)
    ensures
        r == has_sub(v@, sub@),
{
    let n = v.len();
    let m = sub.len();
    if m > n {
        return false;
    }
    let mut i: usize = 0;
    while i < n - m
        invariant
            m <= n,
            n == v@.len(),
            m == sub@.len(),
            i <= n - m,
            forall|a: int| 0 <= a < i ==> #[trigger] v@.subrange(a, a + sub@.len()) != sub@,
        decreases n - m - i,
    {
        if match_at(v, sub, i) {
            return true;
        }
        i += 1;
    }
    if match_at(v, sub, i) {
        return true;
    }
    proof {
        assert forall|a: int| 0 <= a <= v@.len() - sub@.len() implies #[trigger] v@.subrange(
            a,
            a + sub@.len(),
        ) != sub@ by {}
    }
    false
}

/// The parameter location named by a parameter object's `in` field.
pub open spec fn spec_location(v: Json) -> Option<ParameterLocation> {
    match spec_get(v, "in"@) {
        Some(Json::Text(t)) => if t == "path"@ {
            Some(ParameterLocation::Path)
        } else if t == "query"@ {
            Some(ParameterLocation::Query)
        } else if t == "header"@ {
            Some(ParameterLocation::Header)
        } else if t == "cookie"@ {
            Some(ParameterLocation::Cookie)
        } else {
            None
        },
        _ => None,
    }
}

/// A parameter object that the extractor drops: a `$ref` parameter, or one
/// whose `in` field names no known location.
pub open spec fn spec_param_drops(v: Json) -> bool {
    spec_get(v, "$ref"@) is Some || spec_location(v) is None
}

/// How one converted parameter relates to its parameter object.
pub open spec fn param_post(
    schemas: Seq<(Seq<char>, Json)>,
    v: Json,
    p: OperationParameter,
) -> bool {
    &&& !spec_param_drops(v)
    &&& Some(p.location) == spec_location(v)
    &&& p.name@ == spec_text_or_empty(spec_get(v, "name"@))
    &&& p.required == (spec_bool_or_false(spec_get(v, "required"@)) || p.location
        == ParameterLocation::Path)
    &&& opt_text_post(spec_get(v, "description"@), p.description)
    &&& (match spec_get(v, "schema"@) {
        Some(sch) => p.schema matches Some(x) && x.deep_view() == spec_resolve(schemas, sch, 0),
        None => p.schema is None,
    })
    &&& (match spec_get(v, "example"@) {
        Some(e) => p.example matches Some(x) && x.deep_view() == e,
        None => p.example is None,
    })
    &&& p.deprecated == spec_bool_or_false(spec_get(v, "deprecated"@))
}

/// Read a field's string content, if the field is a string.
fn get_text(v: &JsonValue, name: &str) -> (r: Option<String>)
    ensures
        opt_text_post(spec_get(v.deep_view(), name@), r),
        r matches Some(s) ==> spec_get(v.deep_view(), name@) == Some(Json::Text(s@)),
{
    match v.get(name) {
        Some(f) => match f.as_text() {
            Some(t) => Some(t.clone()),
            None => None,
        },
        None => None,
    }
}

/// Read a field as a boolean, defaulting to `false`.
fn get_bool_or_false(v: &JsonValue, name: &str) -> (r: bool)
    ensures
        r == spec_bool_or_false(spec_get(v.deep_view(), name@)),
{
    match v.get(name) {
        Some(f) => match f.as_bool() {
            Some(b) => b,
            None => false,
        },
        None => false,
    }
}

impl OperationExtractor {
    /// Convert one parameter object; `$ref` parameters and unknown
    /// locations are dropped.
    pub fn convert_parameter(
        param: &JsonValue,
        schemas: &Vec<(String, JsonValue)>,
    ) -> (r: Option<OperationParameter>)
        ensures
            match r {
                Some(p) => param_post(schemas.deep_view(), param.deep_view(), p),
                None => spec_param_drops(param.deep_view()),
            },
    {
        if param.get("$ref").is_some() {
            return None;
        }
        let location = match get_text(param, "in") {
            Some(t) => {
                if str_eq(t.as_str(), "path") {
                    ParameterLocation::Path
                } else if str_eq(t.as_str(), "query") {
                    ParameterLocation::Query
                } else if str_eq(t.as_str(), "header") {
                    ParameterLocation::Header
                } else if str_eq(t.as_str(), "cookie") {
                    ParameterLocation::Cookie
                } else {
                    return None;
                }
            },
            None => {
                return None;
            },
        };
        let name = match get_text(param, "name") {
            Some(t) => t,
            None => String::new(),
        };
        let required = get_bool_or_false(param, "required") || matches!(
            location,
            ParameterLocation::Path,
        );
        let schema = match param.get("schema") {
            Some(sch) => Some(resolve(schemas, sch)),
            None => None,
        };
        let example = match param.get("example") {
            Some(e) => Some(e.deep_copy()),
            None => None,
        };
        Some(
            OperationParameter {
                name,
                location,
                required,
                description: get_text(param, "description"),
                schema,
                example,
                deprecated: get_bool_or_false(param, "deprecated"),
            },
        )
    }
}

/// `out` holds the conversions of the parameter objects of `raws`, in
/// order, with dropped parameters absent.
pub open spec fn params_post(
    schemas: Seq<(Seq<char>, Json)>,
    raws: Seq<Json>,
    out: Seq<OperationParameter>,
) -> bool
    decreases raws.len(),
{
    if raws.len() == 0 {
        out.len() == 0
    } else {
        if spec_param_drops(raws[0]) {
            params_post(schemas, raws.skip(1), out)
        } else {
            out.len() > 0 && param_post(schemas, raws[0], out[0]) && params_post(
                schemas,
                raws.skip(1),
                out.skip(1),
            )
        }
    }
}

/// Convert a list of parameter objects, dropping `$ref` and unknown
/// locations.
#[verifier::loop_isolation(false)]
pub fn convert_params_list(
    raws: &Vec<JsonValue>,
    schemas: &Vec<(String, JsonValue)>,
) -> (r: Vec<OperationParameter>)
    ensures
        params_post(schemas.deep_view(), raws.deep_view(), r@),
{
    let n = raws.len();
    let mut out: Vec<OperationParameter> = Vec::new();
    let mut i: usize = 0;
    let ghost dv = raws.deep_view();
    proof {
        assert(dv.skip(0) =~= dv);
        assert forall|rest: Seq<OperationParameter>|
            params_post(schemas.deep_view(), dv.skip(0), rest) implies #[trigger] params_post(
            schemas.deep_view(),
            dv,
            out@ + rest,
        ) by {
            assert(out@ + rest =~= rest);
        }
    }
    while i < n
        invariant
            i <= n,
            forall|rest: Seq<OperationParameter>|
                params_post(schemas.deep_view(), dv.skip(i as int), rest) ==> #[trigger]
                params_post(schemas.deep_view(), dv, out@ + rest),
        decreases n - i,
    {
        let ghost pre = out@;
        proof {
            assert(dv.skip(i as int)[0] == dv[i as int]);
            assert(dv.skip(i as int).skip(1) =~= dv.skip(i + 1));
            assert(dv[i as int] == raws@[i as int].deep_view());
        }
        match OperationExtractor::convert_parameter(&raws[i], schemas) {
            Some(p) => {
                let ghost pv = p;
                out.push(p);
                proof {
                    assert(out@ =~= pre.push(pv));
                    assert forall|rest: Seq<OperationParameter>|
                        params_post(schemas.deep_view(), dv.skip(i + 1), rest)
                            implies #[trigger] params_post(
                        schemas.deep_view(),
                        dv,
                        out@ + rest,
                    ) by {
                        assert(params_post(schemas.deep_view(), dv.skip(i as int), seq![pv]
                            + rest)) by {
                            assert((seq![pv] + rest).skip(1) =~= rest);
                        }
                        assert(pre + (seq![pv] + rest) =~= out@ + rest);
                    }
                }
            },
            None => {
                proof {
                    assert forall|rest: Seq<OperationParameter>|
                        params_post(schemas.deep_view(), dv.skip(i + 1), rest)
                            implies #[trigger] params_post(
                        schemas.deep_view(),
                        dv,
                        out@ + rest,
                    ) by {
                        assert(params_post(schemas.deep_view(), dv.skip(i as int), rest));
                    }
                }
            },
        }
        i += 1;
    }
    proof {
        assert(dv.skip(n as int).len() == 0);
        assert(params_post(schemas.deep_view(), dv.skip(n as int), Seq::<
            OperationParameter,
        >::empty()));
        assert(out@ + Seq::<OperationParameter>::empty() =~= out@);
    }
    out
}

/// Merging operation-level parameters over path-item-level ones:
/// each added parameter replaces any earlier parameter with its name and
/// goes to the end.
pub open spec fn spec_merge(
    base: Seq<OperationParameter>,
    add: Seq<OperationParameter>,
) -> Seq<OperationParameter>
    decreases add.len(),
{
    if add.len() == 0 {
        base
    } else {
        spec_merge(
            base.filter(|e: OperationParameter| e.name@ != add[0].name@).push(add[0]),
            add.skip(1),
        )
    }
}

/// Merge operation-level parameters over path-item-level ones.
#[verifier::loop_isolation(false)]
pub fn merge_params(
    base: Vec<OperationParameter>,
    add: Vec<OperationParameter>,
) -> (r: Vec<OperationParameter>)
    ensures
        r@ == spec_merge(base@, add@),
{
    let ghost base0 = base@;
    let ghost add0 = add@;
    let mut acc = base;
    let mut adds = add;
    while adds.len() > 0
        invariant
            spec_merge(acc@, adds@) == spec_merge(base0, add0),
        decreases adds@.len(),
    {
        let ghost adds_pre = adds@;
        let p = adds.remove(0);
        proof {
            assert(adds@ =~= adds_pre.skip(1));
        }
        let ghost acc0 = acc@;
        let mut kept: Vec<OperationParameter> = Vec::new();
        let ghost mut consumed: int = 0;
        proof {
            assert(acc@ =~= acc0.skip(0));
            assert(acc0.subrange(0, 0).filter(
                |e: OperationParameter| e.name@ != p.name@,
            ) =~= Seq::<OperationParameter>::empty()) by {
                reveal(Seq::filter);
            }
        }
        while acc.len() > 0
            invariant
                0 <= consumed <= acc0.len(),
                acc@ == acc0.skip(consumed),
                kept@ == acc0.subrange(0, consumed).filter(
                    |e: OperationParameter| e.name@ != p.name@,
                ),
            decreases acc@.len(),
        {
            let e = acc.remove(0);
            proof {
                assert(e == acc0[consumed]);
            }
            let keep = !str_eq(e.name.as_str(), p.name.as_str());
            if keep {
                kept.push(e);
            }
            proof {
                reveal(Seq::filter);
                assert(acc0.subrange(0, consumed + 1).drop_last() =~= acc0.subrange(0, consumed));
                assert(acc0.subrange(0, consumed + 1).last() == acc0[consumed]);
                assert(kept@ =~= acc0.subrange(0, consumed + 1).filter(
                    |e2: OperationParameter| e2.name@ != p.name@,
                ));
                consumed = consumed + 1;
                assert(acc@ =~= acc0.skip(consumed));
            }
        }
        proof {
            assert(acc0.subrange(0, acc0.len() as int) =~= acc0);
        }
        kept.push(p);
        acc = kept;
    }
    proof {
        assert(adds@.len() == 0);
    }
    acc
}


/// The index of the first media type whose name mentions `json`, or -1.
pub open spec fn first_json_media(content: Seq<(Seq<char>, Json)>) -> int
    decreases content.len(),
{
    if content.len() == 0 {
        -1
    } else if has_sub(content[0].0, "json"@) {
        0
    } else {
        let r = first_json_media(content.skip(1));
        if r < 0 {
            -1
        } else {
            r + 1
        }
    }
}

/// The media type a body or response selects: the first whose name
/// mentions `json`, else the first entry; -1 where there is none.
pub open spec fn spec_media_choice(content: Seq<(Seq<char>, Json)>) -> int {
    if content.len() == 0 {
        -1
    } else if first_json_media(content) >= 0 {
        first_json_media(content)
    } else {
        0
    }
}

/// `first_json_media` is in range and finds the first match.
proof fn lemma_first_json_media(content: Seq<(Seq<char>, Json)>)
    ensures
        ({
            let j = first_json_media(content);
            &&& -1 <= j < content.len()
            &&& j >= 0 ==> has_sub(content[j].0, "json"@)
            &&& forall|k: int|
                0 <= k < content.len() && has_sub(content[k].0, "json"@) ==> j >= 0 && j <= k
        }),
    decreases content.len(),
{
    if content.len() == 0 {
    } else if has_sub(content[0].0, "json"@) {
    } else {
        lemma_first_json_media(content.skip(1));
        assert forall|k: int|
            0 <= k < content.len() && has_sub(content[k].0, "json"@) implies first_json_media(
            content,
        ) >= 0 && first_json_media(content) <= k by {
            assert(content.skip(1)[k - 1] == content[k]);
        }
    }
}

/// Select the media type of a content object.
fn select_media(content: &Vec<(String, JsonValue)>) -> (r: Option<usize>)
    ensures
        match r {
            Some(j) => j < content@.len() && spec_media_choice(content.deep_view()) == j,
            None => spec_media_choice(content.deep_view()) == -1 && content@.len() == 0,
        },
{
    let n = content.len();
    if n == 0 {
        return None;
    }
    let json_chars = chars_of("json");
    proof {
        reveal_strlit("json");
    }
    let ghost dv = content.deep_view();
    let mut i: usize = 0;
    while i < n
        invariant
            i <= n,
            n == content@.len(),
            n == dv.len(),
            dv == content.deep_view(),
            json_chars@ == "json"@,
            forall|k: int| 0 <= k < i ==> !has_sub(dv[k].0, "json"@),
        decreases n - i,
    {
        let key_chars = chars_of(content[i].0.as_str());
        proof {
            assert(dv[i as int].0 == content@[i as int].0@);
        }
        if contains_sub(&key_chars, &json_chars) {
            proof {
                lemma_first_json_media(dv);
            }
            return Some(i);
        }
        i += 1;
    }
    proof {
        lemma_first_json_media(dv);
    }
    Some(0)
}

/// The content object of a request body or response, or empty.
pub open spec fn content_of(raw: Json) -> Seq<(Seq<char>, Json)> {
    match spec_get(raw, "content"@) {
        Some(Json::Object(c)) => c,
        _ => Seq::<(Seq<char>, Json)>::empty(),
    }
}

/// How an extracted request body relates to its document object.
pub open spec fn body_post(schemas: Seq<(Seq<char>, Json)>, raw: Json, out: Option<
    RequestBody,
>) -> bool {
    let content = content_of(raw);
    let j = spec_media_choice(content);
    if j < 0 {
        out is None
    } else {
        out matches Some(b) && {
            &&& b.required == spec_bool_or_false(spec_get(raw, "required"@))
            &&& b.content_type@ == content[j].0
            &&& (match spec_get(content[j].1, "schema"@) {
                Some(sch) => b.schema matches Some(x) && x.deep_view() == spec_resolve(
                    schemas,
                    sch,
                    0,
                ),
                None => b.schema is None,
            })
            &&& opt_text_post(spec_get(raw, "description"@), b.description)
        }
    }
}

impl OperationExtractor {
    /// Extract a request body: select the media type, resolve its schema.
    pub fn extract_request_body(
        raw: &JsonValue,
        schemas: &Vec<(String, JsonValue)>,
    ) -> (r: Option<RequestBody>)
        ensures
            body_post(schemas.deep_view(), raw.deep_view(), r),
    {
        let empty_content: Vec<(String, JsonValue)> = Vec::new();
        let content: &Vec<(String, JsonValue)> = match raw.get("content") {
            Some(c) => match c.as_object() {
                Some(o) => o,
                None => &empty_content,
            },
            None => &empty_content,
        };
        proof {
            assert(content.deep_view() =~= content_of(raw.deep_view()));
        }
        let j = match select_media(content) {
            Some(j) => j,
            None => {
                return None;
            },
        };
        let schema = match content[j].1.get("schema") {
            Some(sch) => Some(resolve(schemas, sch)),
            None => None,
        };
        proof {
            assert(content.deep_view()[j as int].1 == content@[j as int].1.deep_view());
            assert(content.deep_view()[j as int].0 == content@[j as int].0@);
        }
        Some(
            RequestBody {
                required: get_bool_or_false(raw, "required"),
                content_type: content[j].0.clone(),
                schema,
                description: get_text(raw, "description"),
            },
        )
    }
}

/// How one extracted response relates to its entry in the responses
/// object.
pub open spec fn response_post(field: (Seq<char>, Json), r: ResponseSchema) -> bool {
    &&& r.status_code@ == field.0
    &&& ({
        let content = content_of(field.1);
        let j = spec_media_choice(content);
        if j < 0 {
            r.content_type is None && r.schema is None
        } else {
            (r.content_type matches Some(ct) && ct@ == content[j].0) && (match spec_get(
                content[j].1,
                "schema"@,
            ) {
                Some(sch) => r.schema matches Some(x) && x.deep_view() == sch,
                None => r.schema is None,
            })
        }
    })
    &&& opt_text_post(spec_get(field.1, "description"@), r.description)
}

impl OperationExtractor {
    /// Extract the responses of an operation, keyed by status code, with
    /// the selected media type's schema carried through unresolved.
    #[verifier::loop_isolation(false)]
    pub fn extract_responses(responses: &Vec<(String, JsonValue)>) -> (r: Vec<ResponseSchema>)
        ensures
            r@.len() == responses@.len(),
            forall|k: int|
                0 <= k < r@.len() ==> response_post(
                    #[trigger] responses.deep_view()[k],
                    r@[k],
                ),
    {
        let n = responses.len();
        let mut out: Vec<ResponseSchema> = Vec::new();
        let mut i: usize = 0;
        while i < n
            invariant
                i <= n,
                out@.len() == i,
                forall|k: int|
                    0 <= k < i ==> response_post(#[trigger] responses.deep_view()[k], out@[k]),
            decreases n - i,
        {
            let status = responses[i].0.clone();
            let v = &responses[i].1;
            proof {
                assert(responses.deep_view()[i as int] == (
                    responses@[i as int].0@,
                    responses@[i as int].1.deep_view(),
                ));
            }
            let empty_content: Vec<(String, JsonValue)> = Vec::new();
            let content: &Vec<(String, JsonValue)> = match v.get("content") {
                Some(c) => match c.as_object() {
                    Some(o) => o,
                    None => &empty_content,
                },
                None => &empty_content,
            };
            proof {
                assert(content.deep_view() =~= content_of(v.deep_view()));
            }
            let (content_type, schema): (Option<String>, Option<JsonValue>) = match select_media(
                content,
            ) {
                Some(j) => {
                    proof {
                        assert(content.deep_view()[j as int].1 == content@[j as int].1.deep_view());
                        assert(content.deep_view()[j as int].0 == content@[j as int].0@);
                    }
                    let sch = match content[j].1.get("schema") {
                        Some(x) => Some(x.deep_copy()),
                        None => None,
                    };
                    (Some(content[j].0.clone()), sch)
                },
                None => (None, None),
            };
            out.push(
                ResponseSchema {
                    status_code: status,
                    content_type,
                    schema,
                    description: get_text(v, "description"),
                },
            );
            i += 1;
        }
        out
    }
}

/// How a requirement's scopes relate to the scopes value in the document.
pub open spec fn scopes_post(v: Json, scopes: Seq<Seq<char>>) -> bool {
    match v {
        Json::Array(elems) => texts_post(elems, scopes),
        _ => scopes.len() == 0,
    }
}

/// How the requirements of one security entry relate to its object.
pub open spec fn entry_post(e: Json, out: Seq<SecurityRequirement>) -> bool {
    match e {
        Json::Object(fields) => out.len() == fields.len() && forall|j: int|
            0 <= j < out.len() ==> (#[trigger] out[j]).scheme_name@ == fields[j].0 && scopes_post(
                fields[j].1,
                out[j].scopes.deep_view(),
            ),
        _ => out.len() == 0,
    }
}

/// How a converted security list relates to the document array: the
/// flattened requirements of its entries, in order.
pub open spec fn sec_post(arr: Seq<Json>, out: Seq<SecurityRequirement>) -> bool
    decreases arr.len(),
{
    if arr.len() == 0 {
        out.len() == 0
    } else {
        exists|k: int|
            #![trigger out.subrange(0, k)]
            0 <= k <= out.len() && entry_post(arr[0], out.subrange(0, k)) && sec_post(
                arr.skip(1),
                out.subrange(k, out.len() as int),
            )
    }
}

/// Convert a security requirement array into requirement records.
#[verifier::loop_isolation(false)]
pub fn security_requirements(arr: &Vec<JsonValue>) -> (r: Vec<SecurityRequirement>)
    ensures
        sec_post(arr.deep_view(), r@),
{
    let n = arr.len();
    let mut out: Vec<SecurityRequirement> = Vec::new();
    let mut i: usize = 0;
    let ghost dv = arr.deep_view();
    proof {
        assert(dv.skip(0) =~= dv);
        assert forall|rest: Seq<SecurityRequirement>|
            sec_post(dv.skip(0), rest) implies #[trigger] sec_post(dv, out@ + rest) by {
            assert(out@ + rest =~= rest);
        }
    }
    while i < n
        invariant
            i <= n,
            forall|rest: Seq<SecurityRequirement>|
                sec_post(dv.skip(i as int), rest) ==> #[trigger] sec_post(dv, out@ + rest),
        decreases n - i,
    {
        let ghost pre = out@;
        proof {
            assert(dv.skip(i as int)[0] == dv[i as int]);
            assert(dv.skip(i as int).skip(1) =~= dv.skip(i + 1));
            assert(dv[i as int] == arr@[i as int].deep_view());
        }
        let mut seg: Vec<SecurityRequirement> = Vec::new();
        match &arr[i] {
            JsonValue::Object(fields) => {
                let m = fields.len();
                let mut j: usize = 0;
                while j < m
                    invariant
                        j <= m,
                        m == fields@.len(),
                        seg@.len() == j,
                        forall|b: int|
                            0 <= b < j ==> (#[trigger] seg@[b]).scheme_name@
                                == fields.deep_view()[b].0 && scopes_post(
                                fields.deep_view()[b].1,
                                seg@[b].scopes.deep_view(),
                            ),
                    decreases m - j,
                {
                    let scopes: Vec<String> = match fields[j].1.as_array() {
                        Some(elems) => texts_of(elems),
                        None => Vec::new(),
                    };
                    proof {
                        assert(fields.deep_view()[j as int] == (
                            fields@[j as int].0@,
                            fields@[j as int].1.deep_view(),
                        ));
                    }
                    seg.push(
                        SecurityRequirement { scheme_name: fields[j].0.clone(), scopes },
                    );
                    j += 1;
                }
                proof {
                    crate::json::lemma_object_deep_view(*fields);
                    assert(entry_post(dv[i as int], seg@));
                }
            },
            _ => {
                proof {
                    assert(entry_post(dv[i as int], seg@));
                }
            },
        }
        let ghost segv = seg@;
        let mut seg2 = seg;
        out.append(&mut seg2);
        proof {
            assert(out@ =~= pre + segv);
            assert forall|rest: Seq<SecurityRequirement>|
                sec_post(dv.skip(i + 1), rest) implies #[trigger] sec_post(dv, out@ + rest) by {
                let combined = segv + rest;
                assert(combined.subrange(0, segv.len() as int) =~= segv);
                assert(combined.subrange(segv.len() as int, combined.len() as int) =~= rest);
                assert(sec_post(dv.skip(i as int), combined));
                assert(pre + combined =~= out@ + rest);
            }
        }
        i += 1;
    }
    proof {
        assert(dv.skip(n as int).len() == 0);
        assert(sec_post(dv.skip(n as int), Seq::<SecurityRequirement>::empty()));
        assert(out@ + Seq::<SecurityRequirement>::empty() =~= out@);
    }
    out
}


/// The parameter objects of an operation or path item, or empty.
pub open spec fn params_of(v: Json) -> Seq<Json> {
    match spec_get(v, "parameters"@) {
        Some(Json::Array(ps)) => ps,
        _ => Seq::<Json>::empty(),
    }
}

/// How an extracted operation relates to the document: id selection and
/// normalization, parameter merging, body and response extraction, and
/// security selection.
pub open spec fn op_post(
    schemas: Seq<(Seq<char>, Json)>,
    path: Seq<char>,
    method: HttpMethod,
    raw: Json,
    item: Json,
    global_sec: Seq<Json>,
    op: ApiOperation,
) -> bool {
    &&& op.operation_id@ == (match spec_get(raw, "operationId"@) {
        Some(Json::Text(t)) => t,
        _ => spec_generated_id(path, method),
    })
    &&& op.normalized_id@ == spec_normalize(op.operation_id@)
    &&& op.method == method
    &&& op.path@ == path
    &&& opt_text_post(spec_get(raw, "summary"@), op.summary)
    &&& opt_text_post(spec_get(raw, "description"@), op.description)
    &&& (match spec_get(raw, "tags"@) {
        Some(Json::Array(ts)) => texts_post(ts, op.tags.deep_view()),
        _ => op.tags@.len() == 0,
    })
    &&& op.deprecated == spec_bool_or_false(spec_get(raw, "deprecated"@))
    &&& (exists|pp: Seq<OperationParameter>, conv: Seq<OperationParameter>|
        params_post(schemas, params_of(item), pp) && params_post(schemas, params_of(raw), conv)
            && op.parameters@ == #[trigger] spec_merge(pp, conv))
    &&& (match spec_get(raw, "requestBody"@) {
        Some(rb) => body_post(schemas, rb, op.request_body),
        None => op.request_body is None,
    })
    &&& (match spec_get(raw, "responses"@) {
        Some(Json::Object(rs)) => op.responses@.len() == rs.len() && forall|k: int|
            0 <= k < rs.len() ==> response_post(#[trigger] rs[k], op.responses@[k]),
        _ => op.responses@.len() == 0,
    })
    &&& (match spec_get(raw, "security"@) {
        Some(Json::Array(sec)) => sec_post(sec, op.security@),
        _ => sec_post(global_sec, op.security@),
    })
}

impl OperationExtractor {
    /// Extract one operation from its document object.
    pub fn extract_operation(
        path: &str,
        method: HttpMethod,
        raw: &JsonValue,
        item: &JsonValue,
        global_sec: &Vec<JsonValue>,
        schemas: &Vec<(String, JsonValue)>,
    ) -> (r: ApiOperation)
        ensures
            op_post(
                schemas.deep_view(),
                path@,
                method,
                raw.deep_view(),
                item.deep_view(),
                global_sec.deep_view(),
                r,
            ),
    {
        let operation_id = match get_text(raw, "operationId") {
            Some(t) => t,
            None => Self::generate_operation_id(path, method),
        };
        let normalized_id = Self::normalize_operation_id(operation_id.as_str());
        let empty_params: Vec<JsonValue> = Vec::new();
        let item_params_raw: &Vec<JsonValue> = match item.get("parameters") {
            Some(ps) => match ps.as_array() {
                Some(a) => a,
                None => &empty_params,
            },
            None => &empty_params,
        };
        let op_params_raw: &Vec<JsonValue> = match raw.get("parameters") {
            Some(ps) => match ps.as_array() {
                Some(a) => a,
                None => &empty_params,
            },
            None => &empty_params,
        };
        proof {
            assert(item_params_raw.deep_view() =~= params_of(item.deep_view()));
            assert(op_params_raw.deep_view() =~= params_of(raw.deep_view()));
        }
        let path_params = convert_params_list(item_params_raw, schemas);
        let own_params = convert_params_list(op_params_raw, schemas);
        let parameters = merge_params(path_params, own_params);
        let request_body = match raw.get("requestBody") {
            Some(rb) => Self::extract_request_body(rb, schemas),
            None => None,
        };
        let empty_responses: Vec<(String, JsonValue)> = Vec::new();
        let responses_obj: &Vec<(String, JsonValue)> = match raw.get("responses") {
            Some(rs) => match rs.as_object() {
                Some(o) => o,
                None => &empty_responses,
            },
            None => &empty_responses,
        };
        let responses = Self::extract_responses(responses_obj);
        let security = match raw.get("security") {
            Some(sec) => match sec.as_array() {
                Some(a) => security_requirements(a),
                None => security_requirements(global_sec),
            },
            None => security_requirements(global_sec),
        };
        let tags: Vec<String> = match raw.get("tags") {
            Some(ts) => match ts.as_array() {
                Some(a) => texts_of(a),
                None => Vec::new(),
            },
            None => Vec::new(),
        };
        let summary = get_text(raw, "summary");
        let description = get_text(raw, "description");
        let deprecated = get_bool_or_false(raw, "deprecated");
        ApiOperation {
            operation_id,
            normalized_id,
            method: method,
            path: path.to_owned(),
            summary,
            description,
            tags,
            deprecated,
            parameters,
            request_body,
            responses,
            security,
        }
    }
}

/// The pair list one path item contributes for one method key.
pub open spec fn method_entry(path: Seq<char>, item: Json, m: HttpMethod, name: Seq<char>) -> Seq<
    (Seq<char>, HttpMethod, Json, Json),
> {
    match spec_get(item, name) {
        Some(op) => if op is Object {
            seq![(path, m, op, item)]
        } else {
            Seq::<(Seq<char>, HttpMethod, Json, Json)>::empty()
        },
        None => Seq::<(Seq<char>, HttpMethod, Json, Json)>::empty(),
    }
}

/// The (path, method, operation, item) pairs of one path item, in the
/// fixed verb order.
pub open spec fn item_pairs(path: Seq<char>, item: Json) -> Seq<
    (Seq<char>, HttpMethod, Json, Json),
> {
    method_entry(path, item, HttpMethod::Get, "get"@) + method_entry(
        path,
        item,
        HttpMethod::Post,
        "post"@,
    ) + method_entry(path, item, HttpMethod::Put, "put"@) + method_entry(
        path,
        item,
        HttpMethod::Patch,
        "patch"@,
    ) + method_entry(path, item, HttpMethod::Delete, "delete"@) + method_entry(
        path,
        item,
        HttpMethod::Head,
        "head"@,
    ) + method_entry(path, item, HttpMethod::Options, "options"@) + method_entry(
        path,
        item,
        HttpMethod::Trace,
        "trace"@,
    )
}

/// The pairs of all path items from index `i` on.
pub open spec fn path_pairs(paths: Seq<(Seq<char>, Json)>, i: int) -> Seq<
    (Seq<char>, HttpMethod, Json, Json),
>
    decreases paths.len() - i,
{
    if i < 0 || i >= paths.len() {
        Seq::<(Seq<char>, HttpMethod, Json, Json)>::empty()
    } else {
        item_pairs(paths[i].0, paths[i].1) + path_pairs(paths, i + 1)
    }
}

/// The schema components of a document, or empty.
pub open spec fn doc_schemas(doc: Json) -> Seq<(Seq<char>, Json)> {
    match spec_get(doc, "components"@) {
        Some(c) => match spec_get(c, "schemas"@) {
            Some(Json::Object(ss)) => ss,
            _ => Seq::<(Seq<char>, Json)>::empty(),
        },
        _ => Seq::<(Seq<char>, Json)>::empty(),
    }
}

/// The global security array of a document, or empty.
pub open spec fn doc_global_security(doc: Json) -> Seq<Json> {
    match spec_get(doc, "security"@) {
        Some(Json::Array(a)) => a,
        _ => Seq::<Json>::empty(),
    }
}

/// The paths object of a document, or empty.
pub open spec fn doc_paths(doc: Json) -> Seq<(Seq<char>, Json)> {
    match spec_get(doc, "paths"@) {
        Some(Json::Object(p)) => p,
        _ => Seq::<(Seq<char>, Json)>::empty(),
    }
}

/// How one extracted operation relates to its pair.
pub open spec fn pair_ok(
    schemas: Seq<(Seq<char>, Json)>,
    global_sec: Seq<Json>,
    pair: (Seq<char>, HttpMethod, Json, Json),
    op: ApiOperation,
) -> bool {
    op_post(schemas, pair.0, pair.1, pair.2, pair.3, global_sec, op)
}

/// What extraction guarantees: one operation per present verb of each path
/// item, in document order, each extracted as [`op_post`] says.
pub open spec fn extract_post(doc: Json, ops: Seq<ApiOperation>) -> bool {
    let pairs = path_pairs(doc_paths(doc), 0);
    &&& ops.len() == pairs.len()
    &&& forall|k: int|
        0 <= k < ops.len() ==> pair_ok(
            doc_schemas(doc),
            doc_global_security(doc),
            #[trigger] pairs[k],
            ops[k],
        )
}

/// The pairs of the first `i` path items.
pub open spec fn path_pairs_prefix(paths: Seq<(Seq<char>, Json)>, i: int) -> Seq<
    (Seq<char>, HttpMethod, Json, Json),
>
    decreases i,
{
    if i <= 0 || i > paths.len() {
        Seq::<(Seq<char>, HttpMethod, Json, Json)>::empty()
    } else {
        path_pairs_prefix(paths, i - 1) + item_pairs(paths[i - 1].0, paths[i - 1].1)
    }
}

proof fn lemma_path_pairs_glue(paths: Seq<(Seq<char>, Json)>, i: int)
    requires
        0 <= i <= paths.len(),
    ensures
        path_pairs(paths, 0) == path_pairs_prefix(paths, i) + path_pairs(paths, i),
    decreases i,
{
    if i == 0 {
        assert(path_pairs_prefix(paths, 0) + path_pairs(paths, 0) =~= path_pairs(paths, 0));
    } else {
        lemma_path_pairs_glue(paths, i - 1);
        assert(path_pairs(paths, i - 1) == item_pairs(paths[i - 1].0, paths[i - 1].1)
            + path_pairs(paths, i));
        assert(path_pairs_prefix(paths, i - 1) + path_pairs(paths, i - 1)
            =~= path_pairs_prefix(paths, i) + path_pairs(paths, i));
    }
}

impl OperationExtractor {
    /// Extract the operations of one path item, in the fixed verb order.
    fn extract_item(
        path: &str,
        item: &JsonValue,
        global_sec: &Vec<JsonValue>,
        schemas: &Vec<(String, JsonValue)>,
    ) -> (r: Vec<ApiOperation>)
        ensures
            r@.len() == item_pairs(path@, item.deep_view()).len(),
            forall|k: int|
                0 <= k < r@.len() ==> pair_ok(
                    schemas.deep_view(),
                    global_sec.deep_view(),
                    #[trigger] item_pairs(path@, item.deep_view())[k],
                    r@[k],
                ),
    {
        let mut out: Vec<ApiOperation> = Vec::new();
        let methods: [HttpMethod; 8] = [
            HttpMethod::Get,
            HttpMethod::Post,
            HttpMethod::Put,
            HttpMethod::Patch,
            HttpMethod::Delete,
            HttpMethod::Head,
            HttpMethod::Options,
            HttpMethod::Trace,
        ];
        let names: [&str; 8] = [
            "get",
            "post",
            "put",
            "patch",
            "delete",
            "head",
            "options",
            "trace",
        ];
        let ghost pairs = item_pairs(path@, item.deep_view());
        let mut mi: usize = 0;
        while mi < 8
            invariant
                mi <= 8,
                methods@ =~= seq![
                    HttpMethod::Get,
                    HttpMethod::Post,
                    HttpMethod::Put,
                    HttpMethod::Patch,
                    HttpMethod::Delete,
                    HttpMethod::Head,
                    HttpMethod::Options,
                    HttpMethod::Trace,
                ],
                names@.len() == 8,
                names@[0]@ == "get"@,
                names@[1]@ == "post"@,
                names@[2]@ == "put"@,
                names@[3]@ == "patch"@,
                names@[4]@ == "delete"@,
                names@[5]@ == "head"@,
                names@[6]@ == "options"@,
                names@[7]@ == "trace"@,
                pairs == item_pairs(path@, item.deep_view()),
                out@.len() == prefix_entries(path@, item.deep_view(), mi as int).len(),
                forall|k: int|
                    0 <= k < out@.len() ==> pair_ok(
                        schemas.deep_view(),
                        global_sec.deep_view(),
                        #[trigger] prefix_entries(path@, item.deep_view(), mi as int)[k],
                        out@[k],
                    ),
            decreases 8 - mi,
        {
            let name = names[mi];
            let method = methods[mi];
            if let Some(rawop) = item.get(name) {
                if rawop.is_object() {
                    let op = Self::extract_operation(
                        path,
                        method,
                        rawop,
                        item,
                        global_sec,
                        schemas,
                    );
                    out.push(op);
                }
            }
            proof {
                assert(prefix_entries(path@, item.deep_view(), mi + 1 as int)
                    =~= prefix_entries(path@, item.deep_view(), mi as int) + method_entry(
                    path@,
                    item.deep_view(),
                    methods@[mi as int],
                    names@[mi as int]@,
                ));
            }
            mi += 1;
        }
        proof {
            assert(prefix_entries(path@, item.deep_view(), 8) =~= item_pairs(
                path@,
                item.deep_view(),
            ));
        }
        out
    }

    /// Extract every operation of a document's paths, in document order.
    #[verifier::loop_isolation(false)]
    pub fn extract(doc: &JsonValue) -> (r: Vec<ApiOperation>)
        ensures
            extract_post(doc.deep_view(), r@),
    {
        let empty_schemas: Vec<(String, JsonValue)> = Vec::new();
        let schemas: &Vec<(String, JsonValue)> = match doc.get("components") {
            Some(c) => match c.get("schemas") {
                Some(ss) => match ss.as_object() {
                    Some(o) => o,
                    None => &empty_schemas,
                },
                None => &empty_schemas,
            },
            None => &empty_schemas,
        };
        proof {
            assert(schemas.deep_view() =~= doc_schemas(doc.deep_view()));
        }
        let empty_sec: Vec<JsonValue> = Vec::new();
        let global_sec: &Vec<JsonValue> = match doc.get("security") {
            Some(sec) => match sec.as_array() {
                Some(a) => a,
                None => &empty_sec,
            },
            None => &empty_sec,
        };
        proof {
            assert(global_sec.deep_view() =~= doc_global_security(doc.deep_view()));
        }
        let empty_paths: Vec<(String, JsonValue)> = Vec::new();
        let paths: &Vec<(String, JsonValue)> = match doc.get("paths") {
            Some(p) => match p.as_object() {
                Some(o) => o,
                None => &empty_paths,
            },
            None => &empty_paths,
        };
        proof {
            assert(paths.deep_view() =~= doc_paths(doc.deep_view()));
        }
        let n = paths.len();
        let mut out: Vec<ApiOperation> = Vec::new();
        let mut i: usize = 0;
        while i < n
            invariant
                i <= n,
                out@.len() == path_pairs_prefix(paths.deep_view(), i as int).len(),
                forall|k: int|
                    0 <= k < out@.len() ==> pair_ok(
                        schemas.deep_view(),
                        global_sec.deep_view(),
                        #[trigger] path_pairs_prefix(paths.deep_view(), i as int)[k],
                        out@[k],
                    ),
            decreases n - i,
        {
            proof {
                assert(paths.deep_view()[i as int] == (
                    paths@[i as int].0@,
                    paths@[i as int].1.deep_view(),
                ));
            }
            let mut sub = Self::extract_item(
                paths[i].0.as_str(),
                &paths[i].1,
                global_sec,
                schemas,
            );
            let ghost subv = sub@;
            let ghost pre = out@;
            out.append(&mut sub);
            proof {
                assert(out@ =~= pre + subv);
                assert(path_pairs_prefix(paths.deep_view(), i + 1 as int) =~= path_pairs_prefix(
                    paths.deep_view(),
                    i as int,
                ) + item_pairs(paths.deep_view()[i as int].0, paths.deep_view()[i as int].1));
            }
            i += 1;
        }
        proof {
            lemma_path_pairs_glue(paths.deep_view(), n as int);
            assert(path_pairs(paths.deep_view(), n as int).len() == 0);
            assert(path_pairs(paths.deep_view(), 0) =~= path_pairs_prefix(
                paths.deep_view(),
                n as int,
            ));
        }
        out
    }
}

/// The pair list of the first `mi` verbs of one path item.
pub open spec fn prefix_entries(path: Seq<char>, item: Json, mi: int) -> Seq<
    (Seq<char>, HttpMethod, Json, Json),
> {
    let e1 = method_entry(path, item, HttpMethod::Get, "get"@);
    let e2 = method_entry(path, item, HttpMethod::Post, "post"@);
    let e3 = method_entry(path, item, HttpMethod::Put, "put"@);
    let e4 = method_entry(path, item, HttpMethod::Patch, "patch"@);
    let e5 = method_entry(path, item, HttpMethod::Delete, "delete"@);
    let e6 = method_entry(path, item, HttpMethod::Head, "head"@);
    let e7 = method_entry(path, item, HttpMethod::Options, "options"@);
    let e8 = method_entry(path, item, HttpMethod::Trace, "trace"@);
    if mi <= 0 {
        Seq::<(Seq<char>, HttpMethod, Json, Json)>::empty()
    } else if mi == 1 {
        e1
    } else if mi == 2 {
        e1 + e2
    } else if mi == 3 {
        e1 + e2 + e3
    } else if mi == 4 {
        e1 + e2 + e3 + e4
    } else if mi == 5 {
        e1 + e2 + e3 + e4 + e5
    } else if mi == 6 {
        e1 + e2 + e3 + e4 + e5 + e6
    } else if mi == 7 {
        e1 + e2 + e3 + e4 + e5 + e6 + e7
    } else {
        e1 + e2 + e3 + e4 + e5 + e6 + e7 + e8
    }
}

} // verus!
