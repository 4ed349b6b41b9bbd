//! `$ref` resolution for OpenAPI schemas.
//!
//! A resolver bound to the document's `components.schemas` splices a copy
//! of the referenced schema in place of any `{"$ref":
//! "#/components/schemas/X"}` object, recursing into `properties`, `items`,
//! object-valued `additionalProperties`, and the `allOf`/`oneOf`/`anyOf`
//! lists. Resolution stops at depth 10, leaving deeper sub-schemas as they
//! stand (the cycle guard); refs outside the local schema components are
//! left intact.

use vstd::prelude::*;
use crate::json::{Json, JsonValue, spec_obj_get, obj_get, json_view};

verus! {

/// The resolution depth limit.
pub const MAX_RESOLVE_DEPTH: usize = 10;

/// The schema a local `#/components/schemas/` reference names, if any.
pub open spec fn spec_ref_target(schemas: Seq<(Seq<char>, Json)>, ref_str: Seq<char>) -> Option<
    Json,
> {
    let prefix = "#/components/schemas/"@;
    if ref_str.len() >= prefix.len() && ref_str.subrange(0, prefix.len() as int) == prefix {
        spec_obj_get(schemas, ref_str.skip(prefix.len() as int))
    } else {
        None
    }
}

/// What resolving a schema yields.
pub open spec fn spec_resolve(schemas: Seq<(Seq<char>, Json)>, v: Json, depth: int) -> Json
    decreases 11 - depth, v, 1int, 0int,
{
    if depth > 10 {
        v
    } else {
        match v {
            Json::Object(fields) => {
                let ref_target = match spec_obj_get(fields, "$ref"@) {
                    Some(Json::Text(r)) => spec_ref_target(schemas, r),
                    _ => None,
                };
                match ref_target {
                    Some(target) => spec_resolve(schemas, target, depth + 1),
                    None => Json::Object(spec_resolve_fields(schemas, fields, 0, depth)),
                }
            },
            _ => v,
        }
    }
}

/// The fields of an object schema, each resolved as its key demands.
pub open spec fn spec_resolve_fields(
    schemas: Seq<(Seq<char>, Json)>,
    fields: Seq<(Seq<char>, Json)>,
    i: int,
    depth: int,
) -> Seq<(Seq<char>, Json)>
    decreases 11 - depth, fields, 0int, fields.len() - i,
{
    if depth > 10 || i < 0 || i >= fields.len() {
        Seq::<(Seq<char>, Json)>::empty()
    } else {
        let (key, value) = fields[i];
        let resolved = if key == "properties"@ {
            spec_resolve_props(schemas, value, depth)
        } else if key == "items"@ {
            spec_resolve(schemas, value, depth + 1)
        } else if key == "additionalProperties"@ && value is Object {
            spec_resolve(schemas, value, depth + 1)
        } else if (key == "allOf"@ || key == "oneOf"@ || key == "anyOf"@) {
            spec_resolve_list(schemas, value, depth)
        } else {
            value
        };
        seq![(key, resolved)] + spec_resolve_fields(schemas, fields, i + 1, depth)
    }
}

/// A `properties` value: each property schema resolved one level deeper.
pub open spec fn spec_resolve_props(
    schemas: Seq<(Seq<char>, Json)>,
    v: Json,
    depth: int,
) -> Json
    decreases 11 - depth, v, 0int, 0int,
{
    if depth > 10 {
        v
    } else {
        match v {
            Json::Object(props) => Json::Object(spec_resolve_prop_fields(schemas, props, 0, depth)),
            _ => v,
        }
    }
}

/// The entries of a `properties` object from index `i` on.
pub open spec fn spec_resolve_prop_fields(
    schemas: Seq<(Seq<char>, Json)>,
    props: Seq<(Seq<char>, Json)>,
    i: int,
    depth: int,
) -> Seq<(Seq<char>, Json)>
    decreases 11 - depth, props, 0int, props.len() - i,
    via spec_resolve_prop_fields_decreases
{
    if depth > 10 || i < 0 || i >= props.len() {
        Seq::<(Seq<char>, Json)>::empty()
    } else {
        seq![(props[i].0, spec_resolve(schemas, props[i].1, depth + 1))] + spec_resolve_prop_fields(
            schemas,
            props,
            i + 1,
            depth,
        )
    }
}

#[via_fn]
proof fn spec_resolve_prop_fields_decreases(
    schemas: Seq<(Seq<char>, Json)>,
    props: Seq<(Seq<char>, Json)>,
    i: int,
    depth: int,
) {
    if !(depth > 10 || i < 0 || i >= props.len()) {
        assert(decreases_to!(props => props[i]));
        assert(decreases_to!(props[i] => props[i].1));
    }
}

/// An `allOf`/`oneOf`/`anyOf` value: each variant resolved one level
/// deeper.
pub open spec fn spec_resolve_list(schemas: Seq<(Seq<char>, Json)>, v: Json, depth: int) -> Json
    decreases 11 - depth, v, 0int, 0int,
{
    if depth > 10 {
        v
    } else {
        match v {
            Json::Array(elems) => Json::Array(spec_resolve_elems(schemas, elems, 0, depth)),
            _ => v,
        }
    }
}

/// The elements of a composition list from index `i` on.
pub open spec fn spec_resolve_elems(
    schemas: Seq<(Seq<char>, Json)>,
    elems: Seq<Json>,
    i: int,
    depth: int,
) -> Seq<Json>
    decreases 11 - depth, elems, 0int, elems.len() - i,
{
    if depth > 10 || i < 0 || i >= elems.len() {
        Seq::<Json>::empty()
    } else {
        seq![spec_resolve(schemas, elems[i], depth + 1)] + spec_resolve_elems(
            schemas,
            elems,
            i + 1,
            depth,
        )
    }
}

/// Resolve a local schema reference string against the components.
fn ref_target<'a>(schemas: &'a Vec<(String, JsonValue)>, ref_str: &str) -> (r: Option<
    &'a JsonValue,
>)
    ensures
        match r {
            Some(t) => spec_ref_target(schemas.deep_view(), ref_str@) == Some(t.deep_view()),
            None => spec_ref_target(schemas.deep_view(), ref_str@) is None,
        },
{
    let prefix = "#/components/schemas/";
    let rc = crate::strutil::chars_of(ref_str);
    let pc = crate::strutil::chars_of(prefix);
    proof {
        reveal_strlit("#/components/schemas/");
    }
    if !crate::strutil::starts_with_chars(&rc, &pc) {
        return None;
    }
    let name_chars = crate::strutil::subrange_chars(&rc, pc.len(), rc.len());
    let name = crate::strutil::string_of(&name_chars);
    proof {
        assert(name@ =~= ref_str@.skip(pc@.len() as int));
    }
    obj_get(schemas, name.as_str())
}

/// Resolve a schema, splicing local `$ref` targets, up to the depth limit.
#[verifier::loop_isolation(false)]
pub fn resolve_schema(schemas: &Vec<(String, JsonValue)>, v: &JsonValue, depth: usize) -> (r:
    JsonValue)
    requires
        depth <= MAX_RESOLVE_DEPTH + 1,
    ensures
        r.deep_view() == spec_resolve(schemas.deep_view(), v.deep_view(), depth as int),
    decreases MAX_RESOLVE_DEPTH + 1 - depth, v, 0int,
{
    if depth > MAX_RESOLVE_DEPTH {
        return v.deep_copy();
    }
    let fields = match v {
        JsonValue::Object(f) => f,
        _ => {
            return v.deep_copy();
        },
    };
    proof {
        crate::json::lemma_object_deep_view(*fields);
        assert(v.deep_view() == Json::Object(fields.deep_view()));
    }
    let ref_value = obj_get(fields, "$ref");
    if let Some(rv) = ref_value {
        if let Some(rs) = rv.as_text() {
            if let Some(target) = ref_target(schemas, rs.as_str()) {
                let target_copy = target.deep_copy();
                return resolve_schema(schemas, &target_copy, depth + 1);
            }
        }
    }
    let n = fields.len();
    let mut out: Vec<(String, JsonValue)> = Vec::new();
    let mut i: usize = 0;
    while i < n
        invariant
            i <= n,
            out.deep_view() == spec_resolve_fields_prefix(
                schemas.deep_view(),
                fields.deep_view(),
                i as int,
                depth as int,
            ),
        decreases n - i,
    {
        let key = &fields[i].0;
        let value = &fields[i].1;
        let resolved: JsonValue = if crate::strutil::str_eq(key.as_str(), "properties") {
            resolve_properties(schemas, value, depth)
        } else if crate::strutil::str_eq(key.as_str(), "items") {
            resolve_schema(schemas, value, depth + 1)
        } else if crate::strutil::str_eq(key.as_str(), "additionalProperties") && value.is_object()
         {
            resolve_schema(schemas, value, depth + 1)
        } else if crate::strutil::str_eq(key.as_str(), "allOf") || crate::strutil::str_eq(
            key.as_str(),
            "oneOf",
        ) || crate::strutil::str_eq(key.as_str(), "anyOf") {
            resolve_list(schemas, value, depth)
        } else {
            value.deep_copy()
        };
        out.push((key.clone(), resolved));
        proof {
            lemma_resolve_fields_prefix_snoc(
                schemas.deep_view(),
                fields.deep_view(),
                i as int,
                depth as int,
            );
            assert(out.deep_view() =~= spec_resolve_fields_prefix(
                schemas.deep_view(),
                fields.deep_view(),
                i + 1 as int,
                depth as int,
            ));
        }
        i += 1;
    }
    proof {
        lemma_resolve_fields_prefix_full(
            schemas.deep_view(),
            fields.deep_view(),
            depth as int,
        );
        crate::json::lemma_object_deep_view(out);
    }
    JsonValue::Object(out)
}

/// The first `i` resolved fields (prefix form of [`spec_resolve_fields`]).
pub open spec fn spec_resolve_fields_prefix(
    schemas: Seq<(Seq<char>, Json)>,
    fields: Seq<(Seq<char>, Json)>,
    i: int,
    depth: int,
) -> Seq<(Seq<char>, Json)>
    decreases i,
{
    if depth > 10 || i <= 0 || i > fields.len() {
        Seq::<(Seq<char>, Json)>::empty()
    } else {
        spec_resolve_fields_prefix(schemas, fields, i - 1, depth).push(
            (fields[i - 1].0, spec_resolved_field(schemas, fields[i - 1], depth)),
        )
    }
}

/// One resolved field value, by its key.
pub open spec fn spec_resolved_field(
    schemas: Seq<(Seq<char>, Json)>,
    field: (Seq<char>, Json),
    depth: int,
) -> Json {
    let (key, value) = field;
    if key == "properties"@ {
        spec_resolve_props(schemas, value, depth)
    } else if key == "items"@ {
        spec_resolve(schemas, value, depth + 1)
    } else if key == "additionalProperties"@ && value is Object {
        spec_resolve(schemas, value, depth + 1)
    } else if (key == "allOf"@ || key == "oneOf"@ || key == "anyOf"@) {
        spec_resolve_list(schemas, value, depth)
    } else {
        value
    }
}

proof fn lemma_resolve_fields_prefix_snoc(
    schemas: Seq<(Seq<char>, Json)>,
    fields: Seq<(Seq<char>, Json)>,
    i: int,
    depth: int,
)
    requires
        0 <= i < fields.len(),
        depth <= 10,
    ensures
        spec_resolve_fields_prefix(schemas, fields, i + 1, depth) == spec_resolve_fields_prefix(
            schemas,
            fields,
            i,
            depth,
        ).push((fields[i].0, spec_resolved_field(schemas, fields[i], depth))),
{
}

/// The full prefix is the suffix recursion from zero.
proof fn lemma_resolve_fields_glue(
    schemas: Seq<(Seq<char>, Json)>,
    fields: Seq<(Seq<char>, Json)>,
    i: int,
    depth: int,
)
    requires
        0 <= i <= fields.len(),
        depth <= 10,
    ensures
        spec_resolve_fields_prefix(schemas, fields, fields.len() as int, depth)
            == spec_resolve_fields_prefix(schemas, fields, i, depth) + spec_resolve_fields(
            schemas,
            fields,
            i,
            depth,
        ),
    decreases fields.len() - i,
{
    if i == fields.len() {
        assert(spec_resolve_fields(schemas, fields, i, depth)
            == Seq::<(Seq<char>, Json)>::empty());
        assert(spec_resolve_fields_prefix(schemas, fields, i, depth) + Seq::<(
            Seq<char>,
            Json,
        )>::empty() =~= spec_resolve_fields_prefix(schemas, fields, i, depth));
    } else {
        lemma_resolve_fields_glue(schemas, fields, i + 1, depth);
        lemma_resolve_fields_prefix_snoc(schemas, fields, i, depth);
        assert(spec_resolve_fields(schemas, fields, i, depth) == seq![
            (fields[i].0, spec_resolved_field(schemas, fields[i], depth)),
        ] + spec_resolve_fields(schemas, fields, i + 1, depth));
        assert(spec_resolve_fields_prefix(schemas, fields, i, depth) + spec_resolve_fields(
            schemas,
            fields,
            i,
            depth,
        ) =~= spec_resolve_fields_prefix(schemas, fields, i + 1, depth) + spec_resolve_fields(
            schemas,
            fields,
            i + 1,
            depth,
        ));
    }
}

proof fn lemma_resolve_fields_prefix_full(
    schemas: Seq<(Seq<char>, Json)>,
    fields: Seq<(Seq<char>, Json)>,
    depth: int,
)
    requires
        depth <= 10,
    ensures
        spec_resolve_fields_prefix(schemas, fields, fields.len() as int, depth)
            == spec_resolve_fields(schemas, fields, 0, depth),
{
    lemma_resolve_fields_glue(schemas, fields, 0, depth);
    assert(spec_resolve_fields_prefix(schemas, fields, 0, depth) + spec_resolve_fields(
        schemas,
        fields,
        0,
        depth,
    ) =~= spec_resolve_fields(schemas, fields, 0, depth));
}

/// Resolve each property schema of a `properties` object.
#[verifier::loop_isolation(false)]
fn resolve_properties(schemas: &Vec<(String, JsonValue)>, v: &JsonValue, depth: usize) -> (r:
    JsonValue)
    requires
        depth <= MAX_RESOLVE_DEPTH,
    ensures
        r.deep_view() == spec_resolve_props(schemas.deep_view(), v.deep_view(), depth as int),
    decreases MAX_RESOLVE_DEPTH + 1 - depth, v, 1int,
{
    let props = match v {
        JsonValue::Object(p) => p,
        _ => {
            return v.deep_copy();
        },
    };
    proof {
        crate::json::lemma_object_deep_view(*props);
        assert(v.deep_view() == Json::Object(props.deep_view()));
    }
    let n = props.len();
    let mut out: Vec<(String, JsonValue)> = Vec::new();
    let mut i: usize = 0;
    while i < n
        invariant
            i <= n,
            out@.len() == i,
            forall|k: int|
                0 <= k < i ==> out@[k].0@ == props@[k].0@ && out@[k].1.deep_view()
                    == spec_resolve(schemas.deep_view(), props@[k].1.deep_view(), depth + 1),
        decreases n - i,
    {
        let resolved = resolve_schema(schemas, &props[i].1, depth + 1);
        out.push((props[i].0.clone(), resolved));
        i += 1;
    }
    proof {
        lemma_resolve_prop_fields_pointwise(
            schemas.deep_view(),
            props.deep_view(),
            0,
            depth as int,
        );
        crate::json::lemma_object_deep_view(out);
        assert(out.deep_view() =~= spec_resolve_prop_fields(
            schemas.deep_view(),
            props.deep_view(),
            0,
            depth as int,
        ));
    }
    JsonValue::Object(out)
}

/// `spec_resolve_prop_fields` described element-wise.
proof fn lemma_resolve_prop_fields_pointwise(
    schemas: Seq<(Seq<char>, Json)>,
    props: Seq<(Seq<char>, Json)>,
    i: int,
    depth: int,
)
    requires
        0 <= i <= props.len(),
        depth <= 10,
    ensures
        spec_resolve_prop_fields(schemas, props, i, depth).len() == props.len() - i,
        forall|k: int|
            0 <= k < props.len() - i ==> spec_resolve_prop_fields(schemas, props, i, depth)[k]
                == (props[i + k].0, spec_resolve(schemas, props[i + k].1, depth + 1)),
    decreases props.len() - i,
{
    if i < props.len() {
        lemma_resolve_prop_fields_pointwise(schemas, props, i + 1, depth);
    }
}

/// Resolve each element of a composition list.
#[verifier::loop_isolation(false)]
fn resolve_list(schemas: &Vec<(String, JsonValue)>, v: &JsonValue, depth: usize) -> (r: JsonValue)
    requires
        depth <= MAX_RESOLVE_DEPTH,
    ensures
        r.deep_view() == spec_resolve_list(schemas.deep_view(), v.deep_view(), depth as int),
    decreases MAX_RESOLVE_DEPTH + 1 - depth, v, 1int,
{
    let elems = match v {
        JsonValue::Array(a) => a,
        _ => {
            return v.deep_copy();
        },
    };
    proof {
        crate::json::lemma_array_deep_view(*elems);
        assert(v.deep_view() == Json::Array(elems.deep_view()));
    }
    let n = elems.len();
    let mut out: Vec<JsonValue> = Vec::new();
    let mut i: usize = 0;
    while i < n
        invariant
            i <= n,
            out@.len() == i,
            forall|k: int|
                0 <= k < i ==> out@[k].deep_view() == spec_resolve(
                    schemas.deep_view(),
                    elems@[k].deep_view(),
                    depth + 1,
                ),
        decreases n - i,
    {
        let resolved = resolve_schema(schemas, &elems[i], depth + 1);
        out.push(resolved);
        i += 1;
    }
    proof {
        lemma_resolve_elems_pointwise(schemas.deep_view(), elems.deep_view(), 0, depth as int);
        crate::json::lemma_array_deep_view(out);
        assert(out.deep_view() =~= spec_resolve_elems(
            schemas.deep_view(),
            elems.deep_view(),
            0,
            depth as int,
        ));
    }
    JsonValue::Array(out)
}

/// `spec_resolve_elems` described element-wise.
proof fn lemma_resolve_elems_pointwise(
    schemas: Seq<(Seq<char>, Json)>,
    elems: Seq<Json>,
    i: int,
    depth: int,
)
    requires
        0 <= i <= elems.len(),
        depth <= 10,
    ensures
        spec_resolve_elems(schemas, elems, i, depth).len() == elems.len() - i,
        forall|k: int|
            0 <= k < elems.len() - i ==> spec_resolve_elems(schemas, elems, i, depth)[k]
                == spec_resolve(schemas, elems[i + k], depth + 1),
    decreases elems.len() - i,
{
    if i < elems.len() {
        lemma_resolve_elems_pointwise(schemas, elems, i + 1, depth);
    }
}

/// Resolve a schema from the top.
pub fn resolve(schemas: &Vec<(String, JsonValue)>, v: &JsonValue) -> (r: JsonValue)
    ensures
        r.deep_view() == spec_resolve(schemas.deep_view(), v.deep_view(), 0),
{
    resolve_schema(schemas, v, 0)
}

} // verus!
