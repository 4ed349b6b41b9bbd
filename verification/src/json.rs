//! The JSON value model.
//!
//! Parsed documents, schemas, and tool arguments are held as [`JsonValue`]
//! trees: objects keep their fields in document order, and numbers keep
//! their literal token text, so no floating point enters the library. The
//! spec-level mirror [`Json`] is the deep view that every contract speaks
//! of. Parsing text into the model goes through `serde_json` / `serde_yaml`
//! behind trusted wrappers; rendering the model back to text is verified
//! against [`json_text`].

use vstd::prelude::*;
use crate::hexcode::hex_digit;
use crate::strutil::string_of;

verus! {

/// A JSON value, with numbers kept as their literal token text and object
/// fields kept in document order.
pub enum JsonValue {
    /// `null`.
    Null,
    /// `true` or `false`.
    Bool(bool),
    /// A number, as its literal token text (e.g. `-12`, `3.5`, `1e9`).
    Number(String),
    /// A string.
    Text(String),
    /// An array.
    Array(Vec<JsonValue>),
    /// An object: fields in order, keys unique after parsing.
    Object(Vec<(String, JsonValue)>),
}

/// The mathematical mirror of [`JsonValue`].
pub enum Json {
    /// `null`.
    Null,
    /// `true` or `false`.
    Bool(bool),
    /// A number token.
    Number(Seq<char>),
    /// A string.
    Text(Seq<char>),
    /// An array.
    Array(Seq<Json>),
    /// An object.
    Object(Seq<(Seq<char>, Json)>),
}

/// The deep view of a [`JsonValue`].
pub open spec fn json_view(v: JsonValue) -> Json
    decreases v, 0int, 0int,
    via json_view_decreases
{
    match v {
        JsonValue::Null => Json::Null,
        JsonValue::Bool(b) => Json::Bool(b),
        JsonValue::Number(s) => Json::Number(s@),
        JsonValue::Text(s) => Json::Text(s@),
        JsonValue::Array(a) => Json::Array(json_view_arr(a@, 0)),
        JsonValue::Object(o) => Json::Object(json_view_obj(o@, 0)),
    }
}

/// The deep views of array elements from index `i` on.
pub open spec fn json_view_arr(a: Seq<JsonValue>, i: int) -> Seq<Json>
    decreases a, 1int, a.len() - i,
{
    if i < 0 || i >= a.len() {
        Seq::<Json>::empty()
    } else {
        seq![json_view(a[i])] + json_view_arr(a, i + 1)
    }
}

/// The deep views of object fields from index `i` on.
pub open spec fn json_view_obj(o: Seq<(String, JsonValue)>, i: int) -> Seq<(Seq<char>, Json)>
    decreases o, 1int, o.len() - i,
    via json_view_obj_decreases
{
    if i < 0 || i >= o.len() {
        Seq::<(Seq<char>, Json)>::empty()
    } else {
        seq![(o[i].0@, json_view(o[i].1))] + json_view_obj(o, i + 1)
    }
}

#[via_fn]
proof fn json_view_decreases(v: JsonValue) {
    match v {
        JsonValue::Array(a) => {
            assert(decreases_to!(v => a));
            assert(decreases_to!(a => a@));
        },
        JsonValue::Object(o) => {
            assert(decreases_to!(v => o));
            assert(decreases_to!(o => o@));
        },
        _ => {},
    }
}

#[via_fn]
proof fn json_view_obj_decreases(o: Seq<(String, JsonValue)>, i: int) {
    if 0 <= i < o.len() {
        assert(decreases_to!(o => o[i]));
        assert(decreases_to!(o[i] => o[i].1));
    }
}

impl DeepView for JsonValue {
    type V = Json;

    open spec fn deep_view(&self) -> Json {
        json_view(*self)
    }
}

/// Element views, one by one: the view of a JSON array is element-wise.
pub proof fn lemma_view_arr(a: Seq<JsonValue>, i: int)
    requires
        0 <= i <= a.len(),
    ensures
        json_view_arr(a, i).len() == a.len() - i,
        forall|j: int|
            0 <= j < a.len() - i ==> json_view_arr(a, i)[j] == json_view(a[i + j]),
    decreases a.len() - i,
{
    if i < a.len() {
        lemma_view_arr(a, i + 1);
    }
}

/// Field views, one by one: the view of a JSON object is field-wise.
pub proof fn lemma_view_obj(o: Seq<(String, JsonValue)>, i: int)
    requires
        0 <= i <= o.len(),
    ensures
        json_view_obj(o, i).len() == o.len() - i,
        forall|j: int|
            0 <= j < o.len() - i ==> json_view_obj(o, i)[j] == (
                o[i + j].0@,
                json_view(o[i + j].1),
            ),
    decreases o.len() - i,
{
    if i < o.len() {
        lemma_view_obj(o, i + 1);
    }
}

/// The deep view of an array value is the deep view of its element vector.
pub broadcast proof fn lemma_array_deep_view(a: Vec<JsonValue>)
    ensures
        json_view_arr(a@, 0) == #[trigger] a.deep_view(),
{
    lemma_view_arr(a@, 0);
    assert(json_view_arr(a@, 0) =~= a.deep_view());
}

/// The deep view of an object value is the deep view of its field vector.
pub broadcast proof fn lemma_object_deep_view(o: Vec<(String, JsonValue)>)
    ensures
        json_view_obj(o@, 0) == #[trigger] o.deep_view(),
{
    lemma_view_obj(o@, 0);
    assert(json_view_obj(o@, 0) =~= o.deep_view());
}

/// The first field of an object with the given name, if any.
pub open spec fn spec_obj_get(o: Seq<(Seq<char>, Json)>, name: Seq<char>) -> Option<Json>
    decreases o.len(),
{
    if o.len() == 0 {
        None
    } else if o[0].0 == name {
        Some(o[0].1)
    } else {
        spec_obj_get(o.skip(1), name)
    }
}

/// `spec_obj_get` reads the first field under a name.
pub proof fn lemma_obj_get_at(o: Seq<(Seq<char>, Json)>, key: Seq<char>, i: int)
    requires
        0 <= i < o.len(),
        o[i].0 == key,
        forall|k: int| 0 <= k < i ==> o[k].0 != key,
    ensures
        spec_obj_get(o, key) == Some(o[i].1),
    decreases i,
{
    if i > 0 {
        lemma_obj_get_at(o.skip(1), key, i - 1);
        assert(o.skip(1)[i - 1] == o[i]);
        assert(forall|k: int| 0 <= k < i - 1 ==> o.skip(1)[k] == o[k + 1]);
    }
}

/// The field of an object value with the given name; `None` on other kinds
/// of values.
pub open spec fn spec_get(v: Json, name: Seq<char>) -> Option<Json> {
    match v {
        Json::Object(o) => spec_obj_get(o, name),
        _ => None,
    }
}

impl JsonValue {
    /// Look up a field of an object by name (first match).
    pub fn get<'a>(&'a self, name: &str) -> (r: Option<&'a JsonValue>)
        ensures
            match r {
                Some(v) => spec_get(self.deep_view(), name@) == Some(v.deep_view()),
                None => spec_get(self.deep_view(), name@) is None,
            },
    {
        match self {
            JsonValue::Object(fields) => {
                proof {
                    lemma_object_deep_view(*fields);
                }
                obj_get(fields, name)
            },
            _ => None,
        }
    }

    /// The string content, for a string value.
    pub fn as_text<'a>(&'a self) -> (r: Option<&'a String>)
        ensures
            match r {
                Some(s) => self.deep_view() == Json::Text(s@),
                None => !(self.deep_view() is Text),
            },
    {
        match self {
            JsonValue::Text(s) => Some(s),
            _ => None,
        }
    }

    /// The elements, for an array value.
    pub fn as_array<'a>(&'a self) -> (r: Option<&'a Vec<JsonValue>>)
        ensures
            match r {
                Some(a) => self.deep_view() == Json::Array(a.deep_view()),
                None => !(self.deep_view() is Array),
            },
    {
        match self {
            JsonValue::Array(a) => {
                proof {
                    lemma_array_deep_view(*a);
                }
                Some(a)
            },
            _ => None,
        }
    }

    /// The fields, for an object value.
    pub fn as_object<'a>(&'a self) -> (r: Option<&'a Vec<(String, JsonValue)>>)
        ensures
            match r {
                Some(o) => self.deep_view() == Json::Object(o.deep_view()),
                None => !(self.deep_view() is Object),
            },
    {
        match self {
            JsonValue::Object(o) => {
                proof {
                    lemma_object_deep_view(*o);
                }
                Some(o)
            },
            _ => None,
        }
    }

    /// Whether the value is an object.
    pub fn is_object(&self) -> (r: bool)
        ensures
            r == (self.deep_view() is Object),
    {
        match self {
            JsonValue::Object(_) => true,
            _ => false,
        }
    }

    /// The boolean content, for a boolean value.
    pub fn as_bool(&self) -> (r: Option<bool>)
        ensures
            match r {
                Some(b) => self.deep_view() == Json::Bool(b),
                None => !(self.deep_view() is Bool),
            },
    {
        match self {
            JsonValue::Bool(b) => Some(*b),
            _ => None,
        }
    }

    /// A structurally equal copy.
    #[verifier::loop_isolation(false)]
    pub fn deep_copy(&self) -> (r: JsonValue)
        ensures
            r.deep_view() == self.deep_view(),
        decreases self,
    {
        match self {
            JsonValue::Null => JsonValue::Null,
            JsonValue::Bool(b) => JsonValue::Bool(*b),
            JsonValue::Number(s) => JsonValue::Number(s.clone()),
            JsonValue::Text(s) => JsonValue::Text(s.clone()),
            JsonValue::Array(a) => {
                let n = a.len();
                let mut out: Vec<JsonValue> = Vec::new();
                let mut i: usize = 0;
                while i < n
                    invariant
                        n == a@.len(),
                        i <= n,
                        out.deep_view() == a.deep_view().subrange(0, i as int),
                    decreases n - i,
                {
                    out.push(a[i].deep_copy());
                    assert(out.deep_view() =~= a.deep_view().subrange(0, i + 1 as int));
                    i += 1;
                }
                assert(a.deep_view().subrange(0, n as int) == a.deep_view());
                proof {
                    lemma_array_deep_view(out);
                    lemma_array_deep_view(*a);
                }
                assert(JsonValue::Array(out).deep_view() =~~= self.deep_view());
                JsonValue::Array(out)
            },
            JsonValue::Object(o) => {
                let n = o.len();
                let mut out: Vec<(String, JsonValue)> = Vec::new();
                let mut i: usize = 0;
                while i < n
                    invariant
                        n == o@.len(),
                        i <= n,
                        out.deep_view() == o.deep_view().subrange(0, i as int),
                    decreases n - i,
                {
                    let key = o[i].0.clone();
                    let val = o[i].1.deep_copy();
                    out.push((key, val));
                    assert(out.deep_view() =~= o.deep_view().subrange(0, i + 1 as int));
                    i += 1;
                }
                assert(o.deep_view().subrange(0, n as int) == o.deep_view());
                proof {
                    lemma_object_deep_view(out);
                    lemma_object_deep_view(*o);
                }
                assert(JsonValue::Object(out).deep_view() =~~= self.deep_view());
                JsonValue::Object(out)
            },
        }
    }
}

/// Look up a field by name in an object's field list (first match).
pub fn obj_get<'a>(fields: &'a Vec<(String, JsonValue)>, name: &str) -> (r: Option<
    &'a JsonValue,
>)
    ensures
        match r {
            Some(v) => spec_obj_get(fields.deep_view(), name@) == Some(v.deep_view()),
            None => spec_obj_get(fields.deep_view(), name@) is None,
        },
{
    let n = fields.len();
    let mut i: usize = 0;
    assert(fields.deep_view().skip(0) =~= fields.deep_view());
    while i < n
        invariant
            n == fields@.len(),
            i <= n,
            spec_obj_get(fields.deep_view(), name@) == spec_obj_get(
                fields.deep_view().skip(i as int),
                name@,
            ),
        decreases n - i,
    {
        if crate::strutil::str_eq(fields[i].0.as_str(), name) {
            proof {
                assert(fields.deep_view().skip(i as int)[0] == fields.deep_view()[i as int]);
            }
            return Some(&fields[i].1);
        }
        proof {
            assert(fields.deep_view().skip(i as int)[0] == fields.deep_view()[i as int]);
            assert(fields.deep_view().skip(i as int).skip(1) =~= fields.deep_view().skip(i + 1));
        }
        i += 1;
    }
    proof {
        assert(fields.deep_view().skip(n as int) =~= Seq::<(Seq<char>, Json)>::empty());
    }
    None
}

/// The escape sequence a character takes inside a JSON string literal.
pub open spec fn escape_char(c: char) -> Seq<char> {
    if c == '"' {
        seq!['\\', '"']
    } else if c == '\\' {
        seq!['\\', '\\']
    } else if c == '\n' {
        seq!['\\', 'n']
    } else if c == '\r' {
        seq!['\\', 'r']
    } else if c == '\t' {
        seq!['\\', 't']
    } else if (c as u32) == 8 {
        seq!['\\', 'b']
    } else if (c as u32) == 12 {
        seq!['\\', 'f']
    } else if (c as u32) < 32 {
        seq!['\\', 'u', '0', '0', hex_digit(((c as u32) / 16) as u8), hex_digit(
            ((c as u32) % 16) as u8,
        )]
    } else {
        seq![c]
    }
}

/// The body of a JSON string literal: every character escaped as needed.
pub open spec fn escape_text(s: Seq<char>) -> Seq<char>
    decreases s.len(),
{
    if s.len() == 0 {
        Seq::<char>::empty()
    } else {
        escape_char(s[0]) + escape_text(s.skip(1))
    }
}

/// The JSON rendering of a value: compact, fields in order, strings
/// escaped.
pub open spec fn json_text(v: Json) -> Seq<char>
    decreases v, 0int, 0int,
{
    match v {
        Json::Null => seq!['n', 'u', 'l', 'l'],
        Json::Bool(b) => if b {
            seq!['t', 'r', 'u', 'e']
        } else {
            seq!['f', 'a', 'l', 's', 'e']
        },
        Json::Number(s) => s,
        Json::Text(s) => seq!['"'] + escape_text(s) + seq!['"'],
        Json::Array(elems) => seq!['['] + arr_text(elems, 0) + seq![']'],
        Json::Object(fields) => seq!['{'] + obj_text(fields, 0) + seq!['}'],
    }
}

/// The comma-joined renderings of array elements from index `i` on.
pub open spec fn arr_text(elems: Seq<Json>, i: int) -> Seq<char>
    decreases elems, 1int, elems.len() - i,
{
    if i < 0 || i >= elems.len() {
        Seq::<char>::empty()
    } else if i == elems.len() - 1 {
        json_text(elems[i])
    } else {
        json_text(elems[i]) + seq![','] + arr_text(elems, i + 1)
    }
}

/// The comma-joined renderings of object fields from index `i` on.
pub open spec fn obj_text(fields: Seq<(Seq<char>, Json)>, i: int) -> Seq<char>
    decreases fields, 1int, fields.len() - i,
{
    if i < 0 || i >= fields.len() {
        Seq::<char>::empty()
    } else {
        let entry = seq!['"'] + escape_text(fields[i].0) + seq!['"', ':'] + json_text(
            fields[i].1,
        );
        if i == fields.len() - 1 {
            entry
        } else {
            entry + seq![','] + obj_text(fields, i + 1)
        }
    }
}

/// Append the escaped body of a JSON string literal.
fn write_escaped(s: &str, out: &mut Vec<char>)
    ensures
        final(out)@ == old(out)@ + escape_text(s@),
{
    let chars = crate::strutil::chars_of(s);
    let n = chars.len();
    let mut i: usize = 0;
    proof {
        assert(s@.subrange(0, 0) =~= Seq::<char>::empty());
        assert(escape_text(Seq::<char>::empty()) == Seq::<char>::empty());
        assert(out@ + Seq::<char>::empty() =~= out@);
        lemma_escape_text_append_empty(s@);
    }
    while i < n
        invariant
            n == s@.len(),
            chars@ == s@,
            i <= n,
            out@ == old(out)@ + escape_text(s@.subrange(0, i as int)),
        decreases n - i,
    {
        let c = chars[i];
        let u = c as u32;
        if c == '"' {
            out.push('\\');
            out.push('"');
        } else if c == '\\' {
            out.push('\\');
            out.push('\\');
        } else if c == '\n' {
            out.push('\\');
            out.push('n');
        } else if c == '\r' {
            out.push('\\');
            out.push('r');
        } else if c == '\t' {
            out.push('\\');
            out.push('t');
        } else if u == 8 {
            out.push('\\');
            out.push('b');
        } else if u == 12 {
            out.push('\\');
            out.push('f');
        } else if u < 32 {
            out.push('\\');
            out.push('u');
            out.push('0');
            out.push('0');
            let hi = (u / 16) as u8;
            let lo = (u % 16) as u8;
            out.push(if hi < 10 {
                (48 + hi) as char
            } else {
                (87 + hi) as char
            });
            out.push(if lo < 10 {
                (48 + lo) as char
            } else {
                (87 + lo) as char
            });
        } else {
            out.push(c);
        }
        proof {
            lemma_escape_text_snoc(s@, i as int);
            assert(out@ =~= old(out)@ + escape_text(s@.subrange(0, i + 1 as int)));
        }
        i += 1;
    }
    proof {
        assert(s@.subrange(0, n as int) =~= s@);
    }
}

proof fn lemma_escape_text_append_empty(s: Seq<char>)
{
}

/// Escaping one more character appends its escape sequence.
proof fn lemma_escape_text_snoc(s: Seq<char>, i: int)
    requires
        0 <= i < s.len(),
    ensures
        escape_text(s.subrange(0, i + 1)) == escape_text(s.subrange(0, i)) + escape_char(s[i]),
    decreases i,
{
    if i == 0 {
        assert(s.subrange(0, 1)[0] == s[0]);
        assert(s.subrange(0, 1).skip(1) =~= Seq::<char>::empty());
        assert(escape_text(s.subrange(0, 1).skip(1)) == Seq::<char>::empty());
        assert(escape_text(s.subrange(0, 1)) == escape_char(s[0]) + escape_text(
            s.subrange(0, 1).skip(1),
        ));
        assert(s.subrange(0, 0).len() == 0);
        assert(escape_text(s.subrange(0, 0)) == Seq::<char>::empty());
        assert(escape_text(s.subrange(0, 1)) =~= escape_text(s.subrange(0, 0)) + escape_char(
            s[0],
        ));
    } else {
        lemma_escape_text_snoc(s.skip(1), i - 1);
        assert(s.skip(1).subrange(0, i) =~= s.subrange(0, i + 1).skip(1));
        assert(s.skip(1).subrange(0, i - 1) =~= s.subrange(0, i).skip(1));
        assert(s.skip(1)[i - 1] == s[i]);
        assert(s.subrange(0, i + 1)[0] == s[0]);
        assert(s.subrange(0, i)[0] == s[0]);
        assert(escape_text(s.subrange(0, i + 1)) =~= escape_text(s.subrange(0, i)) + escape_char(
            s[i],
        ));
    }
}

/// Append the JSON rendering of a value.
#[verifier::loop_isolation(false)]
pub fn write_json(v: &JsonValue, out: &mut Vec<char>)
    ensures
        final(out)@ == old(out)@ + json_text(v.deep_view()),
    decreases v, 0int,
{
    match v {
        JsonValue::Null => {
            out.push('n');
            out.push('u');
            out.push('l');
            out.push('l');
            assert(out@ =~= old(out)@ + json_text(v.deep_view()));
        },
        JsonValue::Bool(b) => {
            if *b {
                out.push('t');
                out.push('r');
                out.push('u');
                out.push('e');
            } else {
                out.push('f');
                out.push('a');
                out.push('l');
                out.push('s');
                out.push('e');
            }
            assert(out@ =~= old(out)@ + json_text(v.deep_view()));
        },
        JsonValue::Number(s) => {
            let chars = crate::strutil::chars_of(s.as_str());
            let n = chars.len();
            let mut i: usize = 0;
            while i < n
                invariant
                    n == chars@.len(),
                    chars@ == s@,
                    i <= n,
                    out@ == old(out)@ + s@.subrange(0, i as int),
                decreases n - i,
            {
                out.push(chars[i]);
                assert(out@ =~= old(out)@ + s@.subrange(0, i + 1 as int));
                i += 1;
            }
            assert(s@.subrange(0, n as int) =~= s@);
        },
        JsonValue::Text(s) => {
            out.push('"');
            write_escaped(s.as_str(), out);
            out.push('"');
            assert(out@ =~= old(out)@ + json_text(v.deep_view()));
        },
        JsonValue::Array(elems) => {
            out.push('[');
            write_json_arr(elems, out);
            out.push(']');
            proof {
                lemma_array_deep_view(*elems);
                assert(out@ =~= old(out)@ + json_text(v.deep_view()));
            }
        },
        JsonValue::Object(fields) => {
            out.push('{');
            write_json_obj(fields, out);
            out.push('}');
            proof {
                lemma_object_deep_view(*fields);
                assert(out@ =~= old(out)@ + json_text(v.deep_view()));
            }
        },
    }
}

/// Append the comma-joined renderings of array elements.
#[verifier::loop_isolation(false)]
fn write_json_arr(elems: &Vec<JsonValue>, out: &mut Vec<char>)
    ensures
        final(out)@ == old(out)@ + arr_text(elems.deep_view(), 0),
    decreases elems@, 1int,
{
    let n = elems.len();
    let mut i: usize = 0;
    if n == 0 {
        assert(out@ =~= old(out)@ + arr_text(elems.deep_view(), 0));
        return ;
    }
    while i < n
        invariant
            n == elems@.len(),
            0 < n,
            i <= n,
            i == 0 ==> out@ == old(out)@,
            0 < i < n ==> out@ == old(out)@ + arr_text_prefix(elems.deep_view(), i as int)
                + seq![','],
            0 < i == n ==> out@ == old(out)@ + arr_text_prefix(elems.deep_view(), i as int),
        decreases n - i,
    {
        write_json(&elems[i], out);
        proof {
            lemma_arr_text_prefix_snoc(elems.deep_view(), i as int);
            assert(elems.deep_view()[i as int] == elems@[i as int].deep_view());
        }
        if i + 1 < n {
            out.push(',');
        }
        proof {
            if i == 0 {
                assert(arr_text_prefix(elems.deep_view(), 1) =~= json_text(elems.deep_view()[0]));
            }
            if i + 1 < n {
                assert(out@ =~= old(out)@ + arr_text_prefix(elems.deep_view(), i + 1) + seq![',']);
            } else {
                assert(out@ =~= old(out)@ + arr_text_prefix(elems.deep_view(), i + 1));
            }
        }
        i += 1;
    }
    proof {
        lemma_arr_text_prefix_full(elems.deep_view());
    }
}

/// Append the comma-joined renderings of object fields.
#[verifier::loop_isolation(false)]
fn write_json_obj(fields: &Vec<(String, JsonValue)>, out: &mut Vec<char>)
    ensures
        final(out)@ == old(out)@ + obj_text(fields.deep_view(), 0),
    decreases fields@, 1int,
{
    let n = fields.len();
    let mut i: usize = 0;
    if n == 0 {
        assert(out@ =~= old(out)@ + obj_text(fields.deep_view(), 0));
        return ;
    }
    while i < n
        invariant
            n == fields@.len(),
            0 < n,
            i <= n,
            i == 0 ==> out@ == old(out)@,
            0 < i < n ==> out@ == old(out)@ + obj_text_prefix(fields.deep_view(), i as int)
                + seq![','],
            0 < i == n ==> out@ == old(out)@ + obj_text_prefix(fields.deep_view(), i as int),
        decreases n - i,
    {
        out.push('"');
        write_escaped(fields[i].0.as_str(), out);
        out.push('"');
        out.push(':');
        proof {
            vstd::std_specs::vec::axiom_vec_index_decreases(*fields, i as int);
        }
        write_json(&fields[i].1, out);
        proof {
            lemma_obj_text_prefix_snoc(fields.deep_view(), i as int);
            assert(fields.deep_view()[i as int].0 == fields@[i as int].0@);
            assert(fields.deep_view()[i as int].1 == fields@[i as int].1.deep_view());
        }
        if i + 1 < n {
            out.push(',');
        }
        proof {
            if i == 0 {
                assert(obj_text_prefix(fields.deep_view(), 1) =~= seq!['"'] + escape_text(
                    fields.deep_view()[0].0,
                ) + seq!['"', ':'] + json_text(fields.deep_view()[0].1));
            }
            if i + 1 < n {
                assert(out@ =~= old(out)@ + obj_text_prefix(fields.deep_view(), i + 1)
                    + seq![',']);
            } else {
                assert(out@ =~= old(out)@ + obj_text_prefix(fields.deep_view(), i + 1));
            }
        }
        i += 1;
    }
    proof {
        lemma_obj_text_prefix_full(fields.deep_view());
    }
}

/// The comma-joined renderings of the first `i` array elements.
pub open spec fn arr_text_prefix(elems: Seq<Json>, i: int) -> Seq<char>
    decreases i,
{
    if i <= 0 || i > elems.len() {
        Seq::<char>::empty()
    } else if i == 1 {
        json_text(elems[0])
    } else {
        arr_text_prefix(elems, i - 1) + seq![','] + json_text(elems[i - 1])
    }
}

/// The comma-joined renderings of the first `i` object fields.
pub open spec fn obj_text_prefix(fields: Seq<(Seq<char>, Json)>, i: int) -> Seq<char>
    decreases i,
{
    if i <= 0 || i > fields.len() {
        Seq::<char>::empty()
    } else {
        let entry = seq!['"'] + escape_text(fields[i - 1].0) + seq!['"', ':'] + json_text(
            fields[i - 1].1,
        );
        if i == 1 {
            entry
        } else {
            obj_text_prefix(fields, i - 1) + seq![','] + entry
        }
    }
}

proof fn lemma_arr_text_prefix_snoc(elems: Seq<Json>, i: int)
    requires
        0 <= i < elems.len(),
    ensures
        i == 0 ==> arr_text_prefix(elems, 1) == json_text(elems[0]),
        i > 0 ==> arr_text_prefix(elems, i + 1) == arr_text_prefix(elems, i) + seq![',']
            + json_text(elems[i]),
{
}

/// The full prefix equals the suffix rendering from zero.
proof fn lemma_arr_text_suffix_prefix(elems: Seq<Json>, i: int)
    requires
        0 <= i < elems.len(),
    ensures
        arr_text(elems, i) == if i == elems.len() - 1 {
            json_text(elems[i])
        } else {
            json_text(elems[i]) + seq![','] + arr_text(elems, i + 1)
        },
{
}

proof fn lemma_arr_text_prefix_full(elems: Seq<Json>)
    requires
        elems.len() > 0,
    ensures
        arr_text_prefix(elems, elems.len() as int) == arr_text(elems, 0),
{
    lemma_arr_text_glue(elems, elems.len() as int);
}

/// Splicing: prefix up to `i` followed by suffix from `i` is the whole.
proof fn lemma_arr_text_glue(elems: Seq<Json>, i: int)
    requires
        1 <= i <= elems.len(),
    ensures
        i < elems.len() ==> arr_text(elems, 0) == arr_text_prefix(elems, i) + seq![',']
            + arr_text(elems, i),
        i == elems.len() ==> arr_text(elems, 0) == arr_text_prefix(elems, i),
    decreases i,
{
    if i == 1 {
        assert(arr_text(elems, 0) =~= if 1 < elems.len() {
            json_text(elems[0]) + seq![','] + arr_text(elems, 1)
        } else {
            json_text(elems[0])
        });
    } else {
        lemma_arr_text_glue(elems, i - 1);
        assert(arr_text(elems, i - 1) =~= if i < elems.len() {
            json_text(elems[i - 1]) + seq![','] + arr_text(elems, i)
        } else {
            json_text(elems[i - 1])
        });
        if i < elems.len() {
            assert(arr_text(elems, 0) =~= arr_text_prefix(elems, i) + seq![','] + arr_text(
                elems,
                i,
            ));
        } else {
            assert(arr_text(elems, 0) =~= arr_text_prefix(elems, i));
        }
    }
}

proof fn lemma_obj_text_prefix_snoc(fields: Seq<(Seq<char>, Json)>, i: int)
    requires
        0 <= i < fields.len(),
    ensures
        i == 0 ==> obj_text_prefix(fields, 1) == seq!['"'] + escape_text(fields[0].0) + seq![
            '"',
            ':',
        ] + json_text(fields[0].1),
        i > 0 ==> obj_text_prefix(fields, i + 1) == obj_text_prefix(fields, i) + seq![','] + (
        seq!['"'] + escape_text(fields[i].0) + seq!['"', ':'] + json_text(fields[i].1)),
{
}

proof fn lemma_obj_text_prefix_full(fields: Seq<(Seq<char>, Json)>)
    requires
        fields.len() > 0,
    ensures
        obj_text_prefix(fields, fields.len() as int) == obj_text(fields, 0),
{
    lemma_obj_text_glue(fields, fields.len() as int);
}

proof fn lemma_obj_text_glue(fields: Seq<(Seq<char>, Json)>, i: int)
    requires
        1 <= i <= fields.len(),
    ensures
        i < fields.len() ==> obj_text(fields, 0) == obj_text_prefix(fields, i) + seq![',']
            + obj_text(fields, i),
        i == fields.len() ==> obj_text(fields, 0) == obj_text_prefix(fields, i),
    decreases i,
{
    if i == 1 {
        assert(obj_text(fields, 0) =~= if 1 < fields.len() {
            (seq!['"'] + escape_text(fields[0].0) + seq!['"', ':'] + json_text(fields[0].1))
                + seq![','] + obj_text(fields, 1)
        } else {
            seq!['"'] + escape_text(fields[0].0) + seq!['"', ':'] + json_text(fields[0].1)
        });
    } else {
        lemma_obj_text_glue(fields, i - 1);
        assert(obj_text(fields, i - 1) =~= if i < fields.len() {
            (seq!['"'] + escape_text(fields[i - 1].0) + seq!['"', ':'] + json_text(
                fields[i - 1].1,
            )) + seq![','] + obj_text(fields, i)
        } else {
            seq!['"'] + escape_text(fields[i - 1].0) + seq!['"', ':'] + json_text(fields[i - 1].1)
        });
        if i < fields.len() {
            assert(obj_text(fields, 0) =~= obj_text_prefix(fields, i) + seq![','] + obj_text(
                fields,
                i,
            ));
        } else {
            assert(obj_text(fields, 0) =~= obj_text_prefix(fields, i));
        }
    }
}

/// Render a value as compact JSON text.
pub fn to_json_string(v: &JsonValue) -> (r: String)
    ensures
        r@ == json_text(v.deep_view()),
{
    let mut out: Vec<char> = Vec::new();
    write_json(v, &mut out);
    string_of(&out)
}


/// An object's fields with `key` set to `value`: replaced in place where
/// present (first occurrence), appended otherwise.
pub open spec fn spec_obj_set(
    o: Seq<(Seq<char>, Json)>,
    key: Seq<char>,
    value: Json,
) -> Seq<(Seq<char>, Json)>
    decreases o.len(),
{
    if o.len() == 0 {
        seq![(key, value)]
    } else if o[0].0 == key {
        seq![(key, value)] + o.skip(1)
    } else {
        seq![o[0]] + spec_obj_set(o.skip(1), key, value)
    }
}

/// Set a field of an object's field list: replace the first occurrence in
/// place, or append.
#[verifier::loop_isolation(false)]
pub fn obj_set(fields: &mut Vec<(String, JsonValue)>, key: String, value: JsonValue)
    ensures
        final(fields).deep_view() == spec_obj_set(old(fields).deep_view(), key@, json_view(value)),
{
    let n = fields.len();
    let mut i: usize = 0;
    let ghost dv = fields.deep_view();
    while i < n
        invariant
            i <= n,
            n == fields@.len(),
            fields.deep_view() == dv,
            forall|k: int| 0 <= k < i ==> dv[k].0 != key@,
        decreases n - i,
    {
        if crate::strutil::str_eq(fields[i].0.as_str(), key.as_str()) {
            let _old = fields.remove(i);
            fields.insert(i, (key, value));
            proof {
                lemma_obj_set_at(dv, key@, json_view(value), i as int);
                assert(fields.deep_view() =~= dv.update(
                    i as int,
                    (key@, json_view(value)),
                ));
            }
            return ;
        }
        i += 1;
    }
    fields.push((key, value));
    proof {
        lemma_obj_set_append(dv, key@, json_view(value));
        assert(fields.deep_view() =~= dv.push((key@, json_view(value))));
    }
}

proof fn lemma_obj_set_at(o: Seq<(Seq<char>, Json)>, key: Seq<char>, value: Json, i: int)
    requires
        0 <= i < o.len(),
        o[i].0 == key,
        forall|k: int| 0 <= k < i ==> o[k].0 != key,
    ensures
        spec_obj_set(o, key, value) == o.update(i, (key, value)),
    decreases i,
{
    if i == 0 {
        assert(spec_obj_set(o, key, value) =~= o.update(0, (key, value)));
    } else {
        lemma_obj_set_at(o.skip(1), key, value, i - 1);
        assert(forall|k: int| 0 <= k < i - 1 ==> o.skip(1)[k].0 != key);
        assert(o.skip(1)[i - 1] == o[i]);
        assert(o.skip(1).update(i - 1, (key, value)) =~= o.update(i, (key, value)).skip(1));
        assert(spec_obj_set(o, key, value) =~= o.update(i, (key, value)));
    }
}

proof fn lemma_obj_set_append(o: Seq<(Seq<char>, Json)>, key: Seq<char>, value: Json)
    requires
        forall|k: int| 0 <= k < o.len() ==> o[k].0 != key,
    ensures
        spec_obj_set(o, key, value) == o.push((key, value)),
    decreases o.len(),
{
    if o.len() == 0 {
        assert(spec_obj_set(o, key, value) =~= o.push((key, value)));
    } else {
        lemma_obj_set_append(o.skip(1), key, value);
        assert(o.skip(1).push((key, value)) =~= o.push((key, value)).skip(1));
        assert(spec_obj_set(o, key, value) =~= o.push((key, value)));
    }
}

/// Whether an object's field list holds a key.
pub open spec fn spec_has_key(o: Seq<(Seq<char>, Json)>, key: Seq<char>) -> bool {
    spec_obj_get(o, key) is Some
}

/// Whether a field list holds a key.
pub fn has_key(fields: &Vec<(String, JsonValue)>, key: &str) -> (r: bool)
    ensures
        r == spec_has_key(fields.deep_view(), key@),
{
    obj_get(fields, key).is_some()
}

} // verus!
