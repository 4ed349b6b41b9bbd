//! OpenAPI 3.x document parsing.
//!
//! A document arrives as text, JSON or YAML (auto-detected by its first
//! non-blank character). Before parsing, any line that sets a numeric
//! schema bound (`minimum`, `maximum`, `exclusiveMinimum`,
//! `exclusiveMaximum`) to an integer of sixteen or more digits has that
//! integer replaced by the 32-bit extreme of its sign: published documents
//! carry bounds that overflow what a JSON number can hold, and the precise
//! value is immaterial to the schema's meaning. The parsed value model is
//! then converted into a [`ParsedSpec`], rejecting any document whose
//! `openapi` field does not begin with `3.`.

use vstd::prelude::*;
use crate::errors::ParseError;
use crate::extract::{OperationExtractor, extract_post, texts_post, sec_post, opt_text_post,
    doc_global_security, spec_text_or_empty};
use crate::json::{Json, JsonValue, spec_get};
use crate::jsontext::{parse_json, parse_yaml, json_value_of, yaml_value_of};
use crate::namespace::joined;
use crate::optypes::{
    ApiKeyLocation, OAuth2Flow, OAuth2Flows, ParsedSpec, SecurityScheme, ServerInfo,
};
use crate::strutil::{
    chars_of, string_of, find_char, subrange_chars, split_chars, spec_is_digit, is_digit,
    lemma_split_no_sep, lemma_split_glue, str_eq,
};

verus! {

/// Whether the characters of `w` stand at position `i` of `line`.
pub open spec fn word_at(line: Seq<char>, i: int, w: Seq<char>) -> bool {
    0 <= i && i + w.len() <= line.len() && line.subrange(i, i + w.len()) == w
}

/// The first index at or after `i` that is not a space or tab.
pub open spec fn ws_end(line: Seq<char>, i: int) -> int
    decreases line.len() - i,
{
    if i < 0 || i >= line.len() {
        line.len() as int
    } else if line[i] == ' ' || line[i] == '\t' {
        ws_end(line, i + 1)
    } else {
        i
    }
}

/// The length of the bound keyword standing at position `i`, or -1.
pub open spec fn keyword_len(line: Seq<char>, i: int) -> int {
    if word_at(line, i, "exclusiveMinimum"@) || word_at(line, i, "exclusiveMaximum"@) {
        16
    } else if word_at(line, i, "minimum"@) || word_at(line, i, "maximum"@) {
        7
    } else {
        -1
    }
}

/// Where the oversized numeric token of a bound line starts, if the line is
/// one: optional blanks, a bound keyword, `:`, optional blanks, an optional
/// sign, and sixteen or more digits running to the end of the line.
pub open spec fn line_match(line: Seq<char>) -> Option<int> {
    let i = ws_end(line, 0);
    let kw = keyword_len(line, i);
    if kw < 0 {
        None
    } else if !(i + kw < line.len() && line[i + kw] == ':') {
        None
    } else {
        let k = ws_end(line, i + kw + 1);
        let t = if k < line.len() && line[k] == '-' {
            k + 1
        } else {
            k
        };
        if line.len() - t >= 16 && (forall|d: int| t <= d < line.len() ==> spec_is_digit(line[d]))
         {
            Some(k)
        } else {
            None
        }
    }
}

/// A bound line with its oversized token replaced by the 32-bit extreme of
/// its sign; other lines unchanged.
pub open spec fn sanitize_line(line: Seq<char>) -> Seq<char> {
    match line_match(line) {
        Some(k) => line.subrange(0, k) + (if line[k] == '-' {
            "-2147483648"@
        } else {
            "2147483647"@
        }),
        None => line,
    }
}

/// The whole text sanitized, line by line.
pub open spec fn spec_sanitize(s: Seq<char>) -> Seq<char> {
    joined(split_chars(s, '\n').map_values(|l: Seq<char>| sanitize_line(l)), '\n')
}

/// The sanitized text of the lines before the current one, each followed by
/// its newline.
pub open spec fn emitted(lines: Seq<Seq<char>>) -> Seq<char>
    decreases lines.len(),
{
    if lines.len() == 0 {
        Seq::<char>::empty()
    } else {
        sanitize_line(lines[0]) + seq!['\n'] + emitted(lines.skip(1))
    }
}

proof fn lemma_emitted_joined(lines: Seq<Seq<char>>, last: Seq<char>)
    ensures
        joined((lines + seq![last]).map_values(|l: Seq<char>| sanitize_line(l)), '\n') == emitted(
            lines,
        ) + sanitize_line(last),
    decreases lines.len(),
{
    let f = |l: Seq<char>| sanitize_line(l);
    if lines.len() == 0 {
        assert((lines + seq![last]).map_values(f) =~= seq![sanitize_line(last)]);
        assert(emitted(lines) + sanitize_line(last) =~= sanitize_line(last));
    } else {
        lemma_emitted_joined(lines.skip(1), last);
        let all = lines + seq![last];
        assert(all.map_values(f).len() >= 2);
        assert(all.map_values(f)[0] == sanitize_line(lines[0]));
        assert(all.map_values(f).skip(1) =~= (lines.skip(1) + seq![last]).map_values(f));
        assert(joined(all.map_values(f), '\n') == all.map_values(f)[0] + seq!['\n'] + joined(
            all.map_values(f).skip(1),
            '\n',
        ));
        assert(joined(all.map_values(f), '\n') =~= emitted(lines) + sanitize_line(last));
    }
}

/// Find where the oversized numeric token of a bound line starts, if
/// anywhere.
#[verifier::loop_isolation(false)]
fn line_match_exec(line: &Vec<char>) -> (r: Option<usize>)
    ensures
        match r {
            Some(k) => line_match(line@) == Some(k as int),
            None => line_match(line@) is None,
        },
{
    let n = line.len();
    let mut i: usize = 0;
    while i < n && (line[i] == ' ' || line[i] == '\t')
        invariant
            i <= n,
            n == line@.len(),
            ws_end(line@, 0) == ws_end(line@, i as int),
        decreases n - i,
    {
        i += 1;
    }
    proof {
        assert(ws_end(line@, i as int) == i as int);
    }
    let kw: usize = {
        let w16a = chars_of("exclusiveMinimum");
        let w16b = chars_of("exclusiveMaximum");
        let w7a = chars_of("minimum");
        let w7b = chars_of("maximum");
        proof {
            reveal_strlit("exclusiveMinimum");
            reveal_strlit("exclusiveMaximum");
            reveal_strlit("minimum");
            reveal_strlit("maximum");
        }
        if word_at_exec(line, i, &w16a) || word_at_exec(line, i, &w16b) {
            16
        } else if word_at_exec(line, i, &w7a) || word_at_exec(line, i, &w7b) {
            7
        } else {
            return None;
        }
    };
    if !(i + kw < n && line[i + kw] == ':') {
        return None;
    }
    let mut k: usize = i + kw + 1;
    while k < n && (line[k] == ' ' || line[k] == '\t')
        invariant
            i + kw + 1 <= k <= n,
            n == line@.len(),
            ws_end(line@, i + kw + 1) == ws_end(line@, k as int),
        decreases n - k,
    {
        k += 1;
    }
    proof {
        assert(ws_end(line@, i + kw + 1) == k as int);
    }
    let t: usize = if k < n && line[k] == '-' {
        k + 1
    } else {
        k
    };
    if n - t < 16 {
        proof {
            if line_match(line@) is Some {
                assert(line@.len() - t >= 16);
            }
        }
        return None;
    }
    let mut d: usize = t;
    while d < n
        invariant
            t <= d <= n,
            n == line@.len(),
            forall|b: int| t <= b < d ==> spec_is_digit(line@[b]),
        decreases n - d,
    {
        if !is_digit(line[d]) {
            proof {
                assert(!spec_is_digit(line@[d as int]));
                assert(line_match(line@) is None);
            }
            return None;
        }
        d += 1;
    }
    Some(k)
}

/// Whether the characters of `w` stand at position `i` of `line`.
#[verifier::loop_isolation(false)]
fn word_at_exec(line: &Vec<char>, i: usize, w: &Vec<char>) -> (r: bool)
    ensures
        r == word_at(line@, i as int, w@),
{
    let n = line.len();
    let m = w.len();
    if i > n || m > n - i {
        return false;
    }
    let mut j: usize = 0;
    while j < m
        invariant
            i + m <= n,
            n == line@.len(),
            m == w@.len(),
            j <= m,
            forall|b: int| 0 <= b < j ==> line@[i + b] == #[trigger] w@[b],
        decreases m - j,
    {
        if line[i + j] != w[j] {
            proof {
                assert(line@.subrange(i as int, i + w@.len())[j as int] == line@[i + j]);
            }
            return false;
        }
        j += 1;
    }
    proof {
        assert(line@.subrange(i as int, i + w@.len()) =~= w@);
    }
    true
}

/// Sanitize one line.
fn sanitize_line_exec(line: &Vec<char>) -> (r: Vec<char>)
    ensures
        r@ == sanitize_line(line@),
{
    match line_match_exec(line) {
        Some(k) => {
            let mut out = subrange_chars(line, 0, k);
            let repl = if line[k] == '-' {
                chars_of("-2147483648")
            } else {
                chars_of("2147483647")
            };
            proof {
                reveal_strlit("-2147483648");
                reveal_strlit("2147483647");
            }
            let mut repl2 = repl;
            out.append(&mut repl2);
            out
        },
        None => subrange_chars(line, 0, line.len()),
    }
}

/// OpenAPI 3.x parser.
pub struct OpenApiParser;

impl OpenApiParser {
    /// Rewrite oversized numeric bounds before parsing.
    #[verifier::loop_isolation(false)]
    pub fn sanitize_large_numbers(content: &str) -> (r: String)
        ensures
            r@ == spec_sanitize(content@),
    {
        let cs = chars_of(content);
        let n = cs.len();
        let mut out: Vec<char> = Vec::new();
        let mut pos: usize = 0;
        let ghost mut done: Seq<Seq<char>> = Seq::empty();
        proof {
            assert(cs@.skip(0) =~= cs@);
            assert(split_chars(content@, '\n') =~= done + split_chars(content@.skip(0), '\n'));
            assert(out@ =~= emitted(done));
        }
        loop
            invariant
                pos <= n,
                n == content@.len(),
                cs@ == content@,
                split_chars(content@, '\n') == done + split_chars(content@.skip(pos as int), '\n'),
                out@ == emitted(done),
            decreases n - pos,
        {
            match find_char(&cs, pos, '\n') {
                Some(j) => {
                    let line = subrange_chars(&cs, pos, j);
                    let mut san = sanitize_line_exec(&line);
                    out.append(&mut san);
                    out.push('\n');
                    proof {
                        assert(content@.skip(pos as int) =~= line@ + seq!['\n'] + content@.skip(
                            j + 1,
                        ));
                        lemma_split_glue(line@, content@.skip(j + 1), '\n');
                        let done0 = done;
                        done = done.push(line@);
                        lemma_emitted_push(done0, line@);
                        assert(split_chars(content@, '\n') =~= done + split_chars(
                            content@.skip(j + 1),
                            '\n',
                        ));
                        assert(out@ =~= emitted(done));
                    }
                    pos = j + 1;
                },
                None => {
                    let line = subrange_chars(&cs, pos, n);
                    let mut san = sanitize_line_exec(&line);
                    out.append(&mut san);
                    proof {
                        assert(content@.skip(pos as int) =~= line@);
                        lemma_split_no_sep(line@, '\n');
                        assert(split_chars(content@, '\n') =~= done + seq![line@]);
                        lemma_emitted_joined(done, line@);
                        assert((done + seq![line@]).map_values(
                            |l: Seq<char>| sanitize_line(l),
                        ) =~= split_chars(content@, '\n').map_values(
                            |l: Seq<char>| sanitize_line(l),
                        ));
                        assert(out@ =~= spec_sanitize(content@));
                    }
                    return string_of(&out);
                },
            }
        }
    }
}

proof fn lemma_emitted_push(lines: Seq<Seq<char>>, line: Seq<char>)
    ensures
        emitted(lines.push(line)) == emitted(lines) + sanitize_line(line) + seq!['\n'],
    decreases lines.len(),
{
    if lines.len() == 0 {
        assert(lines.push(line)[0] == line);
        assert(lines.push(line).skip(1) =~= Seq::<Seq<char>>::empty());
        assert(emitted(lines.push(line).skip(1)) == Seq::<char>::empty());
        assert(emitted(lines.push(line)) == sanitize_line(line) + seq!['\n'] + emitted(
            lines.push(line).skip(1),
        ));
        assert(emitted(lines) == Seq::<char>::empty());
        assert(emitted(lines.push(line)) =~= emitted(lines) + sanitize_line(line) + seq!['\n']);
    } else {
        lemma_emitted_push(lines.skip(1), line);
        assert(lines.push(line)[0] == lines[0]);
        assert(lines.push(line).skip(1) =~= lines.skip(1).push(line));
        assert(emitted(lines.push(line)) == sanitize_line(lines[0]) + seq!['\n'] + emitted(
            lines.skip(1).push(line),
        ));
        assert(emitted(lines.push(line)) =~= emitted(lines) + sanitize_line(line) + seq!['\n']);
    }
}


/// Whether a character is one of the blanks the format detection skips.
pub open spec fn spec_is_blank(c: char) -> bool {
    c == ' ' || c == '\t' || c == '\n' || c == '\r'
}

/// The first index at or after `i` that is not a blank.
pub open spec fn blanks_end(s: Seq<char>, i: int) -> int
    decreases s.len() - i,
{
    if i < 0 || i >= s.len() {
        s.len() as int
    } else if spec_is_blank(s[i]) {
        blanks_end(s, i + 1)
    } else {
        i
    }
}

/// Whether text is detected as JSON: its first non-blank character is `{`.
pub open spec fn detects_json(s: Seq<char>) -> bool {
    blanks_end(s, 0) < s.len() && s[blanks_end(s, 0)] == '{'
}

/// What a document text parses to: the text is sanitized, then read as
/// JSON where its first non-blank character is `{`, as YAML otherwise.
pub open spec fn spec_parse_doc(content: Seq<char>) -> Option<Json> {
    let s = spec_sanitize(content);
    if detects_json(s) {
        json_value_of(s)
    } else {
        yaml_value_of(s)
    }
}

/// Whether a document's `openapi` field names a supported version.
pub open spec fn doc_version_ok(doc: Json) -> bool {
    match spec_get(doc, "openapi"@) {
        Some(Json::Text(v)) => v.len() >= 2 && v.subrange(0, 2) == "3."@,
        _ => false,
    }
}

/// The `type` word of a security scheme object, or empty.
pub open spec fn scheme_type(v: Json) -> Seq<char> {
    spec_text_or_empty(spec_get(v, "type"@))
}

/// The API key location an `in` field names; `header` where absent or
/// unknown.
pub open spec fn spec_key_location(v: Json) -> ApiKeyLocation {
    match spec_get(v, "in"@) {
        Some(Json::Text(t)) => if t == "query"@ {
            ApiKeyLocation::Query
        } else if t == "cookie"@ {
            ApiKeyLocation::Cookie
        } else {
            ApiKeyLocation::Header
        },
        _ => ApiKeyLocation::Header,
    }
}

/// `out` holds exactly the string-valued entries of a scopes object, in
/// order.
pub open spec fn pairs_post(fields: Seq<(Seq<char>, Json)>, out: Seq<(Seq<char>, Seq<char>)>) -> bool
    decreases fields.len(),
{
    if fields.len() == 0 {
        out.len() == 0
    } else {
        match fields[0].1 {
            Json::Text(t) => out.len() > 0 && out[0] == (fields[0].0, t) && pairs_post(
                fields.skip(1),
                out.skip(1),
            ),
            _ => pairs_post(fields.skip(1), out),
        }
    }
}

/// How one converted OAuth2 flow relates to its object.
pub open spec fn flow_post(v: Json, f: OAuth2Flow) -> bool {
    &&& opt_text_post(spec_get(v, "authorizationUrl"@), f.authorization_url)
    &&& opt_text_post(spec_get(v, "tokenUrl"@), f.token_url)
    &&& opt_text_post(spec_get(v, "refreshUrl"@), f.refresh_url)
    &&& (match spec_get(v, "scopes"@) {
        Some(Json::Object(sc)) => pairs_post(sc, f.scopes.deep_view()),
        _ => f.scopes@.len() == 0,
    })
}

/// How the converted flows relate to a scheme's `flows` field.
pub open spec fn flows_post(o: Option<Json>, fl: OAuth2Flows) -> bool {
    match o {
        Some(fv) => {
            &&& (match spec_get(fv, "authorizationCode"@) {
                Some(x) => fl.authorization_code matches Some(f) && flow_post(x, f),
                None => fl.authorization_code is None,
            })
            &&& (match spec_get(fv, "implicit"@) {
                Some(x) => fl.implicit matches Some(f) && flow_post(x, f),
                None => fl.implicit is None,
            })
            &&& (match spec_get(fv, "password"@) {
                Some(x) => fl.password matches Some(f) && flow_post(x, f),
                None => fl.password is None,
            })
            &&& (match spec_get(fv, "clientCredentials"@) {
                Some(x) => fl.client_credentials matches Some(f) && flow_post(x, f),
                None => fl.client_credentials is None,
            })
        },
        None => fl.authorization_code is None && fl.implicit is None && fl.password is None
            && fl.client_credentials is None,
    }
}

/// Whether a security scheme object's type is one the conversion keeps.
pub open spec fn scheme_keeps(v: Json) -> bool {
    scheme_type(v) == "apiKey"@ || scheme_type(v) == "http"@ || scheme_type(v) == "oauth2"@
        || scheme_type(v) == "openIdConnect"@
}

/// How one converted security scheme relates to its object.
pub open spec fn scheme_post(v: Json, s: SecurityScheme) -> bool {
    if scheme_type(v) == "apiKey"@ {
        s matches SecurityScheme::ApiKey { name, location } && name@ == spec_text_or_empty(
            spec_get(v, "name"@),
        ) && location == spec_key_location(v)
    } else if scheme_type(v) == "http"@ {
        s matches SecurityScheme::Http { scheme, bearer_format } && scheme@ == (match spec_get(
            v,
            "scheme"@,
        ) {
            Some(Json::Text(t)) => t,
            _ => "bearer"@,
        }) && opt_text_post(spec_get(v, "bearerFormat"@), bearer_format)
    } else if scheme_type(v) == "oauth2"@ {
        s matches SecurityScheme::OAuth2 { flows } && flows_post(spec_get(v, "flows"@), flows)
    } else if scheme_type(v) == "openIdConnect"@ {
        s matches SecurityScheme::OpenIdConnect { openid_connect_url } && openid_connect_url@
            == spec_text_or_empty(spec_get(v, "openIdConnectUrl"@))
    } else {
        false
    }
}

/// `out` holds the conversions of the kept security schemes, keyed and in
/// order.
pub open spec fn schemes_post(
    fields: Seq<(Seq<char>, Json)>,
    out: Seq<(String, SecurityScheme)>,
) -> bool
    decreases fields.len(),
{
    if fields.len() == 0 {
        out.len() == 0
    } else {
        if scheme_keeps(fields[0].1) {
            out.len() > 0 && out[0].0@ == fields[0].0 && scheme_post(fields[0].1, out[0].1)
                && schemes_post(fields.skip(1), out.skip(1))
        } else {
            schemes_post(fields.skip(1), out)
        }
    }
}

/// How the converted servers relate to the document's servers array.
pub open spec fn servers_post(arr: Seq<Json>, out: Seq<ServerInfo>) -> bool {
    &&& out.len() == arr.len()
    &&& forall|k: int|
        0 <= k < arr.len() ==> (#[trigger] out[k]).url@ == spec_text_or_empty(
            spec_get(arr[k], "url"@),
        ) && opt_text_post(spec_get(arr[k], "description"@), out[k].description)
}

/// How a converted document relates to its value model.
pub open spec fn convert_post(doc: Json, sp: ParsedSpec) -> bool {
    &&& doc_version_ok(doc)
    &&& sp.title@ == (match spec_get(doc, "info"@) {
        Some(info) => spec_text_or_empty(spec_get(info, "title"@)),
        None => Seq::<char>::empty(),
    })
    &&& sp.version@ == (match spec_get(doc, "info"@) {
        Some(info) => spec_text_or_empty(spec_get(info, "version"@)),
        None => Seq::<char>::empty(),
    })
    &&& (match spec_get(doc, "info"@) {
        Some(info) => opt_text_post(spec_get(info, "description"@), sp.description),
        None => sp.description is None,
    })
    &&& (match spec_get(doc, "servers"@) {
        Some(Json::Array(ss)) => servers_post(ss, sp.servers@),
        _ => sp.servers@.len() == 0,
    })
    &&& extract_post(doc, sp.operations@)
    &&& (match spec_get(doc, "components"@) {
        Some(c) => match spec_get(c, "securitySchemes"@) {
            Some(Json::Object(ss)) => schemes_post(ss, sp.security_schemes@),
            _ => sp.security_schemes@.len() == 0,
        },
        None => sp.security_schemes@.len() == 0,
    })
    &&& sec_post(doc_global_security(doc), sp.global_security@)
}

/// Convert a flow object.
fn convert_oauth2_flow(v: &JsonValue) -> (r: OAuth2Flow)
    ensures
        flow_post(v.deep_view(), r),
{
    let scopes: Vec<(String, String)> = match v.get("scopes") {
        Some(sc) => match sc.as_object() {
            Some(fields) => scope_pairs(fields),
            None => Vec::new(),
        },
        None => Vec::new(),
    };
    OAuth2Flow {
        authorization_url: text_field(v, "authorizationUrl"),
        token_url: text_field(v, "tokenUrl"),
        refresh_url: text_field(v, "refreshUrl"),
        scopes,
    }
}

/// Read a field's string content, if the field is a string.
fn text_field(v: &JsonValue, name: &str) -> (r: Option<String>)
    ensures
        opt_text_post(spec_get(v.deep_view(), name@), r),
{
    match v.get(name) {
        Some(f) => match f.as_text() {
            Some(t) => Some(t.clone()),
            None => None,
        },
        None => None,
    }
}

/// The string-valued entries of a scopes object, in order.
#[verifier::loop_isolation(false)]
fn scope_pairs(fields: &Vec<(String, JsonValue)>) -> (r: Vec<(String, String)>)
    ensures
        pairs_post(fields.deep_view(), r.deep_view()),
{
    let n = fields.len();
    let mut out: Vec<(String, String)> = Vec::new();
    let mut i: usize = 0;
    let ghost dv = fields.deep_view();
    proof {
        assert(dv.skip(0) =~= dv);
        assert forall|rest: Seq<(Seq<char>, Seq<char>)>|
            pairs_post(dv.skip(0), rest) implies #[trigger] pairs_post(
            dv,
            out.deep_view() + rest,
        ) by {
            assert(out.deep_view() + rest =~= rest);
        }
    }
    while i < n
        invariant
            i <= n,
            forall|rest: Seq<(Seq<char>, Seq<char>)>|
                pairs_post(dv.skip(i as int), rest) ==> #[trigger] pairs_post(
                    dv,
                    out.deep_view() + rest,
                ),
        decreases n - i,
    {
        let ghost pre = out.deep_view();
        proof {
            assert(dv.skip(i as int)[0] == dv[i as int]);
            assert(dv.skip(i as int).skip(1) =~= dv.skip(i + 1));
            assert(dv[i as int] == (fields@[i as int].0@, fields@[i as int].1.deep_view()));
        }
        match &fields[i].1 {
            JsonValue::Text(t) => {
                out.push((fields[i].0.clone(), t.clone()));
                proof {
                    assert(out.deep_view() =~= pre.push((fields@[i as int].0@, t@)));
                    assert forall|rest: Seq<(Seq<char>, Seq<char>)>|
                        pairs_post(dv.skip(i + 1), rest) implies #[trigger] pairs_post(
                        dv,
                        out.deep_view() + rest,
                    ) by {
                        assert(pairs_post(
                            dv.skip(i as int),
                            seq![(fields@[i as int].0@, t@)] + rest,
                        )) by {
                            assert((seq![(fields@[i as int].0@, t@)] + rest).skip(1) =~= rest);
                        }
                        assert(pre + (seq![(fields@[i as int].0@, t@)] + rest) =~= out.deep_view()
                            + rest);
                    }
                }
            },
            _ => {
                proof {
                    assert forall|rest: Seq<(Seq<char>, Seq<char>)>|
                        pairs_post(dv.skip(i + 1), rest) implies #[trigger] pairs_post(
                        dv,
                        out.deep_view() + rest,
                    ) by {
                        assert(pairs_post(dv.skip(i as int), rest));
                    }
                }
            },
        }
        i += 1;
    }
    proof {
        assert(dv.skip(n as int).len() == 0);
        assert(pairs_post(dv.skip(n as int), Seq::<(Seq<char>, Seq<char>)>::empty()));
        assert(out.deep_view() + Seq::<(Seq<char>, Seq<char>)>::empty() =~= out.deep_view());
    }
    out
}

impl OpenApiParser {
    /// Convert one security scheme object; unknown types are dropped.
    pub fn convert_security_scheme(v: &JsonValue) -> (r: Option<SecurityScheme>)
        ensures
            match r {
                Some(s) => scheme_post(v.deep_view(), s),
                None => !scheme_keeps(v.deep_view()),
            },
    {
        let ty = match text_field(v, "type") {
            Some(t) => t,
            None => String::new(),
        };
        proof {
            assert(ty@ == scheme_type(v.deep_view()));
        }
        if str_eq(ty.as_str(), "apiKey") {
            let location = match text_field(v, "in") {
                Some(loc) => {
                    if str_eq(loc.as_str(), "query") {
                        ApiKeyLocation::Query
                    } else if str_eq(loc.as_str(), "cookie") {
                        ApiKeyLocation::Cookie
                    } else {
                        ApiKeyLocation::Header
                    }
                },
                None => ApiKeyLocation::Header,
            };
            let name = match text_field(v, "name") {
                Some(t) => t,
                None => String::new(),
            };
            Some(SecurityScheme::ApiKey { name, location })
        } else if str_eq(ty.as_str(), "http") {
            let scheme = match text_field(v, "scheme") {
                Some(t) => t,
                None => "bearer".to_owned(),
            };
            Some(
                SecurityScheme::Http { scheme, bearer_format: text_field(v, "bearerFormat") },
            )
        } else if str_eq(ty.as_str(), "oauth2") {
            let flows = match v.get("flows") {
                Some(fv) => OAuth2Flows {
                    authorization_code: match fv.get("authorizationCode") {
                        Some(x) => Some(convert_oauth2_flow(x)),
                        None => None,
                    },
                    implicit: match fv.get("implicit") {
                        Some(x) => Some(convert_oauth2_flow(x)),
                        None => None,
                    },
                    password: match fv.get("password") {
                        Some(x) => Some(convert_oauth2_flow(x)),
                        None => None,
                    },
                    client_credentials: match fv.get("clientCredentials") {
                        Some(x) => Some(convert_oauth2_flow(x)),
                        None => None,
                    },
                },
                None => OAuth2Flows {
                    authorization_code: None,
                    implicit: None,
                    password: None,
                    client_credentials: None,
                },
            };
            Some(SecurityScheme::OAuth2 { flows })
        } else if str_eq(ty.as_str(), "openIdConnect") {
            let url = match text_field(v, "openIdConnectUrl") {
                Some(t) => t,
                None => String::new(),
            };
            Some(SecurityScheme::OpenIdConnect { openid_connect_url: url })
        } else {
            None
        }
    }

    /// Convert the kept schemes of a `securitySchemes` object, in order.
    #[verifier::loop_isolation(false)]
    pub fn convert_security_schemes(
        fields: &Vec<(String, JsonValue)>,
    ) -> (r: Vec<(String, SecurityScheme)>)
        ensures
            schemes_post(fields.deep_view(), r@),
    {
        let n = fields.len();
        let mut out: Vec<(String, SecurityScheme)> = Vec::new();
        let mut i: usize = 0;
        let ghost dv = fields.deep_view();
        proof {
            assert(dv.skip(0) =~= dv);
            assert forall|rest: Seq<(String, SecurityScheme)>|
                schemes_post(dv.skip(0), rest) implies #[trigger] schemes_post(
                dv,
                out@ + rest,
            ) by {
                assert(out@ + rest =~= rest);
            }
        }
        while i < n
            invariant
                i <= n,
                forall|rest: Seq<(String, SecurityScheme)>|
                    schemes_post(dv.skip(i as int), rest) ==> #[trigger] schemes_post(
                        dv,
                        out@ + rest,
                    ),
            decreases n - i,
        {
            let ghost pre = out@;
            proof {
                assert(dv.skip(i as int)[0] == dv[i as int]);
                assert(dv.skip(i as int).skip(1) =~= dv.skip(i + 1));
                assert(dv[i as int] == (fields@[i as int].0@, fields@[i as int].1.deep_view()));
            }
            match Self::convert_security_scheme(&fields[i].1) {
                Some(scheme) => {
                    let key = fields[i].0.clone();
                    out.push((key, scheme));
                    proof {
                        let entry = out@[out@.len() - 1];
                        assert(out@ =~= pre.push(entry));
                        assert forall|rest: Seq<(String, SecurityScheme)>|
                            schemes_post(dv.skip(i + 1), rest) implies #[trigger] schemes_post(
                            dv,
                            out@ + rest,
                        ) by {
                            assert(schemes_post(dv.skip(i as int), seq![entry] + rest)) by {
                                assert((seq![entry] + rest).skip(1) =~= rest);
                            }
                            assert(pre + (seq![entry] + rest) =~= out@ + rest);
                        }
                    }
                },
                None => {
                    proof {
                        assert forall|rest: Seq<(String, SecurityScheme)>|
                            schemes_post(dv.skip(i + 1), rest) implies #[trigger] schemes_post(
                            dv,
                            out@ + rest,
                        ) by {
                            assert(schemes_post(dv.skip(i as int), rest));
                        }
                    }
                },
            }
            i += 1;
        }
        proof {
            assert(dv.skip(n as int).len() == 0);
            assert(schemes_post(dv.skip(n as int), Seq::<(String, SecurityScheme)>::empty()));
            assert(out@ + Seq::<(String, SecurityScheme)>::empty() =~= out@);
        }
        out
    }

    /// Convert a parsed document into the operation model; rejected unless
    /// its `openapi` field begins with `3.`.
    pub fn convert_spec(doc: &JsonValue) -> (r: Result<ParsedSpec, ParseError>)
        ensures
            r is Ok <==> doc_version_ok(doc.deep_view()),
            r matches Ok(sp) ==> convert_post(doc.deep_view(), sp),
            r matches Err(e) ==> e is UnsupportedVersion,
    {
        let version_ok: bool = match v_openapi(doc) {
            Some(v) => {
                let cs = chars_of(v.as_str());
                proof {
                    reveal_strlit("3.");
                }
                cs.len() >= 2 && {
                    let ok = cs[0] == '3' && cs[1] == '.';
                    proof {
                        if ok {
                            assert(v@.subrange(0, 2) =~= "3."@);
                        } else {
                            assert(v@.subrange(0, 2)[0] == v@[0]);
                            assert(v@.subrange(0, 2)[1] == v@[1]);
                        }
                    }
                    ok
                }
            },
            None => false,
        };
        if !version_ok {
            return Err(ParseError::UnsupportedVersion("expected an OpenAPI 3.x document".to_owned()));
        }
        let (title, version, description): (String, String, Option<String>) = match doc.get(
            "info",
        ) {
            Some(info) => {
                let t = match text_field(info, "title") {
                    Some(t) => t,
                    None => String::new(),
                };
                let ver = match text_field(info, "version") {
                    Some(t) => t,
                    None => String::new(),
                };
                (t, ver, text_field(info, "description"))
            },
            None => (String::new(), String::new(), None),
        };
        let servers: Vec<ServerInfo> = match doc.get("servers") {
            Some(sv) => match sv.as_array() {
                Some(arr) => convert_servers(arr),
                None => Vec::new(),
            },
            None => Vec::new(),
        };
        let operations = OperationExtractor::extract(doc);
        let security_schemes: Vec<(String, SecurityScheme)> = match doc.get("components") {
            Some(c) => match c.get("securitySchemes") {
                Some(ss) => match ss.as_object() {
                    Some(o) => Self::convert_security_schemes(o),
                    None => Vec::new(),
                },
                None => Vec::new(),
            },
            None => Vec::new(),
        };
        let empty_sec: Vec<JsonValue> = Vec::new();
        let global_raw: &Vec<JsonValue> = match doc.get("security") {
            Some(sec) => match sec.as_array() {
                Some(a) => a,
                None => &empty_sec,
            },
            None => &empty_sec,
        };
        proof {
            assert(global_raw.deep_view() =~= doc_global_security(doc.deep_view()));
        }
        let global_security = crate::extract::security_requirements(global_raw);
        Ok(
            ParsedSpec {
                title,
                description,
                version,
                servers,
                operations,
                security_schemes,
                global_security,
            },
        )
    }

    /// Parse a document from text, auto-detecting JSON by a leading `{`.
    ///
    /// Succeeds exactly where the sanitized text parses as the detected
    /// format and its `openapi` field begins with `3.`; the result is the
    /// conversion of that parsed document.
    pub fn parse(content: &str) -> (r: Result<ParsedSpec, ParseError>)
        ensures
            r is Ok <==> (spec_parse_doc(content@) matches Some(doc) && doc_version_ok(doc)),
            r matches Ok(sp) ==> convert_post(spec_parse_doc(content@).unwrap(), sp),
            r matches Err(e) ==> ((spec_parse_doc(content@) is None ==> e is JsonError
                || e is YamlError) && (spec_parse_doc(content@) is Some
                ==> e is UnsupportedVersion)),
    {
        let sanitized = Self::sanitize_large_numbers(content);
        let cs = chars_of(sanitized.as_str());
        let mut i: usize = 0;
        let n = cs.len();
        while i < n && (cs[i] == ' ' || cs[i] == '\t' || cs[i] == '\n' || cs[i] == '\r')
            invariant
                i <= n,
                n == cs@.len(),
                cs@ == sanitized@,
                blanks_end(sanitized@, 0) == blanks_end(sanitized@, i as int),
            decreases n - i,
        {
            i += 1;
        }
        proof {
            assert(blanks_end(sanitized@, i as int) == i as int);
        }
        let json_first = i < n && cs[i] == '{';
        proof {
            assert(json_first == detects_json(sanitized@));
        }
        let parsed = if json_first {
            parse_json(sanitized.as_str())
        } else {
            parse_yaml(sanitized.as_str())
        };
        match parsed {
            Some(doc) => {
                let sp = Self::convert_spec(&doc)?;
                proof {
                    assert(convert_post(doc.deep_view(), sp));
                }
                Ok(sp)
            },
            None => {
                if json_first {
                    Err(ParseError::JsonError("the document is not valid JSON".to_owned()))
                } else {
                    Err(ParseError::YamlError("the document is not valid YAML".to_owned()))
                }
            },
        }
    }

    /// Parse a JSON document.
    ///
    /// Succeeds exactly where the sanitized text is valid JSON whose
    /// `openapi` field begins with `3.`.
    pub fn parse_json(content: &str) -> (r: Result<ParsedSpec, ParseError>)
        ensures
            r is Ok <==> (json_value_of(spec_sanitize(content@)) matches Some(doc)
                && doc_version_ok(doc)),
            r matches Ok(sp) ==> convert_post(
                json_value_of(spec_sanitize(content@)).unwrap(),
                sp,
            ),
            r matches Err(e) ==> ((json_value_of(spec_sanitize(content@)) is None
                ==> e is JsonError) && (json_value_of(spec_sanitize(content@)) is Some
                ==> e is UnsupportedVersion)),
    {
        let sanitized = Self::sanitize_large_numbers(content);
        match parse_json(sanitized.as_str()) {
            Some(doc) => {
                let sp = Self::convert_spec(&doc)?;
                proof {
                    assert(convert_post(doc.deep_view(), sp));
                }
                Ok(sp)
            },
            None => Err(ParseError::JsonError("the document is not valid JSON".to_owned())),
        }
    }

    /// Parse a YAML document.
    ///
    /// Succeeds exactly where the sanitized text is valid YAML whose
    /// `openapi` field begins with `3.`.
    pub fn parse_yaml(content: &str) -> (r: Result<ParsedSpec, ParseError>)
        ensures
            r is Ok <==> (yaml_value_of(spec_sanitize(content@)) matches Some(doc)
                && doc_version_ok(doc)),
            r matches Ok(sp) ==> convert_post(
                yaml_value_of(spec_sanitize(content@)).unwrap(),
                sp,
            ),
            r matches Err(e) ==> ((yaml_value_of(spec_sanitize(content@)) is None
                ==> e is YamlError) && (yaml_value_of(spec_sanitize(content@)) is Some
                ==> e is UnsupportedVersion)),
    {
        let sanitized = Self::sanitize_large_numbers(content);
        match parse_yaml(sanitized.as_str()) {
            Some(doc) => {
                let sp = Self::convert_spec(&doc)?;
                proof {
                    assert(convert_post(doc.deep_view(), sp));
                }
                Ok(sp)
            },
            None => Err(ParseError::YamlError("the document is not valid YAML".to_owned())),
        }
    }
}

/// The `openapi` field's string content, if it is a string.
fn v_openapi(doc: &JsonValue) -> (r: Option<&String>)
    ensures
        match r {
            Some(v) => spec_get(doc.deep_view(), "openapi"@) == Some(Json::Text(v@)),
            None => !(spec_get(doc.deep_view(), "openapi"@) matches Some(x) && x is Text),
        },
{
    match doc.get("openapi") {
        Some(f) => f.as_text(),
        None => None,
    }
}

/// Convert the servers array.
#[verifier::loop_isolation(false)]
fn convert_servers(arr: &Vec<JsonValue>) -> (r: Vec<ServerInfo>)
    ensures
        servers_post(arr.deep_view(), r@),
{
    let n = arr.len();
    let mut out: Vec<ServerInfo> = Vec::new();
    let mut i: usize = 0;
    while i < n
        invariant
            i <= n,
            out@.len() == i,
            forall|k: int|
                0 <= k < i ==> (#[trigger] out@[k]).url@ == spec_text_or_empty(
                    spec_get(arr.deep_view()[k], "url"@),
                ) && opt_text_post(spec_get(arr.deep_view()[k], "description"@), out@[k].description),
        decreases n - i,
    {
        proof {
            assert(arr.deep_view()[i as int] == arr@[i as int].deep_view());
        }
        let url = match text_field(&arr[i], "url") {
            Some(t) => t,
            None => String::new(),
        };
        out.push(ServerInfo { url, description: text_field(&arr[i], "description") });
        i += 1;
    }
    out
}

} // verus!
