//! Authentication scheme detection.
//!
//! From a document's security schemes and a requirement list, detection
//! yields the scheme a caller must satisfy: the requirements' schemes where
//! requirements exist (several become [`AuthScheme::Multiple`]), else the
//! first defined scheme, else none.

use vstd::prelude::*;
use crate::optypes::{ApiKeyLocation, SecurityRequirement, SecurityScheme};
use crate::strutil::{spec_lower_seq, lower_chars, chars_of, string_of, str_eq};

verus! {

/// A detected authentication scheme.
pub enum AuthScheme {
    /// No authentication required.
    NoAuth,
    /// Bearer token in the `Authorization` header.
    Bearer {
        /// Token format hint.
        format: Option<String>,
    },
    /// API key in a header, the query string, or a cookie.
    ApiKey {
        /// Header, query or cookie name.
        name: String,
        /// Where the key goes.
        location: ApiKeyLocation,
    },
    /// Basic authentication.
    Basic,
    /// OAuth2 authentication.
    OAuth2 {
        /// Authorization endpoint.
        authorization_url: Option<String>,
        /// Token endpoint.
        token_url: Option<String>,
        /// Required scopes.
        scopes: Vec<String>,
    },
    /// Any of several schemes.
    Multiple(Vec<AuthScheme>),
}

/// The view of an optional string.
pub open spec fn opt_view(o: Option<String>) -> Option<Seq<char>> {
    match o {
        Some(s) => Some(s@),
        None => None,
    }
}

/// The flow endpoints OAuth2 detection prefers: authorization-code, then
/// client-credentials, then implicit, then password.
pub open spec fn oauth_urls(s: SecurityScheme) -> (Option<Seq<char>>, Option<Seq<char>>) {
    match s {
        SecurityScheme::OAuth2 { flows } => {
            if flows.authorization_code is Some {
                let f = flows.authorization_code.unwrap();
                (opt_view(f.authorization_url), opt_view(f.token_url))
            } else if flows.client_credentials is Some {
                let f = flows.client_credentials.unwrap();
                (None, opt_view(f.token_url))
            } else if flows.implicit is Some {
                let f = flows.implicit.unwrap();
                (opt_view(f.authorization_url), None)
            } else if flows.password is Some {
                let f = flows.password.unwrap();
                (None, opt_view(f.token_url))
            } else {
                (None, None)
            }
        },
        SecurityScheme::OpenIdConnect { openid_connect_url } => (
            Some(openid_connect_url@),
            None,
        ),
        _ => (None, None),
    }
}

/// How a converted scheme relates to its definition.
pub open spec fn from_scheme_post(s: SecurityScheme, a: AuthScheme) -> bool {
    match s {
        SecurityScheme::ApiKey { name, location } => a matches AuthScheme::ApiKey {
            name: n2,
            location: l2,
        } && n2@ == name@ && l2 == location,
        SecurityScheme::Http { scheme, bearer_format } => {
            if spec_lower_seq(scheme@) == "bearer"@ {
                a matches AuthScheme::Bearer { format } && opt_view(format) == opt_view(
                    bearer_format,
                )
            } else if spec_lower_seq(scheme@) == "basic"@ {
                a is Basic
            } else {
                a matches AuthScheme::Bearer { format } && format is None
            }
        },
        SecurityScheme::OAuth2 { flows } => a matches AuthScheme::OAuth2 {
            authorization_url,
            token_url,
            scopes,
        } && (opt_view(authorization_url), opt_view(token_url)) == oauth_urls(s) && scopes@.len()
            == 0,
        SecurityScheme::OpenIdConnect { openid_connect_url } => a matches AuthScheme::OAuth2 {
            authorization_url,
            token_url,
            scopes,
        } && opt_view(authorization_url) == Some(openid_connect_url@) && token_url is None
            && scopes@.len() == 0,
    }
}

/// How a requirement's scheme, with its scopes applied, relates to the
/// definition: OAuth2-like schemes take the requirement's scopes.
pub open spec fn applied_post(s: SecurityScheme, req: SecurityRequirement, a: AuthScheme) -> bool {
    if s is OAuth2 || s is OpenIdConnect {
        a matches AuthScheme::OAuth2 { authorization_url, token_url, scopes } && (
        opt_view(authorization_url),
        opt_view(token_url),
        ) == oauth_urls(s) && scopes.deep_view() == req.scopes.deep_view()
    } else {
        from_scheme_post(s, a)
    }
}

/// The first defined scheme under a name, if any.
pub open spec fn scheme_lookup(
    schemes: Seq<(String, SecurityScheme)>,
    name: Seq<char>,
) -> Option<SecurityScheme>
    decreases schemes.len(),
{
    if schemes.len() == 0 {
        None
    } else if schemes[0].0@ == name {
        Some(schemes[0].1)
    } else {
        scheme_lookup(schemes.skip(1), name)
    }
}

/// `out` holds, in order, the applied schemes of the requirements whose
/// names are defined.
pub open spec fn collected_post(
    schemes: Seq<(String, SecurityScheme)>,
    reqs: Seq<SecurityRequirement>,
    out: Seq<AuthScheme>,
) -> bool
    decreases reqs.len(),
{
    if reqs.len() == 0 {
        out.len() == 0
    } else {
        match scheme_lookup(schemes, reqs[0].scheme_name@) {
            Some(s) => out.len() > 0 && applied_post(s, reqs[0], out[0]) && collected_post(
                schemes,
                reqs.skip(1),
                out.skip(1),
            ),
            None => collected_post(schemes, reqs.skip(1), out),
        }
    }
}

impl AuthScheme {
    /// Convert a scheme definition into a detected scheme.
    pub fn from_scheme(scheme: &SecurityScheme) -> (r: AuthScheme)
        ensures
            from_scheme_post(*scheme, r),
    {
        match scheme {
            SecurityScheme::ApiKey { name, location } => AuthScheme::ApiKey {
                name: name.clone(),
                location: *location,
            },
            SecurityScheme::Http { scheme, bearer_format } => {
                let lc = lower_chars(&chars_of(scheme.as_str()));
                let lowered = string_of(&lc);
                proof {
                    reveal_strlit("bearer");
                    reveal_strlit("basic");
                }
                if str_eq(lowered.as_str(), "bearer") {
                    AuthScheme::Bearer {
                        format: match bearer_format {
                            Some(f) => Some(f.clone()),
                            None => None,
                        },
                    }
                } else if str_eq(lowered.as_str(), "basic") {
                    AuthScheme::Basic
                } else {
                    AuthScheme::Bearer { format: None }
                }
            },
            SecurityScheme::OAuth2 { flows } => {
                let (authorization_url, token_url): (Option<String>, Option<String>) =
                    if let Some(f) = &flows.authorization_code {
                    (clone_opt(&f.authorization_url), clone_opt(&f.token_url))
                } else if let Some(f) = &flows.client_credentials {
                    (None, clone_opt(&f.token_url))
                } else if let Some(f) = &flows.implicit {
                    (clone_opt(&f.authorization_url), None)
                } else if let Some(f) = &flows.password {
                    (None, clone_opt(&f.token_url))
                } else {
                    (None, None)
                };
                AuthScheme::OAuth2 { authorization_url, token_url, scopes: Vec::new() }
            },
            SecurityScheme::OpenIdConnect { openid_connect_url } => AuthScheme::OAuth2 {
                authorization_url: Some(openid_connect_url.clone()),
                token_url: None,
                scopes: Vec::new(),
            },
        }
    }

    /// Detect the scheme for a requirement list against the defined
    /// schemes.
    #[verifier::loop_isolation(false)]
    pub fn detect(
        security_schemes: &Vec<(String, SecurityScheme)>,
        security_requirements: &Vec<SecurityRequirement>,
    ) -> (r: AuthScheme)
        ensures
            security_requirements@.len() == 0 && security_schemes@.len() == 0 ==> r is NoAuth,
            security_requirements@.len() == 0 && security_schemes@.len() > 0 ==> from_scheme_post(
                security_schemes@[0].1,
                r,
            ),
            security_requirements@.len() > 0 ==> exists|collected: Seq<AuthScheme>|
                #[trigger] collected_post(security_schemes@, security_requirements@, collected)
                    && (collected.len() == 0 ==> r is NoAuth) && (collected.len() == 1 ==> r
                    == collected[0]) && (collected.len() > 1 ==> (r matches AuthScheme::Multiple(
                    l,
                ) && l@ == collected)),
    {
        if security_requirements.len() == 0 {
            if security_schemes.len() == 0 {
                return AuthScheme::NoAuth;
            }
            return Self::from_scheme(&security_schemes[0].1);
        }
        let n = security_requirements.len();
        let mut collected: Vec<AuthScheme> = Vec::new();
        let mut i: usize = 0;
        let ghost reqs = security_requirements@;
        let ghost schemes = security_schemes@;
        proof {
            assert(reqs.skip(0) =~= reqs);
            assert forall|rest: Seq<AuthScheme>|
                collected_post(schemes, reqs.skip(0), rest) implies #[trigger] collected_post(
                schemes,
                reqs,
                collected@ + rest,
            ) by {
                assert(collected@ + rest =~= rest);
            }
        }
        while i < n
            invariant
                i <= n,
                forall|rest: Seq<AuthScheme>|
                    collected_post(schemes, reqs.skip(i as int), rest) ==> #[trigger]
                    collected_post(schemes, reqs, collected@ + rest),
            decreases n - i,
        {
            let ghost pre = collected@;
            proof {
                assert(reqs.skip(i as int)[0] == reqs[i as int]);
                assert(reqs.skip(i as int).skip(1) =~= reqs.skip(i + 1));
            }
            match find_scheme(security_schemes, security_requirements[i].scheme_name.as_str()) {
                Some(s) => {
                    let mut auth = Self::from_scheme(s);
                    let is_oauth = matches!(s, SecurityScheme::OAuth2 { .. }) || matches!(
                        s,
                        SecurityScheme::OpenIdConnect { .. },
                    );
                    if is_oauth {
                        if let AuthScheme::OAuth2 {
                            authorization_url,
                            token_url,
                            scopes: _,
                        } = auth {
                            let new_scopes = clone_strings(&security_requirements[i].scopes);
                            auth = AuthScheme::OAuth2 {
                                authorization_url,
                                token_url,
                                scopes: new_scopes,
                            };
                        }
                    }
                    let ghost a = auth;
                    proof {
                        assert(applied_post(*s, reqs[i as int], a));
                    }
                    collected.push(auth);
                    proof {
                        assert(collected@ =~= pre.push(a));
                        assert forall|rest: Seq<AuthScheme>|
                            collected_post(schemes, reqs.skip(i + 1), rest)
                                implies #[trigger] collected_post(
                            schemes,
                            reqs,
                            collected@ + rest,
                        ) by {
                            assert(collected_post(schemes, reqs.skip(i as int), seq![a] + rest))
                                by {
                                assert((seq![a] + rest).skip(1) =~= rest);
                            }
                            assert(pre + (seq![a] + rest) =~= collected@ + rest);
                        }
                    }
                },
                None => {
                    proof {
                        assert forall|rest: Seq<AuthScheme>|
                            collected_post(schemes, reqs.skip(i + 1), rest)
                                implies #[trigger] collected_post(
                            schemes,
                            reqs,
                            collected@ + rest,
                        ) by {
                            assert(collected_post(schemes, reqs.skip(i as int), rest));
                        }
                    }
                },
            }
            i += 1;
        }
        proof {
            assert(reqs.skip(n as int).len() == 0);
            assert(collected_post(schemes, reqs.skip(n as int), Seq::<AuthScheme>::empty()));
            assert(collected@ + Seq::<AuthScheme>::empty() =~= collected@);
            assert(collected_post(schemes, reqs, collected@));
        }
        let ghost collv = collected@;
        if collected.len() == 0 {
            let r = AuthScheme::NoAuth;
            proof {
                assert(collected_post(schemes, reqs, collv) && collv.len() == 0);
            }
            r
        } else if collected.len() == 1 {
            let mut c = collected;
            let only = c.remove(0);
            proof {
                assert(only == collv[0]);
                assert(collected_post(schemes, reqs, collv) && collv.len() == 1);
            }
            only
        } else {
            let r = AuthScheme::Multiple(collected);
            proof {
                assert(r matches AuthScheme::Multiple(l) && l@ == collv);
                assert(collected_post(schemes, reqs, collv) && collv.len() > 1);
            }
            r
        }
    }

    /// The header this scheme sets, if any.
    pub fn header_name<'a>(&'a self) -> (r: Option<&'a str>)
        ensures
            match *self {
                AuthScheme::Bearer { .. } | AuthScheme::Basic | AuthScheme::OAuth2 { .. } => (
                r matches Some(h) && h@ == "Authorization"@),
                AuthScheme::ApiKey { name, location } => if location == ApiKeyLocation::Header {
                    r matches Some(h) && h@ == name@
                } else {
                    r is None
                },
                _ => r is None,
            },
    {
        match self {
            AuthScheme::Bearer { .. } | AuthScheme::Basic => Some("Authorization"),
            AuthScheme::ApiKey { name, location } => {
                if matches!(location, ApiKeyLocation::Header) {
                    Some(name.as_str())
                } else {
                    None
                }
            },
            AuthScheme::OAuth2 { .. } => Some("Authorization"),
            _ => None,
        }
    }

    /// The authorization header value for a credential, if this scheme
    /// sets one.
    pub fn format_header(&self, credential: &str) -> (r: Option<String>)
        ensures
            match *self {
                AuthScheme::Bearer { .. } | AuthScheme::OAuth2 { .. } => r matches Some(h) && h@
                    == "Bearer "@ + credential@,
                AuthScheme::Basic => r matches Some(h) && h@ == "Basic "@ + credential@,
                AuthScheme::ApiKey { location, .. } => if location == ApiKeyLocation::Header {
                    r matches Some(h) && h@ == credential@
                } else {
                    r is None
                },
                _ => r is None,
            },
    {
        proof {
            reveal_strlit("Bearer ");
            reveal_strlit("Basic ");
        }
        match self {
            AuthScheme::Bearer { .. } => Some("Bearer ".to_owned().concat(credential)),
            AuthScheme::Basic => Some("Basic ".to_owned().concat(credential)),
            AuthScheme::ApiKey { location, .. } => {
                if matches!(location, ApiKeyLocation::Header) {
                    Some(credential.to_owned())
                } else {
                    None
                }
            },
            AuthScheme::OAuth2 { .. } => Some("Bearer ".to_owned().concat(credential)),
            _ => None,
        }
    }
}

/// Copy an optional string.
fn clone_opt(o: &Option<String>) -> (r: Option<String>)
    ensures
        opt_view(r) == opt_view(*o),
{
    match o {
        Some(s) => Some(s.clone()),
        None => None,
    }
}

/// Copy a string list, preserving views.
fn clone_strings(v: &Vec<String>) -> (r: Vec<String>)
    ensures
        r.deep_view() == v.deep_view(),
{
    let n = v.len();
    let mut out: Vec<String> = Vec::new();
    let mut i: usize = 0;
    while i < n
        invariant
            i <= n,
            n == v@.len(),
            out@.len() == i,
            forall|k: int| 0 <= k < i ==> out@[k]@ == #[trigger] v@[k]@,
        decreases n - i,
    {
        out.push(v[i].clone());
        i += 1;
    }
    proof {
        assert(out.deep_view() =~= v.deep_view());
    }
    out
}

/// The first defined scheme under a name, if any.
fn find_scheme<'a>(
    schemes: &'a Vec<(String, SecurityScheme)>,
    name: &str,
) -> (r: Option<&'a SecurityScheme>)
    ensures
        match r {
            Some(s) => scheme_lookup(schemes@, name@) == Some(*s),
            None => scheme_lookup(schemes@, name@) is None,
        },
{
    let n = schemes.len();
    let mut i: usize = 0;
    proof {
        assert(schemes@.skip(0) =~= schemes@);
    }
    while i < n
        invariant
            i <= n,
            n == schemes@.len(),
            scheme_lookup(schemes@, name@) == scheme_lookup(schemes@.skip(i as int), name@),
        decreases n - i,
    {
        proof {
            assert(schemes@.skip(i as int)[0] == schemes@[i as int]);
            assert(schemes@.skip(i as int).skip(1) =~= schemes@.skip(i + 1));
        }
        if str_eq(schemes[i].0.as_str(), name) {
            return Some(&schemes[i].1);
        }
        i += 1;
    }
    None
}

} // verus!
