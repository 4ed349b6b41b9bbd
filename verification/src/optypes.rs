//! Types for parsed OpenAPI documents.

use vstd::prelude::*;
use crate::json::JsonValue;

verus! {

/// HTTP methods an OpenAPI path item can carry.
#[derive(Clone, Copy, PartialEq, Eq, Structural, Debug, Hash)]
pub enum HttpMethod {
    /// `GET`
    Get,
    /// `POST`
    Post,
    /// `PUT`
    Put,
    /// `PATCH`
    Patch,
    /// `DELETE`
    Delete,
    /// `HEAD`
    Head,
    /// `OPTIONS`
    Options,
    /// `TRACE`
    Trace,
}

impl HttpMethod {
    /// The canonical uppercase rendering of the method.
    pub open spec fn spec_str(self) -> Seq<char> {
        match self {
            HttpMethod::Get => "GET"@,
            HttpMethod::Post => "POST"@,
            HttpMethod::Put => "PUT"@,
            HttpMethod::Patch => "PATCH"@,
            HttpMethod::Delete => "DELETE"@,
            HttpMethod::Head => "HEAD"@,
            HttpMethod::Options => "OPTIONS"@,
            HttpMethod::Trace => "TRACE"@,
        }
    }

    /// The uppercase rendering of the method.
    pub fn as_str(&self) -> (r: &'static str)
        ensures
            r@ == self.spec_str(),
    {
        match self {
            HttpMethod::Get => "GET",
            HttpMethod::Post => "POST",
            HttpMethod::Put => "PUT",
            HttpMethod::Patch => "PATCH",
            HttpMethod::Delete => "DELETE",
            HttpMethod::Head => "HEAD",
            HttpMethod::Options => "OPTIONS",
            HttpMethod::Trace => "TRACE",
        }
    }
}

/// Where a parameter lives in an HTTP request.
#[derive(Clone, Copy, PartialEq, Eq, Structural, Debug)]
pub enum ParameterLocation {
    /// In the URL path.
    Path,
    /// In the query string.
    Query,
    /// In a header.
    Header,
    /// In a cookie.
    Cookie,
}

/// A parameter of an API operation.
pub struct OperationParameter {
    /// Parameter name.
    pub name: String,
    /// Where the parameter is located.
    pub location: ParameterLocation,
    /// Whether the parameter is required.
    pub required: bool,
    /// Parameter description.
    pub description: Option<String>,
    /// JSON Schema for the parameter.
    pub schema: Option<JsonValue>,
    /// Example value.
    pub example: Option<JsonValue>,
    /// Whether the parameter is deprecated.
    pub deprecated: bool,
}

/// A request body description.
pub struct RequestBody {
    /// Whether the body is required.
    pub required: bool,
    /// Content type (e.g. `application/json`).
    pub content_type: String,
    /// JSON Schema for the body.
    pub schema: Option<JsonValue>,
    /// Description.
    pub description: Option<String>,
}

/// A response description.
pub struct ResponseSchema {
    /// HTTP status code, as it keys the responses map.
    pub status_code: String,
    /// Content type.
    pub content_type: Option<String>,
    /// JSON Schema for the response.
    pub schema: Option<JsonValue>,
    /// Description.
    pub description: Option<String>,
}

/// A security requirement on an operation.
pub struct SecurityRequirement {
    /// Name of the security scheme.
    pub scheme_name: String,
    /// Required scopes (for OAuth2).
    pub scopes: Vec<String>,
}

/// A single API operation extracted from a document.
pub struct ApiOperation {
    /// Unique operation id, from the document or synthesized.
    pub operation_id: String,
    /// Dotted, lowercased id used for namespacing.
    pub normalized_id: String,
    /// HTTP method.
    pub method: HttpMethod,
    /// URL path (e.g. `/v1/customers/{id}`).
    pub path: String,
    /// Short summary.
    pub summary: Option<String>,
    /// Full description.
    pub description: Option<String>,
    /// Tags for categorization.
    pub tags: Vec<String>,
    /// Whether the operation is deprecated.
    pub deprecated: bool,
    /// Parameters (path, query, header, cookie).
    pub parameters: Vec<OperationParameter>,
    /// Request body description.
    pub request_body: Option<RequestBody>,
    /// Response descriptions.
    pub responses: Vec<ResponseSchema>,
    /// Security requirements.
    pub security: Vec<SecurityRequirement>,
}

/// Server information from a document.
pub struct ServerInfo {
    /// Server URL.
    pub url: String,
    /// Server description.
    pub description: Option<String>,
}

/// Where an API key goes.
#[derive(Clone, Copy, PartialEq, Eq, Structural, Debug)]
pub enum ApiKeyLocation {
    /// In a header.
    Header,
    /// In the query string.
    Query,
    /// In a cookie.
    Cookie,
}

/// One OAuth2 flow's endpoints and scopes.
pub struct OAuth2Flow {
    /// Authorization endpoint.
    pub authorization_url: Option<String>,
    /// Token endpoint.
    pub token_url: Option<String>,
    /// Refresh endpoint.
    pub refresh_url: Option<String>,
    /// Scope name and description pairs.
    pub scopes: Vec<(String, String)>,
}

/// The OAuth2 flows a scheme offers.
pub struct OAuth2Flows {
    /// The authorization-code flow.
    pub authorization_code: Option<OAuth2Flow>,
    /// The implicit flow.
    pub implicit: Option<OAuth2Flow>,
    /// The resource-owner-password flow.
    pub password: Option<OAuth2Flow>,
    /// The client-credentials flow.
    pub client_credentials: Option<OAuth2Flow>,
}

/// A security scheme definition.
pub enum SecurityScheme {
    /// API key authentication.
    ApiKey {
        /// Header, query or cookie name.
        name: String,
        /// Where the key goes.
        location: ApiKeyLocation,
    },
    /// HTTP authentication (bearer, basic).
    Http {
        /// The HTTP auth scheme word.
        scheme: String,
        /// Bearer token format hint.
        bearer_format: Option<String>,
    },
    /// OAuth2 authentication.
    OAuth2 {
        /// The flows offered.
        flows: OAuth2Flows,
    },
    /// OpenID Connect.
    OpenIdConnect {
        /// The discovery URL.
        openid_connect_url: String,
    },
}

/// A parsed OpenAPI document.
pub struct ParsedSpec {
    /// API title.
    pub title: String,
    /// API description.
    pub description: Option<String>,
    /// API version.
    pub version: String,
    /// Servers, in document order.
    pub servers: Vec<ServerInfo>,
    /// All extracted operations, in document order.
    pub operations: Vec<ApiOperation>,
    /// Security schemes, in document order.
    pub security_schemes: Vec<(String, SecurityScheme)>,
    /// Global security requirements.
    pub global_security: Vec<SecurityRequirement>,
}

} // verus!
