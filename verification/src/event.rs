//! Lambda HTTP events as plain values: what the Lambda runtime hands the
//! library for a request, and what the library hands it back.

use vstd::prelude::*;

verus! {

/// The body of a Lambda HTTP event.
#[derive(Debug, Clone, PartialEq, Eq)]
pub enum LambdaBody {
    /// An empty body.
    Empty,
    /// A body containing string data.
    Text(String),
    /// A body containing binary data.
    Binary(Vec<u8>),
}

/// The HTTP response returned to the Lambda runtime.
#[derive(Debug, Clone)]
pub struct EventResponse {
    /// Status code.
    pub status: u16,
    /// Headers, in emission order.
    pub headers: Vec<(String, String)>,
    /// Body.
    pub body: LambdaBody,
}

} // verus!

verus! {

/// `http::Method`, carried through as the event gives it.
#[verifier::external_type_specification]
#[verifier::external_body]
pub struct ExMethod(http::Method);

/// One claim of a REST API authorizer's `claims` object, as JSON.
#[derive(Debug, Clone, PartialEq, Eq)]
pub enum ClaimValue {
    /// A JSON string.
    Text(String),
    /// JSON `null`.
    Null,
    /// Any other JSON value, written out as JSON text.
    Other(String),
}

/// The JSON value of one field of an authorizer's raw map.
#[derive(Debug, Clone, PartialEq, Eq)]
pub enum AuthorizerField {
    /// A JSON object, with its members in the order they are held.
    Object(Vec<(String, ClaimValue)>),
    /// Any other JSON value.
    Other,
}

/// The authorizer section of an API Gateway request context.
#[derive(Debug, Clone)]
pub struct RequestAuthorizer {
    /// The claims of a JWT authorizer (`authorizer.jwt.claims`), when present.
    pub jwt_claims: Option<Vec<(String, String)>>,
    /// The fields of the authorizer's raw map, one entry per key (Cognito and
    /// custom authorizers of a REST API put their claims under `claims`).
    pub fields: Vec<(String, AuthorizerField)>,
}

/// The part of an API Gateway request context that the library reads.
#[derive(Debug, Clone)]
pub struct GatewayContext {
    /// Request ID.
    pub request_id: Option<String>,
    /// Stage name.
    pub stage: Option<String>,
    /// Domain name.
    pub domain_name: Option<String>,
    /// HTTP method, as text.
    pub http_method: String,
    /// Source IP.
    pub source_ip: Option<String>,
    /// User agent.
    pub user_agent: Option<String>,
    /// Authorizer; a REST API request always has one.
    pub authorizer: Option<RequestAuthorizer>,
}

/// The request context an event carries, by the kind of event.
#[derive(Debug, Clone)]
pub enum EventContext {
    /// An API Gateway HTTP API (V2) event.
    ApiGatewayV2(GatewayContext),
    /// An API Gateway REST API (V1) event.
    ApiGatewayV1(GatewayContext),
    /// An Application Load Balancer event.
    Alb,
    /// Any other event (WebSocket, VPC Lattice, pass-through).
    Other,
}

/// An incoming Lambda HTTP request.
pub struct EventRequest {
    /// HTTP method.
    pub method: http::Method,
    /// Request path.
    pub path: String,
    /// Query string, if the URI has one.
    pub query: Option<String>,
    /// Headers in the order the request yields them, each value as raw bytes.
    pub headers: Vec<(String, Vec<u8>)>,
    /// Path parameters, one pair per value, in the order the event yields them.
    pub path_parameters: Vec<(String, String)>,
    /// Stage variables, one pair per value, in the order the event yields them.
    pub stage_variables: Vec<(String, String)>,
    /// Request context, when the event has one.
    pub context: Option<EventContext>,
    /// Body.
    pub body: LambdaBody,
}

} // verus!
