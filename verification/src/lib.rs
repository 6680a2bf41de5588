//! AWS Lambda runtime adapter for Armature applications.
//!
//! The library turns an incoming Lambda HTTP event (API Gateway REST or HTTP
//! API, ALB, Function URL) into a [`LambdaRequest`], and a handler's
//! [`LambdaResponse`] back into the [`EventResponse`] that the Lambda runtime
//! sends.
//!
//! - [`event`]: the Lambda HTTP events as plain values.
//! - [`request`]: reading an event into a [`LambdaRequest`].
//! - [`response`]: building a [`LambdaResponse`] and turning it into an event.
//! - [`headers`]: header lists and their case-insensitive lookup.
//! - [`runtime`]: configuration and the runtime's decisions around a handler.

pub mod error;
pub mod event;
pub mod headers;
pub mod request;
pub mod response;
pub mod runtime;
mod text;

pub use error::{LambdaError, Result};
pub use event::{
    AuthorizerField, ClaimValue, EventContext, EventRequest, EventResponse, GatewayContext, LambdaBody,
    RequestAuthorizer,
};
pub use headers::same_field;
pub use request::{LambdaRequest, RequestContext};
pub use response::LambdaResponse;
pub use runtime::{prepare_request, strip_base_path, LambdaConfig, LambdaRuntime};
pub use vstd::hash_map::StringHashMap;
