//! A request-dispatch engine for an HTTP server.
//!
//! A dispatch table maps an HTTP method and a path pattern to a delegate. A
//! request is answered by the first registered route whose method equals the
//! request's method and whose pattern matches the request's path; the route's
//! guards run first and may stop the request before the delegate sees it.

pub mod controller;
pub mod guard;
pub mod message;
pub mod pattern;

pub use controller::{
    BasicController, BoxedDelegate, Controller, ControllerDispatch, DelegateFunction,
    StatusDelegate,
};
pub use guard::{BodyGuard, BoxedGuard, RequestContinuation, RequestGuard, RequestGuardCollection};
pub use message::{
    Method, StatusCode, SyncRequest, SyncResponse, BAD_REQUEST, METHOD_NOT_ALLOWED, OK,
};
pub use pattern::{PathMatcher, PatternError};
