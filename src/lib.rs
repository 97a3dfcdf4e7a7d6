//! Request-dispatch core of a small HTTP service framework: a route table,
//! a path matcher, typed parameter extraction and response conversion.

pub mod condey;
pub mod extract;
pub mod handler;
pub mod json;
pub mod laws;
pub mod method;
pub mod param;
pub mod path;
pub mod pattern;
pub mod pipeline;
pub mod response;
pub mod route;
pub mod router;
pub mod state;
pub mod trie;

pub use crate::condey::{Condey, Service};
pub use crate::extract::{
    ExtractBody, ExtractClass, ExtractRequest, Form, Json, Path, PathExtractError, PathParams,
    Query,
};
pub use crate::handler::HandlerFn;
pub use crate::json::{JsonErrorClass, JsonInterceptor};
pub use crate::method::Method;
pub use crate::param::{FromPathParam, FromPathParamError};
pub use crate::pipeline::{Action, Event, Pipeline, Stage};
pub use crate::response::{Responder, Response, Status, StatusCode};
pub use crate::route::{Route, RouteBuildError, RouteBuilder};
pub use crate::router::{Dispatch, RouteMatch, Router, ServerError};
pub use crate::state::{MissingState, State, StateStore};
