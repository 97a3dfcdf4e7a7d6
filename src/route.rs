use vstd::prelude::*;
use crate::method::Method;

verus! {

/// A route: a method and a path pattern bound to a handler.
pub struct Route<H> {
    pub method: Method,
    pub path: String,
    pub description: Option<String>,
    pub handler: H,
}

/// Why a route builder could not produce a route.
#[derive(Debug, PartialEq, Eq, Structural, Clone, Copy)]
pub enum RouteBuildError {
    MissingMethod,
    MissingPath,
}

impl<H> Route<H> {
    pub fn new(method: Method, path: String, description: Option<String>, handler: H) -> (r: Self)
        ensures
            r.method == method,
            r.path@ == path@,
            r.description == description,
            r.handler == handler,
    {
        Route { method, path, description, handler }
    }
}

impl Route<()> {
    /// A builder with nothing set.
    pub fn builder() -> (r: RouteBuilder)
        ensures
            r.method.is_none(),
            r.path.is_none(),
            r.description.is_none(),
    {
        RouteBuilder { method: None, path: None, description: None }
    }
}

/// Collects the parts of a route; `handler` finishes it.
pub struct RouteBuilder {
    pub method: Option<Method>,
    pub path: Option<String>,
    pub description: Option<String>,
}

impl RouteBuilder {
    pub fn description(self, description: &str) -> (r: Self)
        ensures
            r.method == self.method,
            r.path == self.path,
            r.description matches Some(d) && d@ == description@,
    {
        RouteBuilder {
            method: self.method,
            path: self.path,
            description: Some(description.to_owned()),
        }
    }

    pub fn method(self, method: Method) -> (r: Self)
        ensures
            r.method == Some(method),
            r.path == self.path,
            r.description == self.description,
    {
        RouteBuilder { method: Some(method), path: self.path, description: self.description }
    }

    pub fn path(self, path: &str) -> (r: Self)
        ensures
            r.method == self.method,
            r.path matches Some(p) && p@ == path@,
            r.description == self.description,
    {
        RouteBuilder { method: self.method, path: Some(path.to_owned()), description: self.description }
    }

    /// Finishes the route; the method and the path must have been set.
    pub fn handler<H>(self, handler: H) -> (r: Result<Route<H>, RouteBuildError>)
        ensures
            self.method is None ==> r == Err::<Route<H>, _>(RouteBuildError::MissingMethod),
            self.method is Some && self.path is None ==> r == Err::<Route<H>, _>(
                RouteBuildError::MissingPath,
            ),
            self.method is Some && self.path is Some ==> (r matches Ok(route) && route.method
                == self.method->0 && route.path == self.path->0 && route.description
                == self.description && route.handler == handler),
    {
        match (self.method, self.path) {
            (None, _) => Err(RouteBuildError::MissingMethod),
            (Some(_), None) => Err(RouteBuildError::MissingPath),
            (Some(method), Some(path)) => Ok(
                Route { method, path, description: self.description, handler },
            ),
        }
    }
}

} // verus!
