//! Route descriptors: the metadata that binds a path and a method to the shape
//! of the handler's response.

use crate::schema::{ResponseSchema, SchemaView};
use vstd::prelude::*;

verus! {

/// An HTTP request method.
#[derive(Clone, Copy, Debug, PartialEq, Eq, Structural)]
pub enum Method {
    Get,
    Post,
    Put,
    Delete,
    Patch,
    Head,
    Options,
}

/// The method as it is written in a request line.
pub open spec fn method_name(method: Method) -> Seq<char> {
    match method {
        Method::Get => "GET"@,
        Method::Post => "POST"@,
        Method::Put => "PUT"@,
        Method::Delete => "DELETE"@,
        Method::Patch => "PATCH"@,
        Method::Head => "HEAD"@,
        Method::Options => "OPTIONS"@,
    }
}

/// The method as OpenAPI names it: in lower case.
pub open spec fn method_key(method: Method) -> Seq<char> {
    match method {
        Method::Get => "get"@,
        Method::Post => "post"@,
        Method::Put => "put"@,
        Method::Delete => "delete"@,
        Method::Patch => "patch"@,
        Method::Head => "head"@,
        Method::Options => "options"@,
    }
}

impl Method {
    /// The method as OpenAPI names it, in lower case.
    pub fn key(&self) -> (r: &'static str)
        ensures
            r@ == method_key(*self),
    {
        match self {
            Method::Get => "get",
            Method::Post => "post",
            Method::Put => "put",
            Method::Delete => "delete",
            Method::Patch => "patch",
            Method::Head => "head",
            Method::Options => "options",
        }
    }

    /// The method as it is written in a request line, in upper case.
    pub fn name(&self) -> (r: &'static str)
        ensures
            r@ == method_name(*self),
    {
        match self {
            Method::Get => "GET",
            Method::Post => "POST",
            Method::Put => "PUT",
            Method::Delete => "DELETE",
            Method::Patch => "PATCH",
            Method::Head => "HEAD",
            Method::Options => "OPTIONS",
        }
    }
}

/// A route descriptor as a mathematical value.
pub struct RouteView {
    pub path: Seq<char>,
    pub method: Method,
    pub summary: Option<Seq<char>>,
    pub schema: SchemaView,
}

/// What a route is keyed by: its path and its method.
pub open spec fn same_key(a: RouteView, b: RouteView) -> bool {
    a.path == b.path && a.method == b.method
}

/// The registered description of one route. It does not change after it was
/// made.
pub struct RouteDescriptor {
    path: String,
    method: Method,
    summary: Option<String>,
    response_schema: ResponseSchema,
}

impl View for RouteDescriptor {
    type V = RouteView;

    closed spec fn view(&self) -> RouteView {
        RouteView {
            path: self.path@,
            method: self.method,
            summary: match self.summary {
                Some(s) => Some(s@),
                None => None,
            },
            schema: self.response_schema@,
        }
    }
}

impl RouteDescriptor {
    /// Describes the route `method path`, whose handler answers with
    /// `response_schema`. It has no summary yet.
    pub fn new(path: String, method: Method, response_schema: ResponseSchema) -> (r:
        RouteDescriptor)
        ensures
            r@ == (RouteView {
                path: path@,
                method: method,
                summary: None,
                schema: response_schema@,
            }),
    {
        RouteDescriptor { path, method, summary: None, response_schema }
    }

    /// The same route with `summary` as its human-readable summary.
    pub fn with_summary(self, summary: String) -> (r: RouteDescriptor)
        ensures
            r@ == (RouteView { summary: Some(summary@), ..self@ }),
    {
        RouteDescriptor {
            path: self.path,
            method: self.method,
            summary: Some(summary),
            response_schema: self.response_schema,
        }
    }

    /// The path the route is mounted at.
    pub fn path(&self) -> (r: &String)
        ensures
            r@ == self@.path,
    {
        &self.path
    }

    /// The method the route answers.
    pub fn method(&self) -> (r: Method)
        ensures
            r == self@.method,
    {
        self.method
    }

    /// The summary, if one was given.
    pub fn summary(&self) -> (r: Option<&String>)
        ensures
            r is Some == self@.summary is Some,
            r matches Some(s) ==> self@.summary == Some(s@),
    {
        match &self.summary {
            Some(s) => Some(s),
            None => None,
        }
    }

    /// The shape of the handler's response.
    pub fn response_schema(&self) -> (r: &ResponseSchema)
        ensures
            r@ == self@.schema,
    {
        &self.response_schema
    }

    /// Whether `self` and `other` are mounted at the same path for the same
    /// method.
    pub fn same_route(&self, other: &RouteDescriptor) -> (r: bool)
        ensures
            r == same_key(self@, other@),
    {
        self.method == other.method && self.path == other.path
    }
}

impl Clone for RouteDescriptor {
    fn clone(&self) -> (r: RouteDescriptor)
        ensures
            r@ == self@,
    {
        RouteDescriptor {
            path: self.path.clone(),
            method: self.method,
            summary: match &self.summary {
                Some(s) => Some(s.clone()),
                None => None,
            },
            response_schema: self.response_schema.clone(),
        }
    }
}

} // verus!
