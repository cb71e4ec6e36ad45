//! Endpoint-side descriptors the visitors compare an interaction against:
//! request, response and query-parameter descriptors resolved from the spec.

use vstd::prelude::*;
use crate::shape::ShapeId;

verus! {

/// Identifier of a node in the path tree (opaque string).
pub type PathId = String;
/// Identifier of a request (opaque string).
pub type RequestId = String;
/// Identifier of a response (opaque string).
pub type ResponseId = String;
/// Identifier of a query-parameters declaration (opaque string).
pub type QueryParametersId = String;
/// An HTTP content type such as `application/json`.
pub type HttpContentType = String;

/// A declared body: its content type and the shape its root must satisfy.
#[derive(Clone, Debug)]
pub struct HttpBodyDescriptor {
    pub http_content_type: HttpContentType,
    pub root_shape_id: ShapeId,
    pub is_removed: bool,
}

/// A request as the spec declares it: possibly bodyless.
#[derive(Clone, Debug)]
pub struct RequestDescriptor {
    pub body: Option<HttpBodyDescriptor>,
}

/// A response as the spec declares it: possibly bodyless.
#[derive(Clone, Debug)]
pub struct ResponseDescriptor {
    pub body: Option<HttpBodyDescriptor>,
}

/// The shape bound to a query-parameters declaration.
#[derive(Clone, Debug)]
pub struct QueryParametersShapeDescriptor {
    pub shape_id: ShapeId,
    pub is_removed: bool,
}

/// Query parameters as the spec declares them, possibly without a shape.
#[derive(Clone, Debug)]
pub struct QueryParametersDescriptor {
    pub shape: Option<QueryParametersShapeDescriptor>,
}

} // verus!
