//! Spec events: tagged records for every spec mutation. All state of the
//! engine is derived from a totally ordered stream of these events.

use vstd::prelude::*;
use crate::shape::{FieldShapeDescriptor, ShapeParametersDescriptor};

verus! {

/// A path component added to the path tree, under a parent path.
#[derive(Clone, Debug)]
pub struct PathComponentAdded {
    pub path_id: String,
    pub parent_path_id: String,
    pub name: String,
}

/// A human contribution (documentation key/value) attached to a spec entity.
#[derive(Clone, Debug)]
pub struct ContributionAdded {
    pub id: String,
    pub key: String,
    pub value: String,
}

/// A shape created in the shape graph.
#[derive(Clone, Debug)]
pub struct ShapeAdded {
    pub shape_id: String,
    pub base_shape_id: String,
    pub parameters: ShapeParametersDescriptor,
    pub name: String,
}

/// A field added to an object shape.
#[derive(Clone, Debug)]
pub struct FieldAdded {
    pub field_id: String,
    pub shape_id: String,
    pub name: String,
    pub shape_descriptor: FieldShapeDescriptor,
}

/// A request added under a path and method.
#[derive(Clone, Debug)]
pub struct RequestAdded {
    pub request_id: String,
    pub path_id: String,
    pub http_method: String,
}

/// A response added under a path, method and status code.
#[derive(Clone, Debug)]
pub struct ResponseAddedByPathAndMethod {
    pub response_id: String,
    pub path_id: String,
    pub http_method: String,
    pub http_status_code: u16,
}

/// A body (content type plus root shape) attached to a request or response.
#[derive(Clone, Debug)]
pub struct ShapedBodyDescriptor {
    pub http_content_type: String,
    pub shape_id: String,
    pub is_removed: bool,
}

/// The body of a request set or replaced.
#[derive(Clone, Debug)]
pub struct RequestBodySet {
    pub request_id: String,
    pub body_descriptor: ShapedBodyDescriptor,
}

/// The body of a response set or replaced.
#[derive(Clone, Debug)]
pub struct ResponseBodySet {
    pub response_id: String,
    pub body_descriptor: ShapedBodyDescriptor,
}

/// Marks the start of a batch commit; its ids become the chunk's identity.
#[derive(Clone, Debug)]
pub struct BatchCommitStarted {
    pub batch_id: String,
    pub parent_id: Option<String>,
    pub commit_message: String,
}

/// Marks the end of a batch commit.
#[derive(Clone, Debug)]
pub struct BatchCommitEnded {
    pub batch_id: String,
}

/// One spec mutation. The projections fold a stream of these into queryable
/// graphs; the chunk classifier inspects the first event of each chunk.
#[derive(Clone, Debug)]
pub enum SpecEvent {
    PathComponentAdded(PathComponentAdded),
    ContributionAdded(ContributionAdded),
    ShapeAdded(ShapeAdded),
    FieldAdded(FieldAdded),
    RequestAdded(RequestAdded),
    ResponseAddedByPathAndMethod(ResponseAddedByPathAndMethod),
    RequestBodySet(RequestBodySet),
    ResponseBodySet(ResponseBodySet),
    BatchCommitStarted(BatchCommitStarted),
    BatchCommitEnded(BatchCommitEnded),
}

} // verus!
