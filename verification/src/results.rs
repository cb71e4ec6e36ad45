//! Diff results: every matched or unmatched aspect of an interaction relative
//! to the spec, located by a trail through the interaction and a trail
//! through the spec.

use vstd::prelude::*;
use crate::shape::ShapeId;

verus! {

/// One step of the path an interaction was walked along.
#[derive(Clone, Debug)]
pub enum InteractionTrailPathComponent {
    Url { path: String },
    Method { method: String },
    QueryParameters,
    RequestBody { content_type: String },
    ResponseStatusCode { status_code: u16 },
    ResponseBody { content_type: String, status_code: u16 },
}

/// An ordered list of steps through the interaction.
#[derive(Clone, Debug)]
pub struct InteractionTrail {
    pub path: Vec<InteractionTrailPathComponent>,
}

impl InteractionTrail {
    /// A trail with no steps.
    pub fn empty() -> (r: InteractionTrail)
        ensures
            r.path@.len() == 0,
    {
        InteractionTrail { path: Vec::new() }
    }

    /// A trail made of the given steps, in their order.
    pub fn new(path: Vec<InteractionTrailPathComponent>) -> (r: InteractionTrail)
        ensures
            r.path == path,
    {
        InteractionTrail { path }
    }

    /// Appends a `Url` step.
    pub fn with_url(&mut self, path: String)
        ensures
            final(self).path@ == old(self).path@.push(
                InteractionTrailPathComponent::Url { path },
            ),
    {
        self.path.push(InteractionTrailPathComponent::Url { path })
    }

    /// Appends a `Method` step.
    pub fn with_method(&mut self, method: String)
        ensures
            final(self).path@ == old(self).path@.push(
                InteractionTrailPathComponent::Method { method },
            ),
    {
        self.path.push(InteractionTrailPathComponent::Method { method })
    }

    /// Appends a `QueryParameters` step.
    pub fn with_query_parameters(&mut self)
        ensures
            final(self).path@ == old(self).path@.push(
                InteractionTrailPathComponent::QueryParameters,
            ),
    {
        self.path.push(InteractionTrailPathComponent::QueryParameters)
    }
}

/// Where in the spec a diff result points.
#[derive(Clone, Debug)]
pub enum RequestSpecTrail {
    SpecRoot(SpecRoot),
    SpecPath(SpecPath),
    SpecQueryParameters(SpecQueryParameters),
    SpecRequestBody(SpecRequestBody),
    SpecResponseBody(SpecResponseBody),
}

#[derive(Clone, Debug)]
pub struct SpecRoot {}

#[derive(Clone, Debug)]
pub struct SpecPath {
    pub path_id: String,
}

#[derive(Clone, Debug)]
pub struct SpecQueryParameters {
    pub query_parameters_id: String,
}

#[derive(Clone, Debug)]
pub struct SpecRequestBody {
    pub request_id: String,
}

#[derive(Clone, Debug)]
pub struct SpecResponseBody {
    pub response_id: String,
}

/// The interaction URL resolved to no known path template.
#[derive(Clone, Debug)]
pub struct UnmatchedRequestUrl {
    pub interaction_trail: InteractionTrail,
    pub requests_trail: RequestSpecTrail,
}

impl UnmatchedRequestUrl {
    pub fn new(interaction_trail: InteractionTrail, requests_trail: RequestSpecTrail) -> (r:
        UnmatchedRequestUrl)
        ensures
            r.interaction_trail == interaction_trail,
            r.requests_trail == requests_trail,
    {
        UnmatchedRequestUrl { interaction_trail, requests_trail }
    }
}

/// The spec declares query parameters with a shape for this operation.
#[derive(Clone, Debug)]
pub struct MatchedQueryParameters {
    pub interaction_trail: InteractionTrail,
    pub requests_trail: RequestSpecTrail,
    pub root_shape_id: ShapeId,
}

impl MatchedQueryParameters {
    pub fn new(
        interaction_trail: InteractionTrail,
        requests_trail: RequestSpecTrail,
        root_shape_id: ShapeId,
    ) -> (r: MatchedQueryParameters)
        ensures
            r.interaction_trail == interaction_trail,
            r.requests_trail == requests_trail,
            r.root_shape_id == root_shape_id,
    {
        MatchedQueryParameters { interaction_trail, requests_trail, root_shape_id }
    }
}

/// The spec declares no query parameter shape for this operation.
#[derive(Clone, Debug)]
pub struct UnmatchedQueryParameters {
    pub interaction_trail: InteractionTrail,
    pub requests_trail: RequestSpecTrail,
    pub had_query: bool,
}

impl UnmatchedQueryParameters {
    pub fn new(
        interaction_trail: InteractionTrail,
        requests_trail: RequestSpecTrail,
        had_query: bool,
    ) -> (r: UnmatchedQueryParameters)
        ensures
            r.interaction_trail == interaction_trail,
            r.requests_trail == requests_trail,
            r.had_query == had_query,
    {
        UnmatchedQueryParameters { interaction_trail, requests_trail, had_query }
    }
}

/// The interaction's request content type equals a spec request body's.
#[derive(Clone, Debug)]
pub struct MatchedRequestBodyContentType {
    pub interaction_trail: InteractionTrail,
    pub requests_trail: RequestSpecTrail,
    pub root_shape_id: ShapeId,
}

impl MatchedRequestBodyContentType {
    pub fn new(
        interaction_trail: InteractionTrail,
        requests_trail: RequestSpecTrail,
        root_shape_id: ShapeId,
    ) -> (r: MatchedRequestBodyContentType)
        ensures
            r.interaction_trail == interaction_trail,
            r.requests_trail == requests_trail,
            r.root_shape_id == root_shape_id,
    {
        MatchedRequestBodyContentType { interaction_trail, requests_trail, root_shape_id }
    }
}

/// No spec request body matched the interaction's request content type.
#[derive(Clone, Debug)]
pub struct UnmatchedRequestBodyContentType {
    pub interaction_trail: InteractionTrail,
    pub requests_trail: RequestSpecTrail,
}

impl UnmatchedRequestBodyContentType {
    pub fn new(interaction_trail: InteractionTrail, requests_trail: RequestSpecTrail) -> (r:
        UnmatchedRequestBodyContentType)
        ensures
            r.interaction_trail == interaction_trail,
            r.requests_trail == requests_trail,
    {
        UnmatchedRequestBodyContentType { interaction_trail, requests_trail }
    }
}

/// The interaction's response content type equals a spec response body's.
#[derive(Clone, Debug)]
pub struct MatchedResponseBodyContentType {
    pub interaction_trail: InteractionTrail,
    pub requests_trail: RequestSpecTrail,
    pub root_shape_id: ShapeId,
}

impl MatchedResponseBodyContentType {
    pub fn new(
        interaction_trail: InteractionTrail,
        requests_trail: RequestSpecTrail,
        root_shape_id: ShapeId,
    ) -> (r: MatchedResponseBodyContentType)
        ensures
            r.interaction_trail == interaction_trail,
            r.requests_trail == requests_trail,
            r.root_shape_id == root_shape_id,
    {
        MatchedResponseBodyContentType { interaction_trail, requests_trail, root_shape_id }
    }
}

/// No spec response body matched the interaction's response content type.
#[derive(Clone, Debug)]
pub struct UnmatchedResponseBodyContentType {
    pub interaction_trail: InteractionTrail,
    pub requests_trail: RequestSpecTrail,
}

impl UnmatchedResponseBodyContentType {
    pub fn new(interaction_trail: InteractionTrail, requests_trail: RequestSpecTrail) -> (r:
        UnmatchedResponseBodyContentType)
        ensures
            r.interaction_trail == interaction_trail,
            r.requests_trail == requests_trail,
    {
        UnmatchedResponseBodyContentType { interaction_trail, requests_trail }
    }
}

/// One matched or unmatched aspect of an interaction relative to the spec.
#[derive(Clone, Debug)]
pub enum InteractionDiffResult {
    UnmatchedRequestUrl(UnmatchedRequestUrl),
    MatchedQueryParameters(MatchedQueryParameters),
    UnmatchedQueryParameters(UnmatchedQueryParameters),
    MatchedRequestBodyContentType(MatchedRequestBodyContentType),
    UnmatchedRequestBodyContentType(UnmatchedRequestBodyContentType),
    MatchedResponseBodyContentType(MatchedResponseBodyContentType),
    UnmatchedResponseBodyContentType(UnmatchedResponseBodyContentType),
}

} // verus!
