//! The diff visitor pipeline: four visitors sharing a results buffer, invoked
//! in fixed order (path, query parameters, request body, response body) for
//! each interaction. Inputs that cannot be matched produce unmatched diffs,
//! never errors.

use vstd::prelude::*;
use crate::endpoint::{
    HttpBodyDescriptor, PathId, QueryParametersDescriptor, QueryParametersId, RequestDescriptor,
    RequestId, ResponseDescriptor, ResponseId,
};
use crate::interaction::HttpInteraction;
use crate::results::{
    InteractionDiffResult, InteractionTrail, InteractionTrailPathComponent,
    MatchedQueryParameters, MatchedRequestBodyContentType, MatchedResponseBodyContentType,
    RequestSpecTrail, SpecPath, SpecQueryParameters, SpecRequestBody, SpecResponseBody, SpecRoot,
    UnmatchedQueryParameters, UnmatchedRequestBodyContentType, UnmatchedRequestUrl,
    UnmatchedResponseBodyContentType,
};

verus! {

/// The buffer a visitor pushes its diff results into.
#[derive(Debug)]
pub struct VisitorResults<R> {
    pub results: Vec<R>,
}

impl<R> VisitorResults<R> {
    /// An empty buffer.
    pub fn new() -> (r: VisitorResults<R>)
        ensures
            r.results@.len() == 0,
    {
        VisitorResults { results: Vec::new() }
    }

    /// Appends one result.
    pub fn push(&mut self, result: R)
        ensures
            final(self).results@ == old(self).results@.push(result),
    {
        self.results.push(result)
    }

    /// Gives the buffered results out, in emission order.
    pub fn into_vec(self) -> (r: Vec<R>)
        ensures
            r == self.results,
    {
        self.results
    }
}

/// The results buffer of the diff pipeline.
pub type DiffResults = VisitorResults<InteractionDiffResult>;

/// Context of the path stage: the path the interaction URL resolved to, if
/// any.
pub struct PathVisitorContext {
    pub path: Option<PathId>,
}

/// Context of the query-parameters stage.
pub struct QueryParametersVisitorContext {
    pub path: PathId,
    pub query: Option<(QueryParametersId, QueryParametersDescriptor)>,
}

/// Context of the request-body stage: one candidate operation resolved from
/// the spec, if any.
pub struct RequestBodyVisitorContext {
    pub path: PathId,
    pub operation: Option<(RequestId, RequestDescriptor)>,
}

/// Context of the response-body stage: one candidate response resolved from
/// the spec, if any.
pub struct ResponseBodyVisitorContext {
    pub path: PathId,
    pub response: Option<(ResponseId, ResponseDescriptor)>,
}

/// Membership in a set of ids, compared by characters.
pub open spec fn id_set_contains(s: Seq<String>, id: Seq<char>) -> bool {
    exists|i: int| 0 <= i < s.len() && s[i]@ == id
}

/// What inserting into a set of ids leaves behind: unchanged when the id is
/// already a member, extended by it otherwise.
pub open spec fn spec_insert_id(s: Seq<String>, id: String) -> Seq<String> {
    if id_set_contains(s, id@) {
        s
    } else {
        s.push(id)
    }
}

/// Inserts an id into a set of ids kept as a vector without repeats by view.
fn insert_id(ids: &mut Vec<String>, id: String)
    ensures
        final(ids)@ == spec_insert_id(old(ids)@, id),
{
    let n = ids.len();
    let mut i: usize = 0;
    while i < n
        invariant
            n == ids@.len(),
            i <= n,
            *ids == *old(ids),
            forall|j: int| 0 <= j < i ==> ids@[j]@ != id@,
        decreases n - i,
    {
        if ids[i] == id {
            proof {
                assert(id_set_contains(ids@, id@));
            }
            return ;
        }
        i += 1;
    }
    proof {
        assert(!id_set_contains(ids@, id@));
    }
    ids.push(id);
}

/// The diff recorded when an interaction URL resolves to no known path: an
/// `UnmatchedRequestUrl` whose interaction trail carries the URL and method
/// and whose spec trail is the spec root.
pub open spec fn is_unmatched_request_url_diff(
    d: InteractionDiffResult,
    i: HttpInteraction,
) -> bool {
    &&& d matches InteractionDiffResult::UnmatchedRequestUrl(u)
    &&& u.requests_trail matches RequestSpecTrail::SpecRoot(_)
    &&& u.interaction_trail.path@.len() == 2
    &&& (u.interaction_trail.path@[0] matches InteractionTrailPathComponent::Url { path }
        && path == i.request.path)
    &&& (u.interaction_trail.path@[1] matches InteractionTrailPathComponent::Method { method }
        && method == i.request.method)
}

/// Emits `UnmatchedRequestUrl` exactly when the interaction URL resolved to
/// no known path template.
pub struct DiffPathVisitor {
    pub results: DiffResults,
}

impl DiffPathVisitor {
    /// The results recorded so far, in emission order.
    pub open spec fn spec_results(self) -> Seq<InteractionDiffResult> {
        self.results.results@
    }

    /// A fresh path visitor with an empty results buffer.
    pub fn new() -> (r: DiffPathVisitor)
        ensures
            r.spec_results().len() == 0,
    {
        DiffPathVisitor { results: DiffResults::new() }
    }

    /// Read access to the results buffer.
    pub fn results(&self) -> (r: &DiffResults)
        ensures
            *r == self.results,
    {
        &self.results
    }

    /// Records `UnmatchedRequestUrl` if and only if no path was resolved.
    pub fn visit(&mut self, interaction: &HttpInteraction, context: &PathVisitorContext)
        ensures
            context.path is None ==> (final(self).spec_results() == old(self).spec_results().push(
                final(self).spec_results().last(),
            ) && is_unmatched_request_url_diff(final(self).spec_results().last(), *interaction)),
            context.path is Some ==> *final(self) == *old(self),
    {
        if context.path.is_none() {
            let mut interaction_trail = InteractionTrail::empty();
            interaction_trail.with_url(interaction.request.path.clone());
            interaction_trail.with_method(interaction.request.method.clone());
            let requests_trail = RequestSpecTrail::SpecRoot(SpecRoot {});
            let diff = InteractionDiffResult::UnmatchedRequestUrl(
                UnmatchedRequestUrl::new(interaction_trail, requests_trail),
            );
            self.results.push(diff);
        }
    }
}

/// The query-parameter declaration and shape a context carries, when it has
/// both.
pub open spec fn spec_query_shape(
    query: Option<(QueryParametersId, QueryParametersDescriptor)>,
) -> Option<(QueryParametersId, crate::shape::ShapeId)> {
    match query {
        Some((query_parameters_id, descriptor)) => match descriptor.shape {
            Some(shape_descriptor) => Some((query_parameters_id, shape_descriptor.shape_id)),
            None => None,
        },
        None => None,
    }
}

/// The diff recorded when the spec declares query parameters with a shape.
pub open spec fn is_matched_query_parameters_diff(
    d: InteractionDiffResult,
    query_parameters_id: QueryParametersId,
    shape_id: crate::shape::ShapeId,
) -> bool {
    &&& d matches InteractionDiffResult::MatchedQueryParameters(m)
    &&& (m.requests_trail matches RequestSpecTrail::SpecQueryParameters(q)
        && q.query_parameters_id == query_parameters_id)
    &&& m.root_shape_id == shape_id
    &&& m.interaction_trail.path@.len() == 1
    &&& m.interaction_trail.path@[0] is QueryParameters
}

/// The diff recorded when the spec declares no query-parameter shape.
pub open spec fn is_unmatched_query_parameters_diff(
    d: InteractionDiffResult,
    i: HttpInteraction,
    path_id: PathId,
) -> bool {
    &&& d matches InteractionDiffResult::UnmatchedQueryParameters(u)
    &&& (u.requests_trail matches RequestSpecTrail::SpecPath(p) && p.path_id == path_id)
    &&& u.had_query == (i.request.query is Some)
    &&& u.interaction_trail.path@.len() == 2
    &&& (u.interaction_trail.path@[0] matches InteractionTrailPathComponent::Url { path }
        && path == i.request.path)
    &&& (u.interaction_trail.path@[1] matches InteractionTrailPathComponent::Method { method }
        && method == i.request.method)
}

/// Compares the interaction's query string against the spec's declared query
/// parameters.
pub struct DiffQueryParametersVisitor {
    pub results: DiffResults,
}

impl DiffQueryParametersVisitor {
    /// The results recorded so far, in emission order.
    pub open spec fn spec_results(self) -> Seq<InteractionDiffResult> {
        self.results.results@
    }

    /// A fresh query-parameters visitor with an empty results buffer.
    pub fn new() -> (r: DiffQueryParametersVisitor)
        ensures
            r.spec_results().len() == 0,
    {
        DiffQueryParametersVisitor { results: DiffResults::new() }
    }

    /// Read access to the results buffer.
    pub fn results(&self) -> (r: &DiffResults)
        ensures
            *r == self.results,
    {
        &self.results
    }

    /// The query stage records nothing before its visits.
    pub fn begin(&mut self)
        ensures
            *final(self) == *old(self),
    {
    }

    /// Records `MatchedQueryParameters` when the spec declares query
    /// parameters with a shape, and `UnmatchedQueryParameters` (noting
    /// whether the interaction carried a query) otherwise.
    pub fn visit(&mut self, interaction: &HttpInteraction, context: &QueryParametersVisitorContext)
        ensures
            final(self).spec_results() == old(self).spec_results().push(
                final(self).spec_results().last(),
            ),
            (spec_query_shape(context.query) matches Some(pair) ==> is_matched_query_parameters_diff(
                final(self).spec_results().last(),
                pair.0,
                pair.1,
            )),
            (spec_query_shape(context.query) is None ==> is_unmatched_query_parameters_diff(
                final(self).spec_results().last(),
                *interaction,
                context.path,
            )),
    {
        let query_shape: Option<(&QueryParametersId, &crate::shape::ShapeId)> = match &context
            .query {
            Some(pair) => match &pair.1.shape {
                Some(shape_descriptor) => Some((&pair.0, &shape_descriptor.shape_id)),
                None => None,
            },
            None => None,
        };

        match query_shape {
            Some((query_parameters_id, shape_id)) => {
                let requests_trail = RequestSpecTrail::SpecQueryParameters(
                    SpecQueryParameters { query_parameters_id: query_parameters_id.clone() },
                );
                let mut interaction_trail = InteractionTrail::empty();
                interaction_trail.with_query_parameters();
                self.results.push(
                    InteractionDiffResult::MatchedQueryParameters(
                        MatchedQueryParameters::new(
                            interaction_trail,
                            requests_trail,
                            shape_id.clone(),
                        ),
                    ),
                );
            },
            None => {
                let requests_trail = RequestSpecTrail::SpecPath(
                    SpecPath { path_id: context.path.clone() },
                );
                let mut interaction_trail = InteractionTrail::empty();
                interaction_trail.with_url(interaction.request.path.clone());
                interaction_trail.with_method(interaction.request.method.clone());
                self.results.push(
                    InteractionDiffResult::UnmatchedQueryParameters(
                        UnmatchedQueryParameters::new(
                            interaction_trail,
                            requests_trail,
                            interaction.request.query.is_some(),
                        ),
                    ),
                );
            },
        }
    }

    /// The query stage records nothing after its visits.
    pub fn end(&mut self, _interaction: &HttpInteraction, _context: &PathVisitorContext)
        ensures
            *final(self) == *old(self),
    {
    }
}

/// Whether a declared body accepts the interaction side it is held against:
/// a bodyless declaration accepts interactions without a body (a content
/// type alone is tolerated), and a declared body accepts exactly its own
/// content type.
pub open spec fn spec_body_matches(
    spec_body: Option<HttpBodyDescriptor>,
    content_type: Option<String>,
    has_value: bool,
) -> bool {
    match (spec_body, content_type) {
        (None, None) => true,
        (None, Some(_)) => !has_value,
        (Some(_), None) => false,
        (Some(b), Some(ct)) => b.http_content_type@ == ct@,
    }
}

/// Whether a declared body and an interaction content type are both present
/// and equal: exactly then a `Matched...BodyContentType` diff is emitted.
pub open spec fn spec_content_type_matched(
    spec_body: Option<HttpBodyDescriptor>,
    content_type: Option<String>,
) -> bool {
    spec_body matches Some(b) && (content_type matches Some(ct) && b.http_content_type@ == ct@)
}

/// The diff recorded when a spec request body matches the interaction's
/// request content type.
pub open spec fn is_matched_request_body_diff(
    d: InteractionDiffResult,
    request_id: RequestId,
    body: HttpBodyDescriptor,
    content_type: String,
) -> bool {
    &&& d matches InteractionDiffResult::MatchedRequestBodyContentType(m)
    &&& (m.requests_trail matches RequestSpecTrail::SpecRequestBody(r)
        && r.request_id == request_id)
    &&& m.root_shape_id == body.root_shape_id
    &&& m.interaction_trail.path@.len() == 1
    &&& (m.interaction_trail.path@[0] matches InteractionTrailPathComponent::RequestBody {
        content_type: ct,
    } && ct == content_type)
}

/// The summary diff recorded when no spec request body matched: its trail
/// carries the URL, the method, and the interaction's request content type
/// when there was one.
pub open spec fn is_unmatched_request_body_diff(
    d: InteractionDiffResult,
    i: HttpInteraction,
    path_id: PathId,
) -> bool {
    &&& d matches InteractionDiffResult::UnmatchedRequestBodyContentType(u)
    &&& (u.requests_trail matches RequestSpecTrail::SpecPath(p) && p.path_id == path_id)
    &&& (u.interaction_trail.path@.len() >= 2)
    &&& (u.interaction_trail.path@[0] matches InteractionTrailPathComponent::Url { path }
        && path == i.request.path)
    &&& (u.interaction_trail.path@[1] matches InteractionTrailPathComponent::Method { method }
        && method == i.request.method)
    &&& (match i.request.body.content_type {
        Some(ct) => u.interaction_trail.path@.len() == 3 && (u.interaction_trail.path@[2]
            matches InteractionTrailPathComponent::RequestBody { content_type }
            && content_type == ct),
        None => u.interaction_trail.path@.len() == 2,
    })
}

/// Compares the interaction's request body content type against each
/// candidate operation of the spec.
pub struct DiffRequestBodyVisitor {
    pub results: DiffResults,
    pub visited_with_matched_content_types: Vec<RequestId>,
    pub visited_with_unmatched_content_types: Vec<RequestId>,
}

/// Everything one request-body visit does: it classifies the candidate
/// operation into the matched or unmatched set, and emits a
/// `MatchedRequestBodyContentType` exactly when the declared and the actual
/// content type are both present and equal.
pub open spec fn request_body_visit_post(
    pre: DiffRequestBodyVisitor,
    post: DiffRequestBodyVisitor,
    i: HttpInteraction,
    c: RequestBodyVisitorContext,
) -> bool {
    match c.operation {
        None => post == pre,
        Some((request_id, descriptor)) => {
            let ct = i.request.body.content_type;
            let has_value = i.request.body.value is Some;
            let matched = spec_body_matches(descriptor.body, ct, has_value);
            &&& (matched ==> (post.visited_with_matched_content_types@ == spec_insert_id(
                pre.visited_with_matched_content_types@,
                request_id,
            ) && post.visited_with_unmatched_content_types@
                == pre.visited_with_unmatched_content_types@))
            &&& (!matched ==> (post.visited_with_unmatched_content_types@ == spec_insert_id(
                pre.visited_with_unmatched_content_types@,
                request_id,
            ) && post.visited_with_matched_content_types@
                == pre.visited_with_matched_content_types@))
            &&& (spec_content_type_matched(descriptor.body, ct) ==> (post.spec_results()
                == pre.spec_results().push(post.spec_results().last())
                && is_matched_request_body_diff(
                post.spec_results().last(),
                request_id,
                descriptor.body.unwrap(),
                ct.unwrap(),
            )))
            &&& (!spec_content_type_matched(descriptor.body, ct) ==> post.spec_results()
                == pre.spec_results())
        },
    }
}

/// Everything the request-body end does: both sets are kept, and the summary
/// `UnmatchedRequestBodyContentType` is emitted exactly when a path was
/// resolved and no visit matched.
pub open spec fn request_body_end_post(
    pre: DiffRequestBodyVisitor,
    post: DiffRequestBodyVisitor,
    i: HttpInteraction,
    c: PathVisitorContext,
) -> bool {
    &&& post.visited_with_matched_content_types@ == pre.visited_with_matched_content_types@
    &&& post.visited_with_unmatched_content_types@ == pre.visited_with_unmatched_content_types@
    &&& (match c.path {
        Some(path_id) => if pre.visited_with_matched_content_types@.len() == 0 {
            post.spec_results() == pre.spec_results().push(post.spec_results().last())
                && is_unmatched_request_body_diff(post.spec_results().last(), i, path_id)
        } else {
            post.spec_results() == pre.spec_results()
        },
        None => post.spec_results() == pre.spec_results(),
    })
}

impl DiffRequestBodyVisitor {
    /// The results recorded so far, in emission order.
    pub open spec fn spec_results(self) -> Seq<InteractionDiffResult> {
        self.results.results@
    }

    /// A fresh request-body visitor: empty buffer, empty sets.
    pub fn new() -> (r: DiffRequestBodyVisitor)
        ensures
            r.spec_results().len() == 0,
            r.visited_with_matched_content_types@.len() == 0,
            r.visited_with_unmatched_content_types@.len() == 0,
    {
        DiffRequestBodyVisitor {
            results: DiffResults::new(),
            visited_with_matched_content_types: Vec::new(),
            visited_with_unmatched_content_types: Vec::new(),
        }
    }

    /// Read access to the results buffer.
    pub fn results(&self) -> (r: &DiffResults)
        ensures
            *r == self.results,
    {
        &self.results
    }

    /// The request-body stage records nothing before its visits.
    pub fn begin(&mut self)
        ensures
            *final(self) == *old(self),
    {
    }

    /// One candidate operation held against the interaction's request body.
    pub fn visit(&mut self, interaction: &HttpInteraction, context: &RequestBodyVisitorContext)
        ensures
            request_body_visit_post(*old(self), *final(self), *interaction, *context),
    {
        if let Some(operation) = context.operation.as_ref() {
            let request_id = &operation.0;
            let request_descriptor = &operation.1;
            let has_interaction_body = interaction.request.body.value.is_some();
            match (
                request_descriptor.body.as_ref(),
                interaction.request.body.content_type.as_ref(),
            ) {
                (None, None) => {
                    insert_id(&mut self.visited_with_matched_content_types, request_id.clone());
                },
                (None, Some(_content_type)) => {
                    if has_interaction_body {
                        insert_id(
                            &mut self.visited_with_unmatched_content_types,
                            request_id.clone(),
                        );
                    } else {
                        insert_id(
                            &mut self.visited_with_matched_content_types,
                            request_id.clone(),
                        );
                    }
                },
                (Some(_body), None) => {
                    insert_id(&mut self.visited_with_unmatched_content_types, request_id.clone());
                },
                (Some(body), Some(content_type)) => {
                    if body.http_content_type == *content_type {
                        insert_id(
                            &mut self.visited_with_matched_content_types,
                            request_id.clone(),
                        );
                        let interaction_trail = InteractionTrail::new(
                            vec![
                                InteractionTrailPathComponent::RequestBody {
                                    content_type: content_type.clone(),
                                },
                            ],
                        );
                        let requests_trail = RequestSpecTrail::SpecRequestBody(
                            SpecRequestBody { request_id: request_id.clone() },
                        );
                        self.results.push(
                            InteractionDiffResult::MatchedRequestBodyContentType(
                                MatchedRequestBodyContentType::new(
                                    interaction_trail,
                                    requests_trail,
                                    body.root_shape_id.clone(),
                                ),
                            ),
                        );
                    } else {
                        insert_id(
                            &mut self.visited_with_unmatched_content_types,
                            request_id.clone(),
                        );
                    }
                },
            }
        }
    }

    /// Emits the summary unmatched diff when no visit matched.
    pub fn end(&mut self, interaction: &HttpInteraction, context: &PathVisitorContext)
        ensures
            request_body_end_post(*old(self), *final(self), *interaction, *context),
    {
        if let Some(path_id) = context.path.as_ref() {
            if self.visited_with_matched_content_types.is_empty() {
                let mut interaction_trail = InteractionTrail::empty();
                interaction_trail.with_url(interaction.request.path.clone());
                interaction_trail.with_method(interaction.request.method.clone());
                if let Some(content_type) = interaction.request.body.content_type.as_ref() {
                    let mut path = interaction_trail.path;
                    path.push(
                        InteractionTrailPathComponent::RequestBody {
                            content_type: content_type.clone(),
                        },
                    );
                    interaction_trail = InteractionTrail::new(path);
                }
                let requests_trail = RequestSpecTrail::SpecPath(
                    SpecPath { path_id: path_id.clone() },
                );
                let diff = InteractionDiffResult::UnmatchedRequestBodyContentType(
                    UnmatchedRequestBodyContentType::new(interaction_trail, requests_trail),
                );
                self.results.push(diff);
            }
        }
    }
}

/// The diff recorded when a spec response body matches the interaction's
/// response content type.
pub open spec fn is_matched_response_body_diff(
    d: InteractionDiffResult,
    response_id: ResponseId,
    body: HttpBodyDescriptor,
    content_type: String,
    status_code: u16,
) -> bool {
    &&& d matches InteractionDiffResult::MatchedResponseBodyContentType(m)
    &&& (m.requests_trail matches RequestSpecTrail::SpecResponseBody(r)
        && r.response_id == response_id)
    &&& m.root_shape_id == body.root_shape_id
    &&& m.interaction_trail.path@.len() == 1
    &&& (m.interaction_trail.path@[0] matches InteractionTrailPathComponent::ResponseBody {
        content_type: ct,
        status_code: sc,
    } && ct == content_type && sc == status_code)
}

/// The summary diff recorded when no spec response body matched: its trail
/// carries the method, then the response content type with the status code
/// when there was one, or the status code alone.
pub open spec fn is_unmatched_response_body_diff(
    d: InteractionDiffResult,
    i: HttpInteraction,
    path_id: PathId,
) -> bool {
    &&& d matches InteractionDiffResult::UnmatchedResponseBodyContentType(u)
    &&& (u.requests_trail matches RequestSpecTrail::SpecPath(p) && p.path_id == path_id)
    &&& u.interaction_trail.path@.len() == 2
    &&& (u.interaction_trail.path@[0] matches InteractionTrailPathComponent::Method { method }
        && method == i.request.method)
    &&& (match i.response.body.content_type {
        Some(ct) => u.interaction_trail.path@[1]
            matches InteractionTrailPathComponent::ResponseBody { content_type, status_code }
            && content_type == ct && status_code == i.response.status_code,
        None => u.interaction_trail.path@[1]
            matches InteractionTrailPathComponent::ResponseStatusCode { status_code }
            && status_code == i.response.status_code,
    })
}

/// Compares the interaction's response body content type against each
/// candidate response of the spec.
pub struct DiffResponseBodyVisitor {
    pub results: DiffResults,
    pub visited_with_matched_content_types: Vec<ResponseId>,
    pub visited_with_unmatched_content_types: Vec<ResponseId>,
}

/// Everything one response-body visit does; the mirror image of
/// `request_body_visit_post` keyed by response id and carrying the status
/// code in the matched trail.
pub open spec fn response_body_visit_post(
    pre: DiffResponseBodyVisitor,
    post: DiffResponseBodyVisitor,
    i: HttpInteraction,
    c: ResponseBodyVisitorContext,
) -> bool {
    match c.response {
        None => post == pre,
        Some((response_id, descriptor)) => {
            let ct = i.response.body.content_type;
            let has_value = i.response.body.value is Some;
            let matched = spec_body_matches(descriptor.body, ct, has_value);
            &&& (matched ==> (post.visited_with_matched_content_types@ == spec_insert_id(
                pre.visited_with_matched_content_types@,
                response_id,
            ) && post.visited_with_unmatched_content_types@
                == pre.visited_with_unmatched_content_types@))
            &&& (!matched ==> (post.visited_with_unmatched_content_types@ == spec_insert_id(
                pre.visited_with_unmatched_content_types@,
                response_id,
            ) && post.visited_with_matched_content_types@
                == pre.visited_with_matched_content_types@))
            &&& (spec_content_type_matched(descriptor.body, ct) ==> (post.spec_results()
                == pre.spec_results().push(post.spec_results().last())
                && is_matched_response_body_diff(
                post.spec_results().last(),
                response_id,
                descriptor.body.unwrap(),
                ct.unwrap(),
                i.response.status_code,
            )))
            &&& (!spec_content_type_matched(descriptor.body, ct) ==> post.spec_results()
                == pre.spec_results())
        },
    }
}

/// Everything the response-body end does; the mirror image of
/// `request_body_end_post`.
pub open spec fn response_body_end_post(
    pre: DiffResponseBodyVisitor,
    post: DiffResponseBodyVisitor,
    i: HttpInteraction,
    c: PathVisitorContext,
) -> bool {
    &&& post.visited_with_matched_content_types@ == pre.visited_with_matched_content_types@
    &&& post.visited_with_unmatched_content_types@ == pre.visited_with_unmatched_content_types@
    &&& (match c.path {
        Some(path_id) => if pre.visited_with_matched_content_types@.len() == 0 {
            post.spec_results() == pre.spec_results().push(post.spec_results().last())
                && is_unmatched_response_body_diff(post.spec_results().last(), i, path_id)
        } else {
            post.spec_results() == pre.spec_results()
        },
        None => post.spec_results() == pre.spec_results(),
    })
}

impl DiffResponseBodyVisitor {
    /// The results recorded so far, in emission order.
    pub open spec fn spec_results(self) -> Seq<InteractionDiffResult> {
        self.results.results@
    }

    /// A fresh response-body visitor: empty buffer, empty sets.
    pub fn new() -> (r: DiffResponseBodyVisitor)
        ensures
            r.spec_results().len() == 0,
            r.visited_with_matched_content_types@.len() == 0,
            r.visited_with_unmatched_content_types@.len() == 0,
    {
        DiffResponseBodyVisitor {
            results: DiffResults::new(),
            visited_with_matched_content_types: Vec::new(),
            visited_with_unmatched_content_types: Vec::new(),
        }
    }

    /// Read access to the results buffer.
    pub fn results(&self) -> (r: &DiffResults)
        ensures
            *r == self.results,
    {
        &self.results
    }

    /// The response-body stage records nothing before its visits.
    pub fn begin(&mut self)
        ensures
            *final(self) == *old(self),
    {
    }

    /// One candidate response held against the interaction's response body.
    pub fn visit(&mut self, interaction: &HttpInteraction, context: &ResponseBodyVisitorContext)
        ensures
            response_body_visit_post(*old(self), *final(self), *interaction, *context),
    {
        if let Some(response) = context.response.as_ref() {
            let response_id = &response.0;
            let response_descriptor = &response.1;
            let has_interaction_body = interaction.response.body.value.is_some();
            match (
                response_descriptor.body.as_ref(),
                interaction.response.body.content_type.as_ref(),
            ) {
                (None, None) => {
                    insert_id(&mut self.visited_with_matched_content_types, response_id.clone());
                },
                (None, Some(_content_type)) => {
                    if has_interaction_body {
                        insert_id(
                            &mut self.visited_with_unmatched_content_types,
                            response_id.clone(),
                        );
                    } else {
                        insert_id(
                            &mut self.visited_with_matched_content_types,
                            response_id.clone(),
                        );
                    }
                },
                (Some(_body), None) => {
                    insert_id(&mut self.visited_with_unmatched_content_types, response_id.clone());
                },
                (Some(body), Some(content_type)) => {
                    if body.http_content_type == *content_type {
                        insert_id(
                            &mut self.visited_with_matched_content_types,
                            response_id.clone(),
                        );
                        let interaction_trail = InteractionTrail::new(
                            vec![
                                InteractionTrailPathComponent::ResponseBody {
                                    content_type: content_type.clone(),
                                    status_code: interaction.response.status_code,
                                },
                            ],
                        );
                        let requests_trail = RequestSpecTrail::SpecResponseBody(
                            SpecResponseBody { response_id: response_id.clone() },
                        );
                        self.results.push(
                            InteractionDiffResult::MatchedResponseBodyContentType(
                                MatchedResponseBodyContentType::new(
                                    interaction_trail,
                                    requests_trail,
                                    body.root_shape_id.clone(),
                                ),
                            ),
                        );
                    } else {
                        insert_id(
                            &mut self.visited_with_unmatched_content_types,
                            response_id.clone(),
                        );
                    }
                },
            }
        }
    }

    /// Emits the summary unmatched diff when no visit matched.
    pub fn end(&mut self, interaction: &HttpInteraction, context: &PathVisitorContext)
        ensures
            response_body_end_post(*old(self), *final(self), *interaction, *context),
    {
        if let Some(path_id) = context.path.as_ref() {
            if self.visited_with_matched_content_types.is_empty() {
                let mut path = Vec::new();
                path.push(
                    InteractionTrailPathComponent::Method {
                        method: interaction.request.method.clone(),
                    },
                );
                if let Some(content_type) = interaction.response.body.content_type.as_ref() {
                    path.push(
                        InteractionTrailPathComponent::ResponseBody {
                            content_type: content_type.clone(),
                            status_code: interaction.response.status_code,
                        },
                    );
                } else {
                    path.push(
                        InteractionTrailPathComponent::ResponseStatusCode {
                            status_code: interaction.response.status_code,
                        },
                    );
                }
                let interaction_trail = InteractionTrail::new(path);
                let responses_trail = RequestSpecTrail::SpecPath(
                    SpecPath { path_id: path_id.clone() },
                );
                let diff = InteractionDiffResult::UnmatchedResponseBodyContentType(
                    UnmatchedResponseBodyContentType::new(interaction_trail, responses_trail),
                );
                self.results.push(diff);
            }
        }
    }
}

/// The four visitors of one diff run, in pipeline order.
pub struct DiffVisitors {
    pub path: DiffPathVisitor,
    pub query_params: DiffQueryParametersVisitor,
    pub request_body: DiffRequestBodyVisitor,
    pub response_body: DiffResponseBodyVisitor,
}

impl DiffVisitors {
    /// A fresh pipeline: every visitor starts with an empty buffer and empty
    /// sets.
    pub fn new() -> (r: DiffVisitors)
        ensures
            r.path.spec_results().len() == 0,
            r.query_params.spec_results().len() == 0,
            r.request_body.spec_results().len() == 0,
            r.request_body.visited_with_matched_content_types@.len() == 0,
            r.request_body.visited_with_unmatched_content_types@.len() == 0,
            r.response_body.spec_results().len() == 0,
            r.response_body.visited_with_matched_content_types@.len() == 0,
            r.response_body.visited_with_unmatched_content_types@.len() == 0,
    {
        DiffVisitors {
            path: DiffPathVisitor::new(),
            query_params: DiffQueryParametersVisitor::new(),
            request_body: DiffRequestBodyVisitor::new(),
            response_body: DiffResponseBodyVisitor::new(),
        }
    }

    /// Gives all recorded diffs out, concatenated in pipeline order: path,
    /// query parameters, request body, response body. Diff emission order is
    /// part of the contract.
    pub fn take_results(self) -> (r: Vec<InteractionDiffResult>)
        ensures
            r@ == self.path.spec_results() + self.query_params.spec_results()
                + self.request_body.spec_results() + self.response_body.spec_results(),
    {
        let DiffVisitors { path, query_params, request_body, response_body } = self;
        let mut out = path.results.into_vec();
        let mut from_query = query_params.results.into_vec();
        let mut from_request = request_body.results.into_vec();
        let mut from_response = response_body.results.into_vec();
        out.append(&mut from_query);
        out.append(&mut from_request);
        out.append(&mut from_response);
        out
    }
}

/// Whether some `MatchedRequestBodyContentType` has been recorded.
pub open spec fn has_matched_request_body_diff(rs: Seq<InteractionDiffResult>) -> bool {
    exists|i: int|
        0 <= i < rs.len() && rs[i] is MatchedRequestBodyContentType
}

/// Whether some `UnmatchedRequestBodyContentType` has been recorded.
pub open spec fn has_unmatched_request_body_diff(rs: Seq<InteractionDiffResult>) -> bool {
    exists|i: int|
        0 <= i < rs.len() && rs[i] is UnmatchedRequestBodyContentType
}

impl DiffRequestBodyVisitor {
    /// Holds between `new` and `end`: the summary unmatched diff has not been
    /// recorded, and a matched diff is only ever recorded together with its
    /// operation in the matched set.
    pub open spec fn exclusivity_inv(self) -> bool {
        &&& !has_unmatched_request_body_diff(self.spec_results())
        &&& (has_matched_request_body_diff(self.spec_results())
            ==> self.visited_with_matched_content_types@.len() > 0)
    }
}

/// A fresh request-body visitor satisfies the exclusivity invariant.
pub proof fn lemma_request_body_new_exclusivity(v: DiffRequestBodyVisitor)
    requires
        v.spec_results().len() == 0,
        v.visited_with_matched_content_types@.len() == 0,
    ensures
        v.exclusivity_inv(),
{
}

/// Every visit preserves the exclusivity invariant: a matched diff is pushed
/// only together with an insertion into the matched set, and no visit pushes
/// the summary unmatched diff.
pub proof fn lemma_request_body_visit_preserves_exclusivity(
    pre: DiffRequestBodyVisitor,
    post: DiffRequestBodyVisitor,
    i: HttpInteraction,
    c: RequestBodyVisitorContext,
)
    requires
        pre.exclusivity_inv(),
        request_body_visit_post(pre, post, i, c),
    ensures
        post.exclusivity_inv(),
{
    match c.operation {
        None => {},
        Some((request_id, descriptor)) => {
            let ct = i.request.body.content_type;
            if spec_content_type_matched(descriptor.body, ct) {
                let n = pre.spec_results().len() as int;
                assert(post.spec_results().len() == n + 1);
                assert forall|j: int|
                    0 <= j < post.spec_results().len() implies !(post.spec_results()[j]
                    is UnmatchedRequestBodyContentType) by {
                    if j < n {
                        assert(post.spec_results()[j] == pre.spec_results()[j]);
                        assert(!has_unmatched_request_body_diff(pre.spec_results()));
                    }
                }
                assert(post.visited_with_matched_content_types@ == spec_insert_id(
                    pre.visited_with_matched_content_types@,
                    request_id,
                ));
                assert(post.visited_with_matched_content_types@.len() > 0);
            } else {
                assert(post.spec_results() == pre.spec_results());
                if has_matched_request_body_diff(post.spec_results()) {
                    assert(has_matched_request_body_diff(pre.spec_results()));
                    assert(pre.visited_with_matched_content_types@.len() > 0);
                    let matched = spec_body_matches(
                        descriptor.body,
                        ct,
                        i.request.body.value is Some,
                    );
                    if matched {
                        assert(post.visited_with_matched_content_types@.len() > 0);
                    } else {
                        assert(post.visited_with_matched_content_types@
                            == pre.visited_with_matched_content_types@);
                    }
                }
            }
        },
    }
}

/// Diff exclusivity: once `end` has run, the results never hold both a
/// matched request-body diff and the summary unmatched one — `end` emits the
/// summary only when no visit matched, and no visit ever emits it.
pub proof fn lemma_request_body_diff_exclusivity(
    pre: DiffRequestBodyVisitor,
    post: DiffRequestBodyVisitor,
    i: HttpInteraction,
    c: PathVisitorContext,
)
    requires
        pre.exclusivity_inv(),
        request_body_end_post(pre, post, i, c),
    ensures
        !(has_matched_request_body_diff(post.spec_results()) && has_unmatched_request_body_diff(
            post.spec_results(),
        )),
{
    let n = pre.spec_results().len() as int;
    if has_matched_request_body_diff(post.spec_results()) && has_unmatched_request_body_diff(
        post.spec_results(),
    ) {
        match c.path {
            Some(path_id) => {
                if pre.visited_with_matched_content_types@.len() == 0 {
                    let j = choose|j: int|
                        0 <= j < post.spec_results().len() && post.spec_results()[j]
                            is MatchedRequestBodyContentType;
                    if j < n {
                        assert(post.spec_results()[j] == pre.spec_results()[j]);
                        assert(has_matched_request_body_diff(pre.spec_results()));
                    } else {
                        assert(post.spec_results()[j] == post.spec_results().last());
                    }
                } else {
                    assert(post.spec_results() == pre.spec_results());
                }
            },
            None => {
                assert(post.spec_results() == pre.spec_results());
            },
        }
    }
}

/// Whether some `MatchedResponseBodyContentType` has been recorded.
pub open spec fn has_matched_response_body_diff(rs: Seq<InteractionDiffResult>) -> bool {
    exists|i: int|
        0 <= i < rs.len() && rs[i] is MatchedResponseBodyContentType
}

/// Whether some `UnmatchedResponseBodyContentType` has been recorded.
pub open spec fn has_unmatched_response_body_diff(rs: Seq<InteractionDiffResult>) -> bool {
    exists|i: int|
        0 <= i < rs.len() && rs[i] is UnmatchedResponseBodyContentType
}

impl DiffResponseBodyVisitor {
    /// The response-side mirror of `DiffRequestBodyVisitor::exclusivity_inv`.
    pub open spec fn exclusivity_inv(self) -> bool {
        &&& !has_unmatched_response_body_diff(self.spec_results())
        &&& (has_matched_response_body_diff(self.spec_results())
            ==> self.visited_with_matched_content_types@.len() > 0)
    }
}

/// A fresh response-body visitor satisfies the exclusivity invariant.
pub proof fn lemma_response_body_new_exclusivity(v: DiffResponseBodyVisitor)
    requires
        v.spec_results().len() == 0,
        v.visited_with_matched_content_types@.len() == 0,
    ensures
        v.exclusivity_inv(),
{
}

/// Every visit preserves the response-side exclusivity invariant.
pub proof fn lemma_response_body_visit_preserves_exclusivity(
    pre: DiffResponseBodyVisitor,
    post: DiffResponseBodyVisitor,
    i: HttpInteraction,
    c: ResponseBodyVisitorContext,
)
    requires
        pre.exclusivity_inv(),
        response_body_visit_post(pre, post, i, c),
    ensures
        post.exclusivity_inv(),
{
    match c.response {
        None => {},
        Some((response_id, descriptor)) => {
            let ct = i.response.body.content_type;
            if spec_content_type_matched(descriptor.body, ct) {
                let n = pre.spec_results().len() as int;
                assert(post.spec_results().len() == n + 1);
                assert forall|j: int|
                    0 <= j < post.spec_results().len() implies !(post.spec_results()[j]
                    is UnmatchedResponseBodyContentType) by {
                    if j < n {
                        assert(post.spec_results()[j] == pre.spec_results()[j]);
                        assert(!has_unmatched_response_body_diff(pre.spec_results()));
                    }
                }
                assert(post.visited_with_matched_content_types@ == spec_insert_id(
                    pre.visited_with_matched_content_types@,
                    response_id,
                ));
                assert(post.visited_with_matched_content_types@.len() > 0);
            } else {
                assert(post.spec_results() == pre.spec_results());
                if has_matched_response_body_diff(post.spec_results()) {
                    assert(has_matched_response_body_diff(pre.spec_results()));
                    assert(pre.visited_with_matched_content_types@.len() > 0);
                    let matched = spec_body_matches(
                        descriptor.body,
                        ct,
                        i.response.body.value is Some,
                    );
                    if matched {
                        assert(post.visited_with_matched_content_types@.len() > 0);
                    } else {
                        assert(post.visited_with_matched_content_types@
                            == pre.visited_with_matched_content_types@);
                    }
                }
            }
        },
    }
}

/// Diff exclusivity on the response side: after `end`, a matched
/// response-body diff and the summary unmatched one never coexist.
pub proof fn lemma_response_body_diff_exclusivity(
    pre: DiffResponseBodyVisitor,
    post: DiffResponseBodyVisitor,
    i: HttpInteraction,
    c: PathVisitorContext,
)
    requires
        pre.exclusivity_inv(),
        response_body_end_post(pre, post, i, c),
    ensures
        !(has_matched_response_body_diff(post.spec_results()) && has_unmatched_response_body_diff(
            post.spec_results(),
        )),
{
    let n = pre.spec_results().len() as int;
    if has_matched_response_body_diff(post.spec_results()) && has_unmatched_response_body_diff(
        post.spec_results(),
    ) {
        match c.path {
            Some(path_id) => {
                if pre.visited_with_matched_content_types@.len() == 0 {
                    let j = choose|j: int|
                        0 <= j < post.spec_results().len() && post.spec_results()[j]
                            is MatchedResponseBodyContentType;
                    if j < n {
                        assert(post.spec_results()[j] == pre.spec_results()[j]);
                        assert(has_matched_response_body_diff(pre.spec_results()));
                    } else {
                        assert(post.spec_results()[j] == post.spec_results().last());
                    }
                } else {
                    assert(post.spec_results() == pre.spec_results());
                }
            },
            None => {
                assert(post.spec_results() == pre.spec_results());
            },
        }
    }
}

} // verus!
