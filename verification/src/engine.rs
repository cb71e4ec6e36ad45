//! One diff run, end to end: fold the event stream into the two
//! projections, resolve the interaction URL against the path tree, and
//! drive the visitor pipeline in its fixed order.

use vstd::prelude::*;
use vstd::string::StringExecFns;
use crate::endpoint::{PathId, RequestDescriptor, ResponseDescriptor};
use crate::endpoint_projection::{
    body_option_model, find_path_model, spec_request_candidates, spec_response_candidates,
    EndpointProjection, EndpointProjectionModel, HttpBodyModel, PathEntry, PathEntryModel,
    RequestEntryModel, ResponseEntryModel,
};
use crate::events::SpecEvent;
use crate::interaction::HttpInteraction;
use crate::projection::{spec_project, ShapeProjection};
use crate::results::{
    InteractionDiffResult, InteractionTrailPathComponent, RequestSpecTrail,
};
use crate::visitors::{
    is_unmatched_query_parameters_diff, is_unmatched_request_url_diff, spec_body_matches,
    spec_content_type_matched, DiffRequestBodyVisitor, DiffResponseBodyVisitor, DiffVisitors,
    PathVisitorContext, QueryParametersVisitorContext, RequestBodyVisitorContext,
    ResponseBodyVisitorContext,
};

verus! {

/// Both projections of one spec, built from the same event stream.
pub struct Projections {
    pub shape: ShapeProjection,
    pub endpoint: EndpointProjection,
}

/// Folds an event stream into the shape projection and the endpoint
/// projection, in stream order.
pub fn build_projections(events: Vec<SpecEvent>) -> (r: Projections)
    ensures
        r.shape.model() == spec_project(events@),
        r.endpoint.model() == crate::endpoint_projection::spec_project_endpoints(events@),
{
    let endpoint = EndpointProjection::from_events(&events);
    let shape = ShapeProjection::from_events(events);
    Projections { shape, endpoint }
}

/// The absolute route a path node names: its ancestors' names joined by
/// slashes, from the implicit root (the empty route) down. Nothing for an
/// orphaned node or one whose parent chain exceeds the fuel.
pub open spec fn spec_route_of(paths: Seq<PathEntryModel>, id: Seq<char>, fuel: nat) -> Option<
    Seq<char>,
>
    decreases fuel,
{
    if id == "root"@ {
        Some(Seq::empty())
    } else if fuel == 0 {
        None
    } else {
        match find_path_model(paths, id) {
            None => None,
            Some(entry) => match spec_route_of(paths, entry.parent_path_id, (fuel - 1) as nat) {
                None => None,
                Some(parent_route) => Some(parent_route + "/"@ + entry.name),
            },
        }
    }
}

/// Whether a path node's route equals the URL.
pub open spec fn route_matches(m: EndpointProjectionModel, e: PathEntryModel, url: Seq<char>) -> (
    bool) {
    spec_route_of(m.paths, e.path_id, m.paths.len()) == Some(url)
}

/// The first of the listed path nodes whose route equals the URL.
pub open spec fn spec_first_route_match(
    m: EndpointProjectionModel,
    paths: Seq<PathEntryModel>,
    url: Seq<char>,
) -> Option<Seq<char>>
    decreases paths.len(),
{
    if paths.len() == 0 {
        None
    } else if route_matches(m, paths[0], url) {
        Some(paths[0].path_id)
    } else {
        spec_first_route_match(m, paths.drop_first(), url)
    }
}

/// The search may skip a prefix in which no route matches.
pub proof fn lemma_first_route_match_skip(
    m: EndpointProjectionModel,
    paths: Seq<PathEntryModel>,
    url: Seq<char>,
    i: int,
)
    requires
        0 <= i <= paths.len(),
        forall|j: int| 0 <= j < i ==> !route_matches(m, #[trigger] paths[j], url),
    ensures
        spec_first_route_match(m, paths, url) == spec_first_route_match(m, paths.skip(i), url),
    decreases i,
{
    if i == 0 {
        assert(paths.skip(0) =~= paths);
    } else {
        assert(!route_matches(m, paths[0], url));
        lemma_first_route_match_skip(m, paths.drop_first(), url, i - 1);
        assert(paths.drop_first().skip(i - 1) =~= paths.skip(i));
    }
}

/// The path a URL resolves to: the root for `/`, otherwise the first path
/// node whose route equals the URL.
pub open spec fn spec_resolve_path(m: EndpointProjectionModel, url: Seq<char>) -> Option<
    Seq<char>,
> {
    if url == "/"@ {
        Some("root"@)
    } else {
        spec_first_route_match(m, m.paths, url)
    }
}

impl EndpointProjection {
    /// The first path with this id, if any.
    fn find_path(&self, path_id: &PathId) -> (r: Option<&PathEntry>)
        ensures
            r matches Some(e) ==> find_path_model(self.model().paths, path_id@) == Some(e.model()),
            r is None ==> find_path_model(self.model().paths, path_id@) is None,
    {
        let ghost p = |e: PathEntryModel| e.path_id == path_id@;
        let n = self.paths.len();
        let mut i: usize = 0;
        while i < n
            invariant
                n == self.paths@.len(),
                i <= n,
                forall|j: int| 0 <= j < i ==> !p(#[trigger] self.model().paths[j]),
                p == (|e: PathEntryModel| e.path_id == path_id@),
            decreases n - i,
        {
            if self.paths[i].path_id == *path_id {
                proof {
                    crate::projection::lemma_spec_find_skip(self.model().paths, p, i as int);
                    assert(self.model().paths.skip(i as int)[0] == self.model().paths[i as int]);
                }
                return Some(&self.paths[i]);
            }
            i += 1;
        }
        proof {
            crate::projection::lemma_spec_find_skip(self.model().paths, p, n as int);
            assert(self.model().paths.skip(n as int).len() == 0);
        }
        None
    }

    /// The absolute route of a path node, walking the parent chain within
    /// the fuel.
    fn route_of(&self, path_id: &PathId, fuel: usize) -> (r: Option<String>)
        ensures
            r matches Some(s) ==> spec_route_of(self.model().paths, path_id@, fuel as nat)
                == Some(s@),
            r is None ==> spec_route_of(self.model().paths, path_id@, fuel as nat) is None,
        decreases fuel,
    {
        if *path_id == "root".to_owned() {
            let empty = String::new();
            return Some(empty);
        }
        if fuel == 0 {
            return None;
        }
        match self.find_path(path_id) {
            None => None,
            Some(entry) => match self.route_of(&entry.parent_path_id, fuel - 1) {
                None => None,
                Some(parent_route) => {
                    let mut route = parent_route;
                    route.append("/");
                    route.append(entry.name.as_str());
                    Some(route)
                },
            },
        }
    }

    /// Resolves an interaction URL to a known path, exactly as
    /// `spec_resolve_path` says.
    pub fn resolve_path(&self, url: &String) -> (r: Option<PathId>)
        ensures
            r matches Some(pid) ==> spec_resolve_path(self.model(), url@) == Some(pid@),
            r is None ==> spec_resolve_path(self.model(), url@) is None,
    {
        if *url == "/".to_owned() {
            return Some("root".to_owned());
        }
        let ghost m = self.model();
        let fuel = self.paths.len();
        let n = self.paths.len();
        let mut i: usize = 0;
        while i < n
            invariant
                n == self.paths@.len(),
                fuel == n,
                i <= n,
                m == self.model(),
                url@ != "/"@,
                forall|j: int| 0 <= j < i ==> !route_matches(m, #[trigger] m.paths[j], url@),
            decreases n - i,
        {
            match self.route_of(&self.paths[i].path_id, fuel) {
                Some(route) => {
                    if route == *url {
                        proof {
                            assert(route_matches(m, m.paths[i as int], url@));
                            lemma_first_route_match_skip(m, m.paths, url@, i as int);
                            assert(m.paths.skip(i as int)[0] == m.paths[i as int]);
                        }
                        return Some(self.paths[i].path_id.clone());
                    }
                    proof {
                        assert(!route_matches(m, m.paths[i as int], url@));
                    }
                },
                None => {
                    proof {
                        assert(!route_matches(m, m.paths[i as int], url@));
                    }
                },
            }
            i += 1;
        }
        proof {
            lemma_first_route_match_skip(m, m.paths, url@, n as int);
            assert(m.paths.skip(n as int).len() == 0);
        }
        None
    }
}

/// Whether a declared body (at the character level) accepts the interaction
/// side it is held against; mirrors `spec_body_matches`.
pub open spec fn spec_entry_body_matches(
    body: Option<HttpBodyModel>,
    content_type: Option<String>,
    has_value: bool,
) -> bool {
    match (body, content_type) {
        (None, None) => true,
        (None, Some(_)) => !has_value,
        (Some(_), None) => false,
        (Some(b), Some(ct)) => b.http_content_type == ct@,
    }
}

/// Whether a declared body and an interaction content type are both present
/// and equal; mirrors `spec_content_type_matched`.
pub open spec fn spec_entry_content_type_matched(
    body: Option<HttpBodyModel>,
    content_type: Option<String>,
) -> bool {
    body matches Some(b) && (content_type matches Some(ct) && b.http_content_type == ct@)
}

/// The matched request-body diff for a spec entry, located by characters.
pub open spec fn matched_request_diff_for_entry(
    d: InteractionDiffResult,
    request_id: Seq<char>,
    body: HttpBodyModel,
    content_type: String,
) -> bool {
    &&& d matches InteractionDiffResult::MatchedRequestBodyContentType(m)
    &&& (m.requests_trail matches RequestSpecTrail::SpecRequestBody(r) && r.request_id@
        == request_id)
    &&& m.root_shape_id@ == body.root_shape_id
    &&& m.interaction_trail.path@.len() == 1
    &&& (m.interaction_trail.path@[0] matches InteractionTrailPathComponent::RequestBody {
        content_type: ct,
    } && ct == content_type)
}

/// The matched response-body diff for a spec entry, located by characters.
pub open spec fn matched_response_diff_for_entry(
    d: InteractionDiffResult,
    response_id: Seq<char>,
    body: HttpBodyModel,
    content_type: String,
    status_code: u16,
) -> bool {
    &&& d matches InteractionDiffResult::MatchedResponseBodyContentType(m)
    &&& (m.requests_trail matches RequestSpecTrail::SpecResponseBody(r) && r.response_id@
        == response_id)
    &&& m.root_shape_id@ == body.root_shape_id
    &&& m.interaction_trail.path@.len() == 1
    &&& (m.interaction_trail.path@[0] matches InteractionTrailPathComponent::ResponseBody {
        content_type: ct,
        status_code: sc,
    } && ct == content_type && sc == status_code)
}

/// How many diffs the request-body stage emits: one per matched content
/// type, plus the summary unmatched diff when nothing matched.
pub open spec fn request_stage_len(i: HttpInteraction, candidates: Seq<RequestEntryModel>) -> (
    int) {
    let ct = i.request.body.content_type;
    let has_value = i.request.body.value is Some;
    let emitted = candidates.filter(
        |c: RequestEntryModel| spec_entry_content_type_matched(c.body, ct),
    );
    let any_matched = exists|k: int|
        0 <= k < candidates.len() && spec_entry_body_matches(
            (#[trigger] candidates[k]).body,
            ct,
            has_value,
        );
    emitted.len() + (if any_matched {
        0int
    } else {
        1int
    })
}

/// Everything the request-body stage leaves in its buffer, given the
/// candidate operations of the resolved path: one matched diff per candidate
/// whose declared content type equals the interaction's, in candidate order,
/// and the one summary unmatched diff exactly when no candidate accepted the
/// request body.
pub open spec fn request_stage_results(
    rs: Seq<InteractionDiffResult>,
    i: HttpInteraction,
    path_id: Seq<char>,
    candidates: Seq<RequestEntryModel>,
) -> bool {
    let ct = i.request.body.content_type;
    let has_value = i.request.body.value is Some;
    let emitted = candidates.filter(
        |c: RequestEntryModel| spec_entry_content_type_matched(c.body, ct),
    );
    let any_matched = exists|k: int|
        0 <= k < candidates.len() && spec_entry_body_matches(
            (#[trigger] candidates[k]).body,
            ct,
            has_value,
        );
    &&& rs.len() == emitted.len() + (if any_matched {
        0int
    } else {
        1int
    })
    &&& (forall|t: int|
        0 <= t < emitted.len() ==> matched_request_diff_for_entry(
            #[trigger] rs[t],
            emitted[t].request_id,
            emitted[t].body.unwrap(),
            ct.unwrap(),
        ))
    &&& (!any_matched ==> unmatched_request_diff_at(rs.last(), i, path_id))
}

/// The summary unmatched request-body diff, located by characters.
pub open spec fn unmatched_request_diff_at(
    d: InteractionDiffResult,
    i: HttpInteraction,
    path_id: Seq<char>,
) -> bool {
    &&& d matches InteractionDiffResult::UnmatchedRequestBodyContentType(u)
    &&& (u.requests_trail matches RequestSpecTrail::SpecPath(p) && p.path_id@ == path_id)
    &&& (u.interaction_trail.path@.len() >= 2)
    &&& (u.interaction_trail.path@[0] matches InteractionTrailPathComponent::Url { path }
        && path == i.request.path)
    &&& (u.interaction_trail.path@[1] matches InteractionTrailPathComponent::Method { method }
        && method == i.request.method)
    &&& (match i.request.body.content_type {
        Some(ct) => u.interaction_trail.path@.len() == 3 && (u.interaction_trail.path@[2]
            matches InteractionTrailPathComponent::RequestBody { content_type }
            && content_type == ct),
        None => u.interaction_trail.path@.len() == 2,
    })
}

/// The summary unmatched response-body diff, located by characters.
pub open spec fn unmatched_response_diff_at(
    d: InteractionDiffResult,
    i: HttpInteraction,
    path_id: Seq<char>,
) -> bool {
    &&& d matches InteractionDiffResult::UnmatchedResponseBodyContentType(u)
    &&& (u.requests_trail matches RequestSpecTrail::SpecPath(p) && p.path_id@ == path_id)
    &&& u.interaction_trail.path@.len() == 2
    &&& (u.interaction_trail.path@[0] matches InteractionTrailPathComponent::Method { method }
        && method == i.request.method)
    &&& (match i.response.body.content_type {
        Some(ct) => u.interaction_trail.path@[1]
            matches InteractionTrailPathComponent::ResponseBody { content_type, status_code }
            && content_type == ct && status_code == i.response.status_code,
        None => u.interaction_trail.path@[1]
            matches InteractionTrailPathComponent::ResponseStatusCode { status_code }
            && status_code == i.response.status_code,
    })
}

/// Everything the response-body stage leaves in its buffer; the mirror image
/// of `request_stage_results`.
pub open spec fn response_stage_results(
    rs: Seq<InteractionDiffResult>,
    i: HttpInteraction,
    path_id: Seq<char>,
    candidates: Seq<ResponseEntryModel>,
) -> bool {
    let ct = i.response.body.content_type;
    let has_value = i.response.body.value is Some;
    let emitted = candidates.filter(
        |c: ResponseEntryModel| spec_entry_content_type_matched(c.body, ct),
    );
    let any_matched = exists|k: int|
        0 <= k < candidates.len() && spec_entry_body_matches(
            (#[trigger] candidates[k]).body,
            ct,
            has_value,
        );
    &&& rs.len() == emitted.len() + (if any_matched {
        0int
    } else {
        1int
    })
    &&& (forall|t: int|
        0 <= t < emitted.len() ==> matched_response_diff_for_entry(
            #[trigger] rs[t],
            emitted[t].response_id,
            emitted[t].body.unwrap(),
            ct.unwrap(),
            i.response.status_code,
        ))
    &&& (!any_matched ==> unmatched_response_diff_at(rs.last(), i, path_id))
}

/// Drives the request-body visitor over every candidate operation of the
/// resolved path, then closes the stage.
fn run_request_body_stage(
    visitor: &mut DiffRequestBodyVisitor,
    interaction: &HttpInteraction,
    endpoint: &EndpointProjection,
    path_id: &PathId,
)
    requires
        old(visitor).spec_results().len() == 0,
        old(visitor).visited_with_matched_content_types@.len() == 0,
    ensures
        request_stage_results(
            final(visitor).spec_results(),
            *interaction,
            path_id@,
            spec_request_candidates(endpoint.model(), path_id@, interaction.request.method@),
        ),
{
    let ghost cs = spec_request_candidates(endpoint.model(), path_id@, interaction.request.method@);
    let ghost ct = interaction.request.body.content_type;
    let ghost has_value = interaction.request.body.value is Some;
    let ghost mpred = |c: RequestEntryModel| spec_entry_content_type_matched(c.body, ct);
    let candidates = endpoint.requests_for(path_id, &interaction.request.method);
    let n = candidates.len();
    let mut k: usize = 0;
    proof {
        assert(cs.subrange(0, 0).filter(mpred) =~= Seq::<RequestEntryModel>::empty()) by {
            reveal(Seq::filter);
        }
    }
    while k < n
        invariant
            n == candidates@.len(),
            k <= n,
            candidates@.len() == cs.len(),
            forall|t: int|
                0 <= t < cs.len() ==> (#[trigger] candidates@[t]).0@ == cs[t].request_id
                    && body_option_model(candidates@[t].1.body) == cs[t].body,
            cs == spec_request_candidates(
                endpoint.model(),
                path_id@,
                interaction.request.method@,
            ),
            ct == interaction.request.body.content_type,
            has_value == (interaction.request.body.value is Some),
            mpred == (|c: RequestEntryModel| spec_entry_content_type_matched(c.body, ct)),
            visitor.spec_results().len() == cs.subrange(0, k as int).filter(mpred).len(),
            forall|t: int|
                0 <= t < visitor.spec_results().len() ==> matched_request_diff_for_entry(
                    #[trigger] visitor.spec_results()[t],
                    cs.subrange(0, k as int).filter(mpred)[t].request_id,
                    cs.subrange(0, k as int).filter(mpred)[t].body.unwrap(),
                    ct.unwrap(),
                ),
            (visitor.visited_with_matched_content_types@.len() == 0) <==> !(exists|t: int|
                0 <= t < k && spec_entry_body_matches((#[trigger] cs[t]).body, ct, has_value)),
        decreases n - k,
    {
        let ghost prefix = cs.subrange(0, k as int);
        let ghost next_prefix = cs.subrange(0, k as int + 1);
        proof {
            assert(next_prefix.drop_last() =~= prefix);
            assert(next_prefix.last() == cs[k as int]);
            reveal(Seq::filter);
        }
        let pair = &candidates[k];
        let descriptor_body = match &pair.1.body {
            Some(b) => Some(
                crate::endpoint::HttpBodyDescriptor {
                    http_content_type: b.http_content_type.clone(),
                    root_shape_id: b.root_shape_id.clone(),
                    is_removed: b.is_removed,
                },
            ),
            None => None,
        };
        let context = RequestBodyVisitorContext {
            path: path_id.clone(),
            operation: Some((pair.0.clone(), RequestDescriptor { body: descriptor_body })),
        };
        proof {
            assert(body_option_model(context.operation.unwrap().1.body) == cs[k as int].body);
            assert(spec_body_matches(context.operation.unwrap().1.body, ct, has_value)
                == spec_entry_body_matches(cs[k as int].body, ct, has_value));
            assert(spec_content_type_matched(context.operation.unwrap().1.body, ct)
                == spec_entry_content_type_matched(cs[k as int].body, ct));
        }
        visitor.visit(interaction, &context);
        proof {
            if spec_entry_content_type_matched(cs[k as int].body, ct) {
                assert(next_prefix.filter(mpred) == prefix.filter(mpred).push(cs[k as int]));
            } else {
                assert(next_prefix.filter(mpred) == prefix.filter(mpred));
            }
        }
        k += 1;
    }
    proof {
        assert(cs.subrange(0, n as int) =~= cs);
    }
    visitor.end(interaction, &PathVisitorContext { path: Some(path_id.clone()) });
}

/// Drives the response-body visitor over every candidate response of the
/// resolved path, then closes the stage.
fn run_response_body_stage(
    visitor: &mut DiffResponseBodyVisitor,
    interaction: &HttpInteraction,
    endpoint: &EndpointProjection,
    path_id: &PathId,
)
    requires
        old(visitor).spec_results().len() == 0,
        old(visitor).visited_with_matched_content_types@.len() == 0,
    ensures
        response_stage_results(
            final(visitor).spec_results(),
            *interaction,
            path_id@,
            spec_response_candidates(
                endpoint.model(),
                path_id@,
                interaction.request.method@,
                interaction.response.status_code,
            ),
        ),
{
    let ghost cs = spec_response_candidates(
        endpoint.model(),
        path_id@,
        interaction.request.method@,
        interaction.response.status_code,
    );
    let ghost ct = interaction.response.body.content_type;
    let ghost has_value = interaction.response.body.value is Some;
    let ghost mpred = |c: ResponseEntryModel| spec_entry_content_type_matched(c.body, ct);
    let candidates = endpoint.responses_for(
        path_id,
        &interaction.request.method,
        interaction.response.status_code,
    );
    let n = candidates.len();
    let mut k: usize = 0;
    proof {
        assert(cs.subrange(0, 0).filter(mpred) =~= Seq::<ResponseEntryModel>::empty()) by {
            reveal(Seq::filter);
        }
    }
    while k < n
        invariant
            n == candidates@.len(),
            k <= n,
            candidates@.len() == cs.len(),
            forall|t: int|
                0 <= t < cs.len() ==> (#[trigger] candidates@[t]).0@ == cs[t].response_id
                    && body_option_model(candidates@[t].1.body) == cs[t].body,
            cs == spec_response_candidates(
                endpoint.model(),
                path_id@,
                interaction.request.method@,
                interaction.response.status_code,
            ),
            ct == interaction.response.body.content_type,
            has_value == (interaction.response.body.value is Some),
            mpred == (|c: ResponseEntryModel| spec_entry_content_type_matched(c.body, ct)),
            visitor.spec_results().len() == cs.subrange(0, k as int).filter(mpred).len(),
            forall|t: int|
                0 <= t < visitor.spec_results().len() ==> matched_response_diff_for_entry(
                    #[trigger] visitor.spec_results()[t],
                    cs.subrange(0, k as int).filter(mpred)[t].response_id,
                    cs.subrange(0, k as int).filter(mpred)[t].body.unwrap(),
                    ct.unwrap(),
                    interaction.response.status_code,
                ),
            (visitor.visited_with_matched_content_types@.len() == 0) <==> !(exists|t: int|
                0 <= t < k && spec_entry_body_matches((#[trigger] cs[t]).body, ct, has_value)),
        decreases n - k,
    {
        let ghost prefix = cs.subrange(0, k as int);
        let ghost next_prefix = cs.subrange(0, k as int + 1);
        proof {
            assert(next_prefix.drop_last() =~= prefix);
            assert(next_prefix.last() == cs[k as int]);
            reveal(Seq::filter);
        }
        let pair = &candidates[k];
        let descriptor_body = match &pair.1.body {
            Some(b) => Some(
                crate::endpoint::HttpBodyDescriptor {
                    http_content_type: b.http_content_type.clone(),
                    root_shape_id: b.root_shape_id.clone(),
                    is_removed: b.is_removed,
                },
            ),
            None => None,
        };
        let context = ResponseBodyVisitorContext {
            path: path_id.clone(),
            response: Some((pair.0.clone(), ResponseDescriptor { body: descriptor_body })),
        };
        proof {
            assert(body_option_model(context.response.unwrap().1.body) == cs[k as int].body);
            assert(spec_body_matches(context.response.unwrap().1.body, ct, has_value)
                == spec_entry_body_matches(cs[k as int].body, ct, has_value));
            assert(spec_content_type_matched(context.response.unwrap().1.body, ct)
                == spec_entry_content_type_matched(cs[k as int].body, ct));
        }
        visitor.visit(interaction, &context);
        proof {
            if spec_entry_content_type_matched(cs[k as int].body, ct) {
                assert(next_prefix.filter(mpred) == prefix.filter(mpred).push(cs[k as int]));
            } else {
                assert(next_prefix.filter(mpred) == prefix.filter(mpred));
            }
        }
        k += 1;
    }
    proof {
        assert(cs.subrange(0, n as int) =~= cs);
    }
    visitor.end(interaction, &PathVisitorContext { path: Some(path_id.clone()) });
}

/// Compares one interaction against the projected spec and collects the
/// diffs in emission order: path, query parameters, request body, response
/// body. A URL that resolves to no path yields exactly the one
/// `UnmatchedRequestUrl`; otherwise the query stage reports the spec's
/// missing query declaration (no event of this stream declares one), and
/// the body stages compare content types against every candidate operation
/// and response.
#[verifier::rlimit(100)]
pub fn diff(interaction: &HttpInteraction, projections: &Projections) -> (r: Vec<
    InteractionDiffResult,
>)
    ensures
        ({
            let em = projections.endpoint.model();
            match spec_resolve_path(em, interaction.request.path@) {
                None => r@.len() == 1 && is_unmatched_request_url_diff(r@[0], *interaction),
                Some(pid) => {
                    let request_candidates = spec_request_candidates(
                        em,
                        pid,
                        interaction.request.method@,
                    );
                    let response_candidates = spec_response_candidates(
                        em,
                        pid,
                        interaction.request.method@,
                        interaction.response.status_code,
                    );
                    let request_len = request_stage_len(*interaction, request_candidates);
                    &&& 1 + request_len <= r@.len()
                    &&& is_unmatched_query_parameters_diff_at(r@[0], *interaction, pid)
                    &&& request_stage_results(
                        r@.subrange(1, 1 + request_len),
                        *interaction,
                        pid,
                        request_candidates,
                    )
                    &&& response_stage_results(
                        r@.subrange(1 + request_len, r@.len() as int),
                        *interaction,
                        pid,
                        response_candidates,
                    )
                },
            }
        }),
{
    let mut visitors = DiffVisitors::new();
    let resolved = projections.endpoint.resolve_path(&interaction.request.path);
    let path_context = PathVisitorContext { path: resolved };
    visitors.path.visit(interaction, &path_context);
    match path_context.path {
        None => {
            let ghost path_results = visitors.path.spec_results();
            let r = visitors.take_results();
            proof {
                assert(r@ =~= path_results);
                assert(is_unmatched_request_url_diff(r@[0], *interaction));
            }
            r
        },
        Some(path_id) => {
            visitors.query_params.visit(
                interaction,
                &QueryParametersVisitorContext { path: path_id.clone(), query: None },
            );
            run_request_body_stage(
                &mut visitors.request_body,
                interaction,
                &projections.endpoint,
                &path_id,
            );
            run_response_body_stage(
                &mut visitors.response_body,
                interaction,
                &projections.endpoint,
                &path_id,
            );
            let ghost em = projections.endpoint.model();
            let ghost query_results = visitors.query_params.spec_results();
            let ghost request_results = visitors.request_body.spec_results();
            let ghost response_results = visitors.response_body.spec_results();
            let r = visitors.take_results();
            proof {
                let request_len = request_results.len() as int;
                assert(request_len == request_stage_len(
                    *interaction,
                    spec_request_candidates(em, path_id@, interaction.request.method@),
                ));
                assert(r@.len() == 1 + request_len + response_results.len());
                assert(r@.subrange(1, 1 + request_len) =~= request_results);
                assert(r@.subrange(1 + request_len, r@.len() as int) =~= response_results);
                assert(r@[0] == query_results[0]);
                assert(is_unmatched_query_parameters_diff(r@[0], *interaction, path_id));
                assert(is_unmatched_query_parameters_diff_at(r@[0], *interaction, path_id@));
                assert(request_stage_results(
                    r@.subrange(1, 1 + request_len),
                    *interaction,
                    path_id@,
                    spec_request_candidates(em, path_id@, interaction.request.method@),
                ));
                assert(response_stage_results(
                    r@.subrange(1 + request_len, r@.len() as int),
                    *interaction,
                    path_id@,
                    spec_response_candidates(
                        em,
                        path_id@,
                        interaction.request.method@,
                        interaction.response.status_code,
                    ),
                ));
            }
            r
        },
    }
}

/// The query-parameters diff for a spec path, located by characters.
pub open spec fn is_unmatched_query_parameters_diff_at(
    d: InteractionDiffResult,
    i: HttpInteraction,
    path_id: Seq<char>,
) -> bool {
    &&& d matches InteractionDiffResult::UnmatchedQueryParameters(u)
    &&& (u.requests_trail matches RequestSpecTrail::SpecPath(p) && p.path_id@ == path_id)
    &&& u.had_query == (i.request.query is Some)
    &&& u.interaction_trail.path@.len() == 2
    &&& (u.interaction_trail.path@[0] matches InteractionTrailPathComponent::Url { path }
        && path == i.request.path)
    &&& (u.interaction_trail.path@[1] matches InteractionTrailPathComponent::Method { method }
        && method == i.request.method)
}

} // verus!
