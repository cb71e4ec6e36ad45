//! The endpoint projection: a deterministic fold of spec events into the
//! endpoint graph — the path tree, requests and responses with their bodies.
//! Like the shape projection it is total: events whose preconditions fail
//! are skipped, and entries are created once and never deleted (bodies are
//! set in place and may be marked removed).

use vstd::prelude::*;
use crate::endpoint::{HttpBodyDescriptor, PathId, RequestDescriptor, RequestId,
    ResponseDescriptor, ResponseId};
use crate::events::{RequestBodySet, ResponseBodySet, SpecEvent};
use crate::projection::spec_find;

verus! {

/// One node of the path tree; the tree is rooted at the implicit id `root`.
#[derive(Clone, Debug)]
pub struct PathEntry {
    pub path_id: PathId,
    pub parent_path_id: PathId,
    pub name: String,
}

/// One request: its path, method, and body once one was set.
#[derive(Clone, Debug)]
pub struct RequestEntry {
    pub request_id: RequestId,
    pub path_id: PathId,
    pub http_method: String,
    pub body: Option<HttpBodyDescriptor>,
}

/// One response: its path, method, status code, and body once one was set.
#[derive(Clone, Debug)]
pub struct ResponseEntry {
    pub response_id: ResponseId,
    pub path_id: PathId,
    pub http_method: String,
    pub http_status_code: u16,
    pub body: Option<HttpBodyDescriptor>,
}

/// The character-level image of an `HttpBodyDescriptor`.
pub struct HttpBodyModel {
    pub http_content_type: Seq<char>,
    pub root_shape_id: Seq<char>,
    pub is_removed: bool,
}

impl HttpBodyDescriptor {
    /// This body at the character level.
    pub open spec fn model(self) -> HttpBodyModel {
        HttpBodyModel {
            http_content_type: self.http_content_type@,
            root_shape_id: self.root_shape_id@,
            is_removed: self.is_removed,
        }
    }
}

/// An optional body at the character level.
pub open spec fn body_option_model(body: Option<HttpBodyDescriptor>) -> Option<HttpBodyModel> {
    match body {
        Some(b) => Some(b.model()),
        None => None,
    }
}

/// The character-level image of a `PathEntry`.
pub struct PathEntryModel {
    pub path_id: Seq<char>,
    pub parent_path_id: Seq<char>,
    pub name: Seq<char>,
}

impl PathEntry {
    /// This entry at the character level.
    pub open spec fn model(self) -> PathEntryModel {
        PathEntryModel {
            path_id: self.path_id@,
            parent_path_id: self.parent_path_id@,
            name: self.name@,
        }
    }
}

/// The character-level image of a `RequestEntry`.
pub struct RequestEntryModel {
    pub request_id: Seq<char>,
    pub path_id: Seq<char>,
    pub http_method: Seq<char>,
    pub body: Option<HttpBodyModel>,
}

impl RequestEntry {
    /// This entry at the character level.
    pub open spec fn model(self) -> RequestEntryModel {
        RequestEntryModel {
            request_id: self.request_id@,
            path_id: self.path_id@,
            http_method: self.http_method@,
            body: body_option_model(self.body),
        }
    }
}

/// The character-level image of a `ResponseEntry`.
pub struct ResponseEntryModel {
    pub response_id: Seq<char>,
    pub path_id: Seq<char>,
    pub http_method: Seq<char>,
    pub http_status_code: u16,
    pub body: Option<HttpBodyModel>,
}

impl ResponseEntry {
    /// This entry at the character level.
    pub open spec fn model(self) -> ResponseEntryModel {
        ResponseEntryModel {
            response_id: self.response_id@,
            path_id: self.path_id@,
            http_method: self.http_method@,
            http_status_code: self.http_status_code,
            body: body_option_model(self.body),
        }
    }
}

/// The whole endpoint graph at the character level.
pub struct EndpointProjectionModel {
    pub paths: Seq<PathEntryModel>,
    pub requests: Seq<RequestEntryModel>,
    pub responses: Seq<ResponseEntryModel>,
}

/// The first path with this id.
pub open spec fn find_path_model(paths: Seq<PathEntryModel>, id: Seq<char>) -> Option<
    PathEntryModel,
> {
    spec_find(paths, |p: PathEntryModel| p.path_id == id)
}

/// The first request with this id.
pub open spec fn find_request_model(requests: Seq<RequestEntryModel>, id: Seq<char>) -> Option<
    RequestEntryModel,
> {
    spec_find(requests, |r: RequestEntryModel| r.request_id == id)
}

/// The first response with this id.
pub open spec fn find_response_model(responses: Seq<ResponseEntryModel>, id: Seq<char>) -> Option<
    ResponseEntryModel,
> {
    spec_find(responses, |r: ResponseEntryModel| r.response_id == id)
}

/// Whether a path id is known: the implicit root, or a created node.
pub open spec fn path_known(paths: Seq<PathEntryModel>, id: Seq<char>) -> bool {
    id == "root"@ || find_path_model(paths, id) is Some
}

/// The requests declared under a path and method, in creation order.
pub open spec fn spec_request_candidates(
    m: EndpointProjectionModel,
    path_id: Seq<char>,
    http_method: Seq<char>,
) -> Seq<RequestEntryModel> {
    m.requests.filter(
        |r: RequestEntryModel| r.path_id == path_id && r.http_method == http_method,
    )
}

/// The responses declared under a path, method and status code, in creation
/// order.
pub open spec fn spec_response_candidates(
    m: EndpointProjectionModel,
    path_id: Seq<char>,
    http_method: Seq<char>,
    http_status_code: u16,
) -> Seq<ResponseEntryModel> {
    m.responses.filter(
        |r: ResponseEntryModel|
            r.path_id == path_id && r.http_method == http_method && r.http_status_code
                == http_status_code,
    )
}

/// A request with its body set from the event.
pub open spec fn spec_set_request_body(r: RequestEntryModel, e: RequestBodySet) -> (
    RequestEntryModel) {
    if r.request_id == e.request_id@ {
        RequestEntryModel {
            request_id: r.request_id,
            path_id: r.path_id,
            http_method: r.http_method,
            body: Some(
                HttpBodyModel {
                    http_content_type: e.body_descriptor.http_content_type@,
                    root_shape_id: e.body_descriptor.shape_id@,
                    is_removed: e.body_descriptor.is_removed,
                },
            ),
        }
    } else {
        r
    }
}

/// A response with its body set from the event.
pub open spec fn spec_set_response_body(r: ResponseEntryModel, e: ResponseBodySet) -> (
    ResponseEntryModel) {
    if r.response_id == e.response_id@ {
        ResponseEntryModel {
            response_id: r.response_id,
            path_id: r.path_id,
            http_method: r.http_method,
            http_status_code: r.http_status_code,
            body: Some(
                HttpBodyModel {
                    http_content_type: e.body_descriptor.http_content_type@,
                    root_shape_id: e.body_descriptor.shape_id@,
                    is_removed: e.body_descriptor.is_removed,
                },
            ),
        }
    } else {
        r
    }
}

/// What one event does to the endpoint graph: paths, requests and responses
/// are appended when the referenced path is known and the created id is
/// fresh; a body-set event rewrites the body of the requests or responses it
/// names; every other event leaves the graph unchanged.
pub open spec fn spec_apply_endpoint_event(
    m: EndpointProjectionModel,
    e: SpecEvent,
) -> EndpointProjectionModel {
    match e {
        SpecEvent::PathComponentAdded(p) => if p.path_id@ != "root"@ && find_path_model(
            m.paths,
            p.path_id@,
        ) is None && path_known(m.paths, p.parent_path_id@) {
            EndpointProjectionModel {
                paths: m.paths.push(
                    PathEntryModel {
                        path_id: p.path_id@,
                        parent_path_id: p.parent_path_id@,
                        name: p.name@,
                    },
                ),
                requests: m.requests,
                responses: m.responses,
            }
        } else {
            m
        },
        SpecEvent::RequestAdded(r) => if find_request_model(m.requests, r.request_id@) is None
            && path_known(m.paths, r.path_id@) {
            EndpointProjectionModel {
                paths: m.paths,
                requests: m.requests.push(
                    RequestEntryModel {
                        request_id: r.request_id@,
                        path_id: r.path_id@,
                        http_method: r.http_method@,
                        body: None,
                    },
                ),
                responses: m.responses,
            }
        } else {
            m
        },
        SpecEvent::ResponseAddedByPathAndMethod(r) => if find_response_model(
            m.responses,
            r.response_id@,
        ) is None && path_known(m.paths, r.path_id@) {
            EndpointProjectionModel {
                paths: m.paths,
                requests: m.requests,
                responses: m.responses.push(
                    ResponseEntryModel {
                        response_id: r.response_id@,
                        path_id: r.path_id@,
                        http_method: r.http_method@,
                        http_status_code: r.http_status_code,
                        body: None,
                    },
                ),
            }
        } else {
            m
        },
        SpecEvent::RequestBodySet(b) => EndpointProjectionModel {
            paths: m.paths,
            requests: m.requests.map_values(|r: RequestEntryModel| spec_set_request_body(r, b)),
            responses: m.responses,
        },
        SpecEvent::ResponseBodySet(b) => EndpointProjectionModel {
            paths: m.paths,
            requests: m.requests,
            responses: m.responses.map_values(
                |r: ResponseEntryModel| spec_set_response_body(r, b),
            ),
        },
        _ => m,
    }
}

/// The endpoint graph an event stream folds into, from the empty graph.
pub open spec fn spec_project_endpoints(events: Seq<SpecEvent>) -> EndpointProjectionModel
    decreases events.len(),
{
    if events.len() == 0 {
        EndpointProjectionModel {
            paths: Seq::empty(),
            requests: Seq::empty(),
            responses: Seq::empty(),
        }
    } else {
        spec_apply_endpoint_event(spec_project_endpoints(events.drop_last()), events.last())
    }
}

/// The endpoint graph projected from a spec event stream.
#[derive(Debug)]
pub struct EndpointProjection {
    pub paths: Vec<PathEntry>,
    pub requests: Vec<RequestEntry>,
    pub responses: Vec<ResponseEntry>,
}

impl EndpointProjection {
    /// This projection at the character level.
    pub open spec fn model(self) -> EndpointProjectionModel {
        EndpointProjectionModel {
            paths: self.paths@.map_values(|p: PathEntry| p.model()),
            requests: self.requests@.map_values(|r: RequestEntry| r.model()),
            responses: self.responses@.map_values(|r: ResponseEntry| r.model()),
        }
    }

    /// The empty endpoint graph.
    pub fn new() -> (r: EndpointProjection)
        ensures
            r.model() == spec_project_endpoints(Seq::<SpecEvent>::empty()),
    {
        let r = EndpointProjection { paths: Vec::new(), requests: Vec::new(), responses: Vec::new() };
        proof {
            assert(r.model().paths =~= spec_project_endpoints(Seq::<SpecEvent>::empty()).paths);
            assert(r.model().requests =~= spec_project_endpoints(
                Seq::<SpecEvent>::empty(),
            ).requests);
            assert(r.model().responses =~= spec_project_endpoints(
                Seq::<SpecEvent>::empty(),
            ).responses);
        }
        r
    }

    /// Whether a path id is known: the implicit root, or a created node.
    pub fn path_exists(&self, path_id: &PathId) -> (r: bool)
        ensures
            r == path_known(self.model().paths, path_id@),
    {
        if *path_id == "root".to_owned() {
            return true;
        }
        self.path_exists_as_node(path_id)
    }

    /// Whether a request with this id was created.
    fn request_exists(&self, request_id: &RequestId) -> (r: bool)
        ensures
            r == (find_request_model(self.model().requests, request_id@) is Some),
    {
        let ghost p = |e: RequestEntryModel| e.request_id == request_id@;
        let n = self.requests.len();
        let mut i: usize = 0;
        while i < n
            invariant
                n == self.requests@.len(),
                i <= n,
                forall|j: int| 0 <= j < i ==> !p(#[trigger] self.model().requests[j]),
                p == (|e: RequestEntryModel| e.request_id == request_id@),
            decreases n - i,
        {
            if self.requests[i].request_id == *request_id {
                proof {
                    crate::projection::lemma_spec_find_skip(self.model().requests, p, i as int);
                    assert(self.model().requests.skip(i as int)[0] == self.model().requests[
                        i as int
                    ]);
                }
                return true;
            }
            i += 1;
        }
        proof {
            crate::projection::lemma_spec_find_skip(self.model().requests, p, n as int);
            assert(self.model().requests.skip(n as int).len() == 0);
        }
        false
    }

    /// Whether a response with this id was created.
    fn response_exists(&self, response_id: &ResponseId) -> (r: bool)
        ensures
            r == (find_response_model(self.model().responses, response_id@) is Some),
    {
        let ghost p = |e: ResponseEntryModel| e.response_id == response_id@;
        let n = self.responses.len();
        let mut i: usize = 0;
        while i < n
            invariant
                n == self.responses@.len(),
                i <= n,
                forall|j: int| 0 <= j < i ==> !p(#[trigger] self.model().responses[j]),
                p == (|e: ResponseEntryModel| e.response_id == response_id@),
            decreases n - i,
        {
            if self.responses[i].response_id == *response_id {
                proof {
                    crate::projection::lemma_spec_find_skip(self.model().responses, p, i as int);
                    assert(self.model().responses.skip(i as int)[0] == self.model().responses[
                        i as int
                    ]);
                }
                return true;
            }
            i += 1;
        }
        proof {
            crate::projection::lemma_spec_find_skip(self.model().responses, p, n as int);
            assert(self.model().responses.skip(n as int).len() == 0);
        }
        false
    }

    /// Applies one event, by reference: the projection clones what it keeps.
    pub fn apply(&mut self, event: &SpecEvent)
        ensures
            final(self).model() == spec_apply_endpoint_event(old(self).model(), *event),
    {
        match event {
            SpecEvent::PathComponentAdded(p) => {
                let is_root_id = p.path_id == "root".to_owned();
                let fresh = !self.path_exists_as_node(&p.path_id);
                let parent_known = self.path_exists(&p.parent_path_id);
                if !is_root_id && fresh && parent_known {
                    self.paths.push(
                        PathEntry {
                            path_id: p.path_id.clone(),
                            parent_path_id: p.parent_path_id.clone(),
                            name: p.name.clone(),
                        },
                    );
                    proof {
                        assert(final(self).model().paths =~= spec_apply_endpoint_event(
                            old(self).model(),
                            *event,
                        ).paths);
                    }
                }
            },
            SpecEvent::RequestAdded(r) => {
                let fresh = !self.request_exists(&r.request_id);
                let known = self.path_exists(&r.path_id);
                if fresh && known {
                    self.requests.push(
                        RequestEntry {
                            request_id: r.request_id.clone(),
                            path_id: r.path_id.clone(),
                            http_method: r.http_method.clone(),
                            body: None,
                        },
                    );
                    proof {
                        assert(final(self).model().requests =~= spec_apply_endpoint_event(
                            old(self).model(),
                            *event,
                        ).requests);
                    }
                }
            },
            SpecEvent::ResponseAddedByPathAndMethod(r) => {
                let fresh = !self.response_exists(&r.response_id);
                let known = self.path_exists(&r.path_id);
                if fresh && known {
                    self.responses.push(
                        ResponseEntry {
                            response_id: r.response_id.clone(),
                            path_id: r.path_id.clone(),
                            http_method: r.http_method.clone(),
                            http_status_code: r.http_status_code,
                            body: None,
                        },
                    );
                    proof {
                        assert(final(self).model().responses =~= spec_apply_endpoint_event(
                            old(self).model(),
                            *event,
                        ).responses);
                    }
                }
            },
            SpecEvent::RequestBodySet(b) => {
                let ghost orig = self.requests@;
                let n = self.requests.len();
                let mut i: usize = 0;
                while i < n
                    invariant
                        n == self.requests@.len(),
                        i <= n,
                        orig == old(self).requests@,
                        orig.len() == n,
                        forall|j: int|
                            0 <= j < i ==> (#[trigger] self.requests@[j]).model()
                                == spec_set_request_body(orig[j].model(), *b),
                        forall|j: int| i <= j < n ==> (#[trigger] self.requests@[j]) == orig[j],
                        self.paths@ == old(self).paths@,
                        self.responses@ == old(self).responses@,
                    decreases n - i,
                {
                    if self.requests[i].request_id == b.request_id {
                        let updated = RequestEntry {
                            request_id: self.requests[i].request_id.clone(),
                            path_id: self.requests[i].path_id.clone(),
                            http_method: self.requests[i].http_method.clone(),
                            body: Some(
                                HttpBodyDescriptor {
                                    http_content_type: b
                                        .body_descriptor
                                        .http_content_type
                                        .clone(),
                                    root_shape_id: b.body_descriptor.shape_id.clone(),
                                    is_removed: b.body_descriptor.is_removed,
                                },
                            ),
                        };
                        self.requests[i] = updated;
                        proof {
                            assert(updated.model() == spec_set_request_body(
                                orig[i as int].model(),
                                *b,
                            ));
                        }
                    } else {
                        proof {
                            assert(spec_set_request_body(orig[i as int].model(), *b) == orig[
                                i as int
                            ].model());
                        }
                    }
                    i += 1;
                }
                proof {
                    assert(final(self).model().requests =~= spec_apply_endpoint_event(
                        old(self).model(),
                        *event,
                    ).requests);
                }
            },
            SpecEvent::ResponseBodySet(b) => {
                let ghost orig = self.responses@;
                let n = self.responses.len();
                let mut i: usize = 0;
                while i < n
                    invariant
                        n == self.responses@.len(),
                        i <= n,
                        orig == old(self).responses@,
                        orig.len() == n,
                        forall|j: int|
                            0 <= j < i ==> (#[trigger] self.responses@[j]).model()
                                == spec_set_response_body(orig[j].model(), *b),
                        forall|j: int| i <= j < n ==> (#[trigger] self.responses@[j]) == orig[j],
                        self.paths@ == old(self).paths@,
                        self.requests@ == old(self).requests@,
                    decreases n - i,
                {
                    if self.responses[i].response_id == b.response_id {
                        let updated = ResponseEntry {
                            response_id: self.responses[i].response_id.clone(),
                            path_id: self.responses[i].path_id.clone(),
                            http_method: self.responses[i].http_method.clone(),
                            http_status_code: self.responses[i].http_status_code,
                            body: Some(
                                HttpBodyDescriptor {
                                    http_content_type: b
                                        .body_descriptor
                                        .http_content_type
                                        .clone(),
                                    root_shape_id: b.body_descriptor.shape_id.clone(),
                                    is_removed: b.body_descriptor.is_removed,
                                },
                            ),
                        };
                        self.responses[i] = updated;
                        proof {
                            assert(updated.model() == spec_set_response_body(
                                orig[i as int].model(),
                                *b,
                            ));
                        }
                    } else {
                        proof {
                            assert(spec_set_response_body(orig[i as int].model(), *b) == orig[
                                i as int
                            ].model());
                        }
                    }
                    i += 1;
                }
                proof {
                    assert(final(self).model().responses =~= spec_apply_endpoint_event(
                        old(self).model(),
                        *event,
                    ).responses);
                }
            },
            _ => {},
        }
    }

    /// Whether a path node with this id was created (the implicit root is
    /// not a node).
    fn path_exists_as_node(&self, path_id: &PathId) -> (r: bool)
        ensures
            r == (find_path_model(self.model().paths, path_id@) is Some),
    {
        let ghost p = |e: PathEntryModel| e.path_id == path_id@;
        let n = self.paths.len();
        let mut i: usize = 0;
        while i < n
            invariant
                n == self.paths@.len(),
                i <= n,
                forall|j: int| 0 <= j < i ==> !p(#[trigger] self.model().paths[j]),
                p == (|e: PathEntryModel| e.path_id == path_id@),
            decreases n - i,
        {
            if self.paths[i].path_id == *path_id {
                proof {
                    crate::projection::lemma_spec_find_skip(self.model().paths, p, i as int);
                    assert(self.model().paths.skip(i as int)[0] == self.model().paths[i as int]);
                }
                return true;
            }
            i += 1;
        }
        proof {
            crate::projection::lemma_spec_find_skip(self.model().paths, p, n as int);
            assert(self.model().paths.skip(n as int).len() == 0);
        }
        false
    }

    /// The candidate requests for a path and method, in creation order, as
    /// `(request id, descriptor)` pairs for the request-body visitor.
    pub fn requests_for(&self, path_id: &PathId, http_method: &String) -> (r: Vec<
        (RequestId, RequestDescriptor),
    >)
        ensures
            ({
                let cs = spec_request_candidates(self.model(), path_id@, http_method@);
                &&& r@.len() == cs.len()
                &&& forall|k: int|
                    0 <= k < cs.len() ==> (#[trigger] r@[k]).0@ == cs[k].request_id
                        && body_option_model(r@[k].1.body) == cs[k].body
            }),
    {
        let ghost m = self.model();
        let ghost pred = |r: RequestEntryModel| r.path_id == path_id@ && r.http_method
            == http_method@;
        let mut out: Vec<(RequestId, RequestDescriptor)> = Vec::new();
        let n = self.requests.len();
        let mut i: usize = 0;
        proof {
            assert(m.requests.subrange(0, 0).filter(pred) =~= Seq::<RequestEntryModel>::empty())
                by {
                reveal(Seq::filter);
            }
        }
        while i < n
            invariant
                n == self.requests@.len(),
                i <= n,
                m == self.model(),
                pred == (|r: RequestEntryModel|
                    r.path_id == path_id@ && r.http_method == http_method@),
                out@.len() == m.requests.subrange(0, i as int).filter(pred).len(),
                forall|k: int|
                    0 <= k < out@.len() ==> (#[trigger] out@[k]).0@ == m.requests.subrange(
                        0,
                        i as int,
                    ).filter(pred)[k].request_id && body_option_model(out@[k].1.body)
                        == m.requests.subrange(0, i as int).filter(pred)[k].body,
            decreases n - i,
        {
            let ghost prefix = m.requests.subrange(0, i as int);
            let ghost next_prefix = m.requests.subrange(0, i as int + 1);
            proof {
                assert(next_prefix.drop_last() =~= prefix);
                assert(next_prefix.last() == m.requests[i as int]);
                reveal(Seq::filter);
            }
            let entry = &self.requests[i];
            if entry.path_id == *path_id && entry.http_method == *http_method {
                proof {
                    assert(m.requests[i as int] == entry.model());
                    assert(pred(m.requests[i as int]));
                    assert(next_prefix.filter(pred) == prefix.filter(pred).push(
                        m.requests[i as int],
                    ));
                }
                let body = match &entry.body {
                    Some(b) => Some(
                        HttpBodyDescriptor {
                            http_content_type: b.http_content_type.clone(),
                            root_shape_id: b.root_shape_id.clone(),
                            is_removed: b.is_removed,
                        },
                    ),
                    None => None,
                };
                out.push((entry.request_id.clone(), RequestDescriptor { body }));
            } else {
                proof {
                    assert(m.requests[i as int] == entry.model());
                    assert(!pred(m.requests[i as int]));
                    assert(next_prefix.filter(pred) == prefix.filter(pred));
                }
            }
            i += 1;
        }
        proof {
            assert(m.requests.subrange(0, n as int) =~= m.requests);
        }
        out
    }

    /// The candidate responses for a path, method and status code, in
    /// creation order, for the response-body visitor.
    pub fn responses_for(
        &self,
        path_id: &PathId,
        http_method: &String,
        http_status_code: u16,
    ) -> (r: Vec<(ResponseId, ResponseDescriptor)>)
        ensures
            ({
                let cs = spec_response_candidates(
                    self.model(),
                    path_id@,
                    http_method@,
                    http_status_code,
                );
                &&& r@.len() == cs.len()
                &&& forall|k: int|
                    0 <= k < cs.len() ==> (#[trigger] r@[k]).0@ == cs[k].response_id
                        && body_option_model(r@[k].1.body) == cs[k].body
            }),
    {
        let ghost m = self.model();
        let ghost pred = |r: ResponseEntryModel|
            r.path_id == path_id@ && r.http_method == http_method@ && r.http_status_code
                == http_status_code;
        let mut out: Vec<(ResponseId, ResponseDescriptor)> = Vec::new();
        let n = self.responses.len();
        let mut i: usize = 0;
        proof {
            assert(m.responses.subrange(0, 0).filter(pred) =~= Seq::<ResponseEntryModel>::empty())
                by {
                reveal(Seq::filter);
            }
        }
        while i < n
            invariant
                n == self.responses@.len(),
                i <= n,
                m == self.model(),
                pred == (|r: ResponseEntryModel|
                    r.path_id == path_id@ && r.http_method == http_method@ && r.http_status_code
                        == http_status_code),
                out@.len() == m.responses.subrange(0, i as int).filter(pred).len(),
                forall|k: int|
                    0 <= k < out@.len() ==> (#[trigger] out@[k]).0@ == m.responses.subrange(
                        0,
                        i as int,
                    ).filter(pred)[k].response_id && body_option_model(out@[k].1.body)
                        == m.responses.subrange(0, i as int).filter(pred)[k].body,
            decreases n - i,
        {
            let ghost prefix = m.responses.subrange(0, i as int);
            let ghost next_prefix = m.responses.subrange(0, i as int + 1);
            proof {
                assert(next_prefix.drop_last() =~= prefix);
                assert(next_prefix.last() == m.responses[i as int]);
                reveal(Seq::filter);
            }
            let entry = &self.responses[i];
            if entry.path_id == *path_id && entry.http_method == *http_method
                && entry.http_status_code == http_status_code {
                proof {
                    assert(m.responses[i as int] == entry.model());
                    assert(pred(m.responses[i as int]));
                    assert(next_prefix.filter(pred) == prefix.filter(pred).push(
                        m.responses[i as int],
                    ));
                }
                let body = match &entry.body {
                    Some(b) => Some(
                        HttpBodyDescriptor {
                            http_content_type: b.http_content_type.clone(),
                            root_shape_id: b.root_shape_id.clone(),
                            is_removed: b.is_removed,
                        },
                    ),
                    None => None,
                };
                out.push((entry.response_id.clone(), ResponseDescriptor { body }));
            } else {
                proof {
                    assert(m.responses[i as int] == entry.model());
                    assert(!pred(m.responses[i as int]));
                    assert(next_prefix.filter(pred) == prefix.filter(pred));
                }
            }
            i += 1;
        }
        proof {
            assert(m.responses.subrange(0, n as int) =~= m.responses);
        }
        out
    }

    /// Folds a whole event stream into an endpoint graph, in stream order.
    pub fn from_events(events: &Vec<SpecEvent>) -> (r: EndpointProjection)
        ensures
            r.model() == spec_project_endpoints(events@),
    {
        let mut projection = EndpointProjection::new();
        let n = events.len();
        let mut i: usize = 0;
        while i < n
            invariant
                n == events@.len(),
                i <= n,
                projection.model() == spec_project_endpoints(events@.subrange(0, i as int)),
            decreases n - i,
        {
            proof {
                let prefix = events@.subrange(0, i as int + 1);
                assert(prefix.drop_last() =~= events@.subrange(0, i as int));
                assert(prefix.last() == events@[i as int]);
            }
            projection.apply(&events[i]);
            i += 1;
        }
        proof {
            assert(events@.subrange(0, n as int) =~= events@);
        }
        projection
    }
}

/// Endpoint projection determinism: two endpoint graphs folded from streams
/// with the same events in the same order are equal at the character level.
pub proof fn lemma_endpoint_projection_determinism(
    p1: EndpointProjection,
    p2: EndpointProjection,
    events1: Vec<SpecEvent>,
    events2: Vec<SpecEvent>,
)
    requires
        p1.model() == spec_project_endpoints(events1@),
        p2.model() == spec_project_endpoints(events2@),
        events1@ == events2@,
    ensures
        p1.model() == p2.model(),
{
}

} // verus!
