use optic_engine::engine::{build_projections, diff, Projections};
use optic_engine::events::{
    BatchCommitEnded, BatchCommitStarted, ContributionAdded, FieldAdded, PathComponentAdded,
    RequestAdded, RequestBodySet, ResponseAddedByPathAndMethod, ResponseBodySet, ShapeAdded,
    ShapedBodyDescriptor, SpecEvent,
};
use optic_engine::interaction::{Body, BodyDescriptor, HttpInteraction, Request, Response};
use optic_engine::results::{
    InteractionDiffResult, InteractionTrailPathComponent, RequestSpecTrail,
};
use optic_engine::shape::{
    DynamicShapeParametersDescriptor, FieldShapeDescriptor, FieldShapeFromShape,
    ShapeParametersDescriptor,
};

fn todos_spec_events() -> Vec<SpecEvent> {
    vec![
        SpecEvent::PathComponentAdded(PathComponentAdded {
            path_id: "path_1".to_string(),
            parent_path_id: "root".to_string(),
            name: "todos".to_string(),
        }),
        SpecEvent::ContributionAdded(ContributionAdded {
            id: "path_1.GET".to_string(),
            key: "purpose".to_string(),
            value: "todos".to_string(),
        }),
        SpecEvent::BatchCommitStarted(BatchCommitStarted {
            batch_id: "batch-1".to_string(),
            parent_id: Some("root".to_string()),
            commit_message: "Add Request and Response for GET /todos".to_string(),
        }),
        SpecEvent::RequestAdded(RequestAdded {
            request_id: "request_1".to_string(),
            path_id: "path_1".to_string(),
            http_method: "GET".to_string(),
        }),
        SpecEvent::ResponseAddedByPathAndMethod(ResponseAddedByPathAndMethod {
            response_id: "response_1".to_string(),
            path_id: "path_1".to_string(),
            http_method: "GET".to_string(),
            http_status_code: 200,
        }),
        SpecEvent::BatchCommitEnded(BatchCommitEnded {
            batch_id: "batch-1".to_string(),
        }),
        SpecEvent::BatchCommitStarted(BatchCommitStarted {
            batch_id: "batch-2".to_string(),
            parent_id: Some("batch-1".to_string()),
            commit_message: "dsasa".to_string(),
        }),
        SpecEvent::ShapeAdded(ShapeAdded {
            shape_id: "object_shape_1".to_string(),
            base_shape_id: "$object".to_string(),
            parameters: ShapeParametersDescriptor::DynamicParameterList(
                DynamicShapeParametersDescriptor {
                    shape_parameter_ids: vec![],
                },
            ),
            name: "".to_string(),
        }),
        SpecEvent::ShapeAdded(ShapeAdded {
            shape_id: "boolean_shape_1".to_string(),
            base_shape_id: "$boolean".to_string(),
            parameters: ShapeParametersDescriptor::DynamicParameterList(
                DynamicShapeParametersDescriptor {
                    shape_parameter_ids: vec![],
                },
            ),
            name: "".to_string(),
        }),
        SpecEvent::FieldAdded(FieldAdded {
            field_id: "field_1".to_string(),
            shape_id: "object_shape_1".to_string(),
            name: "isDone".to_string(),
            shape_descriptor: FieldShapeDescriptor::FieldShapeFromShape(FieldShapeFromShape {
                field_id: "field_1".to_string(),
                shape_id: "boolean_shape_1".to_string(),
            }),
        }),
        SpecEvent::ResponseBodySet(ResponseBodySet {
            response_id: "response_1".to_string(),
            body_descriptor: ShapedBodyDescriptor {
                http_content_type: "application/json".to_string(),
                shape_id: "object_shape_1".to_string(),
                is_removed: false,
            },
        }),
        SpecEvent::BatchCommitEnded(BatchCommitEnded {
            batch_id: "batch-2".to_string(),
        }),
    ]
}

fn todos_projections() -> Projections {
    build_projections(todos_spec_events())
}

fn get_todos_interaction(
    path: &str,
    query: Option<BodyDescriptor>,
    response_content_type: Option<&str>,
    response_body: Option<BodyDescriptor>,
) -> HttpInteraction {
    HttpInteraction {
        request: Request {
            path: path.to_string(),
            method: "GET".to_string(),
            query,
            body: Body {
                content_type: None,
                value: None,
            },
        },
        response: Response {
            status_code: 200,
            body: Body {
                content_type: response_content_type.map(|ct| ct.to_string()),
                value: response_body,
            },
        },
    }
}

fn todo_body() -> BodyDescriptor {
    BodyDescriptor::Object(vec![("isDone".to_string(), BodyDescriptor::Boolean(true))])
}

#[test]
fn projections_hold_both_graphs() {
    let projections = todos_projections();
    assert_eq!(projections.shape.shapes.len(), 2);
    assert_eq!(projections.shape.fields.len(), 1);
    assert_eq!(projections.endpoint.paths.len(), 1);
    assert_eq!(projections.endpoint.requests.len(), 1);
    assert_eq!(projections.endpoint.responses.len(), 1);

    let response = &projections.endpoint.responses[0];
    assert_eq!(response.response_id, "response_1");
    let body = response.body.as_ref().expect("response body should be set");
    assert_eq!(body.http_content_type, "application/json");
    assert_eq!(body.root_shape_id, "object_shape_1");
    assert!(!body.is_removed);
}

#[test]
fn request_body_set_for_unknown_request_changes_nothing() {
    let mut events = todos_spec_events();
    events.push(SpecEvent::RequestBodySet(RequestBodySet {
        request_id: "request_9".to_string(),
        body_descriptor: ShapedBodyDescriptor {
            http_content_type: "application/json".to_string(),
            shape_id: "object_shape_1".to_string(),
            is_removed: false,
        },
    }));
    let projections = build_projections(events);
    assert!(projections.endpoint.requests[0].body.is_none());
}

#[test]
fn urls_resolve_through_the_path_tree() {
    let projections = todos_projections();
    let resolved = projections.endpoint.resolve_path(&"/todos".to_string());
    assert_eq!(resolved.unwrap(), "path_1");
    assert_eq!(
        projections.endpoint.resolve_path(&"/".to_string()).unwrap(),
        "root"
    );
    assert!(projections
        .endpoint
        .resolve_path(&"/unknown".to_string())
        .is_none());
}

#[test]
fn diffing_an_unknown_url_yields_exactly_unmatched_request_url() {
    let projections = todos_projections();
    let interaction = get_todos_interaction("/unknown", None, None, None);
    let results = diff(&interaction, &projections);

    assert_eq!(results.len(), 1);
    match &results[0] {
        InteractionDiffResult::UnmatchedRequestUrl(d) => {
            assert!(matches!(&d.requests_trail, RequestSpecTrail::SpecRoot(_)));
            assert_eq!(d.interaction_trail.path.len(), 2);
            match &d.interaction_trail.path[0] {
                InteractionTrailPathComponent::Url { path } => assert_eq!(path, "/unknown"),
                _ => panic!("expected a url component"),
            }
            match &d.interaction_trail.path[1] {
                InteractionTrailPathComponent::Method { method } => assert_eq!(method, "GET"),
                _ => panic!("expected a method component"),
            }
        }
        _ => panic!("expected an unmatched request url diff"),
    }
}

#[test]
fn diffing_a_matching_response_body_emits_matched_and_no_unmatched() {
    let projections = todos_projections();
    let interaction =
        get_todos_interaction("/todos", None, Some("application/json"), Some(todo_body()));
    let results = diff(&interaction, &projections);

    let matched: Vec<_> = results
        .iter()
        .filter_map(|d| match d {
            InteractionDiffResult::MatchedResponseBodyContentType(m) => Some(m),
            _ => None,
        })
        .collect();
    assert_eq!(matched.len(), 1);
    assert_eq!(matched[0].root_shape_id, "object_shape_1");
    match &matched[0].requests_trail {
        RequestSpecTrail::SpecResponseBody(r) => assert_eq!(r.response_id, "response_1"),
        _ => panic!("expected a spec response body trail"),
    }
    match &matched[0].interaction_trail.path[0] {
        InteractionTrailPathComponent::ResponseBody {
            content_type,
            status_code,
        } => {
            assert_eq!(content_type, "application/json");
            assert_eq!(*status_code, 200);
        }
        _ => panic!("expected a response body component"),
    }
    assert!(!results
        .iter()
        .any(|d| matches!(d, InteractionDiffResult::UnmatchedResponseBodyContentType(_))));
    assert!(!results
        .iter()
        .any(|d| matches!(d, InteractionDiffResult::UnmatchedRequestUrl(_))));
}

#[test]
fn diffing_a_wrong_content_type_emits_unmatched_response_body() {
    let projections = todos_projections();
    let interaction = get_todos_interaction("/todos", None, Some("text/plain"), Some(todo_body()));
    let results = diff(&interaction, &projections);

    let unmatched: Vec<_> = results
        .iter()
        .filter_map(|d| match d {
            InteractionDiffResult::UnmatchedResponseBodyContentType(u) => Some(u),
            _ => None,
        })
        .collect();
    assert_eq!(unmatched.len(), 1);
    match &unmatched[0].requests_trail {
        RequestSpecTrail::SpecPath(p) => assert_eq!(p.path_id, "path_1"),
        _ => panic!("expected a spec path trail"),
    }
    assert_eq!(unmatched[0].interaction_trail.path.len(), 2);
    match &unmatched[0].interaction_trail.path[0] {
        InteractionTrailPathComponent::Method { method } => assert_eq!(method, "GET"),
        _ => panic!("expected a method component"),
    }
    match &unmatched[0].interaction_trail.path[1] {
        InteractionTrailPathComponent::ResponseBody {
            content_type,
            status_code,
        } => {
            assert_eq!(content_type, "text/plain");
            assert_eq!(*status_code, 200);
        }
        _ => panic!("expected a response body component"),
    }
    assert!(!results
        .iter()
        .any(|d| matches!(d, InteractionDiffResult::MatchedResponseBodyContentType(_))));
}

#[test]
fn diffing_an_unexpected_query_reports_it() {
    let projections = todos_projections();
    let query = BodyDescriptor::Object(vec![(
        "q".to_string(),
        BodyDescriptor::Number("1".to_string()),
    )]);
    let interaction = get_todos_interaction("/todos", Some(query), None, None);
    let results = diff(&interaction, &projections);

    match &results[0] {
        InteractionDiffResult::UnmatchedQueryParameters(u) => {
            assert!(u.had_query);
            match &u.requests_trail {
                RequestSpecTrail::SpecPath(p) => assert_eq!(p.path_id, "path_1"),
                _ => panic!("expected a spec path trail"),
            }
        }
        _ => panic!("expected an unmatched query parameters diff first"),
    }
}

#[test]
fn diff_emission_follows_pipeline_order() {
    let projections = todos_projections();
    // No request body declared and none sent: the request stage stays quiet;
    // the response carries the wrong content type.
    let interaction = get_todos_interaction("/todos", None, Some("text/plain"), Some(todo_body()));
    let results = diff(&interaction, &projections);

    // The declared request_1 is bodyless and the request carried no body, so
    // the request stage emits nothing; only the query stage and the response
    // summary speak.
    assert_eq!(results.len(), 2);
    assert!(matches!(&results[0], InteractionDiffResult::UnmatchedQueryParameters(_)));
    assert!(matches!(
        &results[1],
        InteractionDiffResult::UnmatchedResponseBodyContentType(_)
    ));
}
