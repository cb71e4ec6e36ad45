use optic_engine::endpoint::{
    HttpBodyDescriptor, QueryParametersDescriptor, QueryParametersShapeDescriptor,
    RequestDescriptor, ResponseDescriptor,
};
use optic_engine::interaction::{Body, BodyDescriptor, HttpInteraction, Request, Response};
use optic_engine::results::{
    InteractionDiffResult, InteractionTrailPathComponent, RequestSpecTrail,
};
use optic_engine::visitors::{
    DiffPathVisitor, DiffQueryParametersVisitor, DiffRequestBodyVisitor, DiffResponseBodyVisitor,
    DiffVisitors, PathVisitorContext, QueryParametersVisitorContext, RequestBodyVisitorContext,
    ResponseBodyVisitorContext,
};

fn get_interaction(
    path: &str,
    query: Option<BodyDescriptor>,
    response_content_type: Option<&str>,
    response_body: Option<BodyDescriptor>,
) -> HttpInteraction {
    HttpInteraction {
        request: Request {
            path: path.to_string(),
            method: "GET".to_string(),
            query,
            body: Body {
                content_type: None,
                value: None,
            },
        },
        response: Response {
            status_code: 200,
            body: Body {
                content_type: response_content_type.map(|ct| ct.to_string()),
                value: response_body,
            },
        },
    }
}

fn todo_body() -> BodyDescriptor {
    BodyDescriptor::Object(vec![("isDone".to_string(), BodyDescriptor::Boolean(true))])
}

#[test]
fn unknown_path_emits_unmatched_request_url() {
    let interaction = get_interaction("/unknown", None, None, None);
    let mut visitor = DiffPathVisitor::new();
    visitor.visit(&interaction, &PathVisitorContext { path: None });

    let results = &visitor.results().results;
    assert_eq!(results.len(), 1);
    match &results[0] {
        InteractionDiffResult::UnmatchedRequestUrl(diff) => {
            assert!(matches!(&diff.requests_trail, RequestSpecTrail::SpecRoot(_)));
            assert_eq!(diff.interaction_trail.path.len(), 2);
            match &diff.interaction_trail.path[0] {
                InteractionTrailPathComponent::Url { path } => assert_eq!(path, "/unknown"),
                _ => panic!("expected a url component"),
            }
            match &diff.interaction_trail.path[1] {
                InteractionTrailPathComponent::Method { method } => assert_eq!(method, "GET"),
                _ => panic!("expected a method component"),
            }
        }
        _ => panic!("expected an unmatched request url diff"),
    }
}

#[test]
fn resolved_path_emits_nothing_from_path_visitor() {
    let interaction = get_interaction("/todos", None, None, None);
    let mut visitor = DiffPathVisitor::new();
    visitor.visit(
        &interaction,
        &PathVisitorContext {
            path: Some("path_1".to_string()),
        },
    );
    assert_eq!(visitor.results().results.len(), 0);
}

#[test]
fn unexpected_query_emits_unmatched_query_parameters() {
    let query = BodyDescriptor::Object(vec![(
        "q".to_string(),
        BodyDescriptor::Number("1".to_string()),
    )]);
    let interaction = get_interaction("/todos", Some(query), None, None);
    let mut visitor = DiffQueryParametersVisitor::new();
    visitor.begin();
    visitor.visit(
        &interaction,
        &QueryParametersVisitorContext {
            path: "path_1".to_string(),
            query: None,
        },
    );
    visitor.end(&interaction, &PathVisitorContext { path: Some("path_1".to_string()) });

    let results = &visitor.results().results;
    assert_eq!(results.len(), 1);
    match &results[0] {
        InteractionDiffResult::UnmatchedQueryParameters(diff) => {
            assert!(diff.had_query);
            match &diff.requests_trail {
                RequestSpecTrail::SpecPath(p) => assert_eq!(p.path_id, "path_1"),
                _ => panic!("expected a spec path trail"),
            }
        }
        _ => panic!("expected an unmatched query parameters diff"),
    }
}

#[test]
fn declared_query_shape_emits_matched_query_parameters() {
    let interaction = get_interaction("/todos", None, None, None);
    let mut visitor = DiffQueryParametersVisitor::new();
    visitor.visit(
        &interaction,
        &QueryParametersVisitorContext {
            path: "path_1".to_string(),
            query: Some((
                "query_params_1".to_string(),
                QueryParametersDescriptor {
                    shape: Some(QueryParametersShapeDescriptor {
                        shape_id: "query_shape_1".to_string(),
                        is_removed: false,
                    }),
                },
            )),
        },
    );

    let results = &visitor.results().results;
    assert_eq!(results.len(), 1);
    match &results[0] {
        InteractionDiffResult::MatchedQueryParameters(diff) => {
            assert_eq!(diff.root_shape_id, "query_shape_1");
            match &diff.requests_trail {
                RequestSpecTrail::SpecQueryParameters(q) => {
                    assert_eq!(q.query_parameters_id, "query_params_1")
                }
                _ => panic!("expected a spec query parameters trail"),
            }
            assert_eq!(diff.interaction_trail.path.len(), 1);
            assert!(matches!(
                &diff.interaction_trail.path[0],
                InteractionTrailPathComponent::QueryParameters
            ));
        }
        _ => panic!("expected a matched query parameters diff"),
    }
}

fn response_descriptor_with_json_body() -> ResponseDescriptor {
    ResponseDescriptor {
        body: Some(HttpBodyDescriptor {
            http_content_type: "application/json".to_string(),
            root_shape_id: "object_shape_1".to_string(),
            is_removed: false,
        }),
    }
}

#[test]
fn matching_response_body_emits_matched_content_type_and_no_unmatched() {
    let interaction = get_interaction("/todos", None, Some("application/json"), Some(todo_body()));
    let mut visitor = DiffResponseBodyVisitor::new();
    visitor.begin();
    visitor.visit(
        &interaction,
        &ResponseBodyVisitorContext {
            path: "path_1".to_string(),
            response: Some(("response_1".to_string(), response_descriptor_with_json_body())),
        },
    );
    visitor.end(&interaction, &PathVisitorContext { path: Some("path_1".to_string()) });

    let results = &visitor.results().results;
    assert_eq!(results.len(), 1);
    match &results[0] {
        InteractionDiffResult::MatchedResponseBodyContentType(diff) => {
            assert_eq!(diff.root_shape_id, "object_shape_1");
            match &diff.requests_trail {
                RequestSpecTrail::SpecResponseBody(r) => assert_eq!(r.response_id, "response_1"),
                _ => panic!("expected a spec response body trail"),
            }
            assert_eq!(diff.interaction_trail.path.len(), 1);
            match &diff.interaction_trail.path[0] {
                InteractionTrailPathComponent::ResponseBody {
                    content_type,
                    status_code,
                } => {
                    assert_eq!(content_type, "application/json");
                    assert_eq!(*status_code, 200);
                }
                _ => panic!("expected a response body component"),
            }
        }
        _ => panic!("expected a matched response body diff"),
    }
}

#[test]
fn wrong_response_content_type_emits_unmatched_content_type() {
    let interaction = get_interaction("/todos", None, Some("text/plain"), Some(todo_body()));
    let mut visitor = DiffResponseBodyVisitor::new();
    visitor.begin();
    visitor.visit(
        &interaction,
        &ResponseBodyVisitorContext {
            path: "path_1".to_string(),
            response: Some(("response_1".to_string(), response_descriptor_with_json_body())),
        },
    );
    visitor.end(&interaction, &PathVisitorContext { path: Some("path_1".to_string()) });

    let results = &visitor.results().results;
    assert_eq!(results.len(), 1);
    match &results[0] {
        InteractionDiffResult::UnmatchedResponseBodyContentType(diff) => {
            match &diff.requests_trail {
                RequestSpecTrail::SpecPath(p) => assert_eq!(p.path_id, "path_1"),
                _ => panic!("expected a spec path trail"),
            }
            assert_eq!(diff.interaction_trail.path.len(), 2);
            match &diff.interaction_trail.path[0] {
                InteractionTrailPathComponent::Method { method } => assert_eq!(method, "GET"),
                _ => panic!("expected a method component"),
            }
            match &diff.interaction_trail.path[1] {
                InteractionTrailPathComponent::ResponseBody {
                    content_type,
                    status_code,
                } => {
                    assert_eq!(content_type, "text/plain");
                    assert_eq!(*status_code, 200);
                }
                _ => panic!("expected a response body component"),
            }
        }
        _ => panic!("expected an unmatched response body diff"),
    }
}

#[test]
fn bodyless_response_without_content_type_uses_status_code_component() {
    let interaction = get_interaction("/todos", None, None, None);
    let mut visitor = DiffResponseBodyVisitor::new();
    visitor.visit(
        &interaction,
        &ResponseBodyVisitorContext {
            path: "path_1".to_string(),
            response: Some(("response_1".to_string(), response_descriptor_with_json_body())),
        },
    );
    visitor.end(&interaction, &PathVisitorContext { path: Some("path_1".to_string()) });

    let results = &visitor.results().results;
    assert_eq!(results.len(), 1);
    match &results[0] {
        InteractionDiffResult::UnmatchedResponseBodyContentType(diff) => {
            assert_eq!(diff.interaction_trail.path.len(), 2);
            match &diff.interaction_trail.path[1] {
                InteractionTrailPathComponent::ResponseStatusCode { status_code } => {
                    assert_eq!(*status_code, 200)
                }
                _ => panic!("expected a status code component"),
            }
        }
        _ => panic!("expected an unmatched response body diff"),
    }
}

#[test]
fn request_body_decision_table() {
    let bodyless_request = RequestDescriptor { body: None };
    let json_request = RequestDescriptor {
        body: Some(HttpBodyDescriptor {
            http_content_type: "application/json".to_string(),
            root_shape_id: "request_shape_1".to_string(),
            is_removed: false,
        }),
    };

    // Spec declares no body; interaction has no body: matched, no diff.
    let interaction = get_interaction("/todos", None, None, None);
    let mut visitor = DiffRequestBodyVisitor::new();
    visitor.begin();
    visitor.visit(
        &interaction,
        &RequestBodyVisitorContext {
            path: "path_1".to_string(),
            operation: Some(("request_1".to_string(), bodyless_request)),
        },
    );
    visitor.end(&interaction, &PathVisitorContext { path: Some("path_1".to_string()) });
    assert_eq!(visitor.results().results.len(), 0);

    // Spec declares a json body; interaction carries json: matched diff.
    let mut interaction = get_interaction("/todos", None, None, None);
    interaction.request.body = Body {
        content_type: Some("application/json".to_string()),
        value: Some(todo_body()),
    };
    let mut visitor = DiffRequestBodyVisitor::new();
    visitor.visit(
        &interaction,
        &RequestBodyVisitorContext {
            path: "path_1".to_string(),
            operation: Some(("request_1".to_string(), json_request.clone())),
        },
    );
    visitor.end(&interaction, &PathVisitorContext { path: Some("path_1".to_string()) });
    let results = &visitor.results().results;
    assert_eq!(results.len(), 1);
    match &results[0] {
        InteractionDiffResult::MatchedRequestBodyContentType(diff) => {
            assert_eq!(diff.root_shape_id, "request_shape_1");
            match &diff.requests_trail {
                RequestSpecTrail::SpecRequestBody(r) => assert_eq!(r.request_id, "request_1"),
                _ => panic!("expected a spec request body trail"),
            }
        }
        _ => panic!("expected a matched request body diff"),
    }

    // Spec declares a body; interaction has none: summary unmatched diff with
    // url and method components only.
    let interaction = get_interaction("/todos", None, None, None);
    let mut visitor = DiffRequestBodyVisitor::new();
    visitor.visit(
        &interaction,
        &RequestBodyVisitorContext {
            path: "path_1".to_string(),
            operation: Some(("request_1".to_string(), json_request)),
        },
    );
    visitor.end(&interaction, &PathVisitorContext { path: Some("path_1".to_string()) });
    let results = &visitor.results().results;
    assert_eq!(results.len(), 1);
    match &results[0] {
        InteractionDiffResult::UnmatchedRequestBodyContentType(diff) => {
            match &diff.requests_trail {
                RequestSpecTrail::SpecPath(p) => assert_eq!(p.path_id, "path_1"),
                _ => panic!("expected a spec path trail"),
            }
            assert_eq!(diff.interaction_trail.path.len(), 2);
        }
        _ => panic!("expected an unmatched request body diff"),
    }

    // Spec declares no body; interaction carries one: summary unmatched diff
    // whose trail names the content type.
    let mut interaction = get_interaction("/todos", None, None, None);
    interaction.request.body = Body {
        content_type: Some("application/json".to_string()),
        value: Some(todo_body()),
    };
    let mut visitor = DiffRequestBodyVisitor::new();
    visitor.visit(
        &interaction,
        &RequestBodyVisitorContext {
            path: "path_1".to_string(),
            operation: Some(("request_1".to_string(), RequestDescriptor { body: None })),
        },
    );
    visitor.end(&interaction, &PathVisitorContext { path: Some("path_1".to_string()) });
    let results = &visitor.results().results;
    assert_eq!(results.len(), 1);
    match &results[0] {
        InteractionDiffResult::UnmatchedRequestBodyContentType(diff) => {
            assert_eq!(diff.interaction_trail.path.len(), 3);
            match &diff.interaction_trail.path[2] {
                InteractionTrailPathComponent::RequestBody { content_type } => {
                    assert_eq!(content_type, "application/json")
                }
                _ => panic!("expected a request body component"),
            }
        }
        _ => panic!("expected an unmatched request body diff"),
    }
}

#[test]
fn pipeline_results_come_out_in_visitor_order() {
    let interaction = get_interaction("/unknown", Some(todo_body()), None, None);
    let mut visitors = DiffVisitors::new();

    visitors.path.visit(&interaction, &PathVisitorContext { path: None });
    visitors.query_params.visit(
        &interaction,
        &QueryParametersVisitorContext {
            path: "path_1".to_string(),
            query: None,
        },
    );
    visitors
        .request_body
        .end(&interaction, &PathVisitorContext { path: Some("path_1".to_string()) });
    visitors
        .response_body
        .end(&interaction, &PathVisitorContext { path: Some("path_1".to_string()) });

    let results = visitors.take_results();
    assert_eq!(results.len(), 4);
    assert!(matches!(&results[0], InteractionDiffResult::UnmatchedRequestUrl(_)));
    assert!(matches!(&results[1], InteractionDiffResult::UnmatchedQueryParameters(_)));
    assert!(matches!(&results[2], InteractionDiffResult::UnmatchedRequestBodyContentType(_)));
    assert!(matches!(&results[3], InteractionDiffResult::UnmatchedResponseBodyContentType(_)));
}

#[test]
fn matched_and_unmatched_request_body_diffs_never_coexist() {
    // Two candidate operations: one matches the interaction's content type,
    // one does not; the summary unmatched diff must not be emitted.
    let mut interaction = get_interaction("/todos", None, None, None);
    interaction.request.body = Body {
        content_type: Some("application/json".to_string()),
        value: Some(todo_body()),
    };
    let matching = RequestDescriptor {
        body: Some(HttpBodyDescriptor {
            http_content_type: "application/json".to_string(),
            root_shape_id: "request_shape_1".to_string(),
            is_removed: false,
        }),
    };
    let text_only = RequestDescriptor {
        body: Some(HttpBodyDescriptor {
            http_content_type: "text/plain".to_string(),
            root_shape_id: "request_shape_2".to_string(),
            is_removed: false,
        }),
    };
    let mut visitor = DiffRequestBodyVisitor::new();
    visitor.visit(
        &interaction,
        &RequestBodyVisitorContext {
            path: "path_1".to_string(),
            operation: Some(("request_2".to_string(), text_only)),
        },
    );
    visitor.visit(
        &interaction,
        &RequestBodyVisitorContext {
            path: "path_1".to_string(),
            operation: Some(("request_1".to_string(), matching)),
        },
    );
    visitor.end(&interaction, &PathVisitorContext { path: Some("path_1".to_string()) });

    let results = &visitor.results().results;
    let matched = results
        .iter()
        .filter(|d| matches!(d, InteractionDiffResult::MatchedRequestBodyContentType(_)))
        .count();
    let unmatched = results
        .iter()
        .filter(|d| matches!(d, InteractionDiffResult::UnmatchedRequestBodyContentType(_)))
        .count();
    assert_eq!(matched, 1);
    assert_eq!(unmatched, 0);
}
