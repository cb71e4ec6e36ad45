use optic_engine::chunks::SpecChunkEvent;
use optic_engine::events::{
    BatchCommitEnded, BatchCommitStarted, ContributionAdded, FieldAdded, PathComponentAdded,
    RequestAdded, ResponseAddedByPathAndMethod, ResponseBodySet, ShapeAdded, ShapedBodyDescriptor,
    SpecEvent,
};
use optic_engine::projection::ShapeProjection;
use optic_engine::queries::{ShapeQueries, ShapeTrail, ShapeTrailPathComponent};
use optic_engine::shape::{
    DynamicShapeParametersDescriptor, FieldShapeDescriptor, FieldShapeFromShape,
    ParameterShapeDescriptor, ProviderDescriptor, ProviderInShape, ShapeKind,
    ShapeParametersDescriptor, ShapeProvider,
};
use optic_engine::spec_choices::{ChoiceError, JsonType, ShapeChoice, ShapeChoiceQueries};

fn no_parameters() -> ShapeParametersDescriptor {
    ShapeParametersDescriptor::DynamicParameterList(DynamicShapeParametersDescriptor {
        shape_parameter_ids: vec![],
    })
}

fn shape_added(shape_id: &str, base_shape_id: &str) -> SpecEvent {
    SpecEvent::ShapeAdded(ShapeAdded {
        shape_id: shape_id.to_string(),
        base_shape_id: base_shape_id.to_string(),
        parameters: no_parameters(),
        name: "".to_string(),
    })
}

/// The event streams of the root chunk and its two batches, in replay order.
fn todos_spec_events() -> Vec<SpecEvent> {
    vec![
        SpecEvent::PathComponentAdded(PathComponentAdded {
            path_id: "path_1".to_string(),
            parent_path_id: "root".to_string(),
            name: "todos".to_string(),
        }),
        SpecEvent::ContributionAdded(ContributionAdded {
            id: "path_1.GET".to_string(),
            key: "purpose".to_string(),
            value: "todos".to_string(),
        }),
        SpecEvent::BatchCommitStarted(BatchCommitStarted {
            batch_id: "batch-1".to_string(),
            parent_id: Some("root".to_string()),
            commit_message: "Add Request and Response for GET /todos".to_string(),
        }),
        SpecEvent::RequestAdded(RequestAdded {
            request_id: "request_1".to_string(),
            path_id: "path_1".to_string(),
            http_method: "GET".to_string(),
        }),
        SpecEvent::ResponseAddedByPathAndMethod(ResponseAddedByPathAndMethod {
            response_id: "response_1".to_string(),
            path_id: "path_1".to_string(),
            http_method: "GET".to_string(),
            http_status_code: 200,
        }),
        SpecEvent::BatchCommitEnded(BatchCommitEnded {
            batch_id: "batch-1".to_string(),
        }),
        SpecEvent::BatchCommitStarted(BatchCommitStarted {
            batch_id: "batch-2".to_string(),
            parent_id: Some("batch-1".to_string()),
            commit_message: "dsasa".to_string(),
        }),
        shape_added("object_shape_1", "$object"),
        shape_added("boolean_shape_1", "$boolean"),
        SpecEvent::FieldAdded(FieldAdded {
            field_id: "field_1".to_string(),
            shape_id: "object_shape_1".to_string(),
            name: "isDone".to_string(),
            shape_descriptor: FieldShapeDescriptor::FieldShapeFromShape(FieldShapeFromShape {
                field_id: "field_1".to_string(),
                shape_id: "boolean_shape_1".to_string(),
            }),
        }),
        SpecEvent::ResponseBodySet(ResponseBodySet {
            response_id: "response_1".to_string(),
            body_descriptor: ShapedBodyDescriptor {
                http_content_type: "application/json".to_string(),
                shape_id: "object_shape_1".to_string(),
                is_removed: false,
            },
        }),
        SpecEvent::BatchCommitEnded(BatchCommitEnded {
            batch_id: "batch-2".to_string(),
        }),
    ]
}

fn root_trail(shape_id: &str) -> ShapeTrail {
    ShapeTrail {
        root_shape_id: shape_id.to_string(),
        path: vec![],
    }
}

#[test]
fn kind_descriptors_carry_base_shape_ids_and_names() {
    let descriptor = ShapeKind::ObjectKind.get_descriptor();
    assert_eq!(descriptor.base_shape_id, "$object");
    assert_eq!(descriptor.name, "Object");
    let descriptor = ShapeKind::BooleanKind.get_descriptor();
    assert_eq!(descriptor.base_shape_id, "$boolean");
    assert_eq!(descriptor.name, "Boolean");
    let descriptor = ShapeKind::OneOfKind.get_descriptor();
    assert_eq!(descriptor.base_shape_id, "$oneOf");
    assert_eq!(descriptor.name, "OneOf");
}

#[test]
fn only_the_list_kind_declares_a_built_in_parameter() {
    let descriptor = ShapeKind::ListKind.get_parameter_descriptor();
    assert_eq!(descriptor.unwrap().shape_parameter_id, "$listItem");
    assert!(ShapeKind::ObjectKind.get_parameter_descriptor().is_none());
    assert!(ShapeKind::StringKind.get_parameter_descriptor().is_none());
}

#[test]
fn projection_replay_is_deterministic() {
    let first = ShapeProjection::from_events(todos_spec_events());
    let second = ShapeProjection::from_events(todos_spec_events());
    assert_eq!(first.shapes.len(), second.shapes.len());
    assert_eq!(first.fields.len(), second.fields.len());
    for (a, b) in first.shapes.iter().zip(second.shapes.iter()) {
        assert_eq!(a.shape_id, b.shape_id);
        assert_eq!(a.base_shape_id, b.base_shape_id);
    }
    for (a, b) in first.fields.iter().zip(second.fields.iter()) {
        assert_eq!(a.field_id, b.field_id);
        assert_eq!(a.shape_id, b.shape_id);
        assert_eq!(a.name, b.name);
    }
}

#[test]
fn duplicate_shape_creation_is_skipped() {
    let events = vec![
        shape_added("shape_1", "$string"),
        shape_added("shape_1", "$number"),
    ];
    let projection = ShapeProjection::from_events(events);
    assert_eq!(projection.shapes.len(), 1);
    assert_eq!(projection.shapes[0].base_shape_id, "$string");
}

#[test]
fn field_for_unknown_shape_is_skipped() {
    let events = vec![SpecEvent::FieldAdded(FieldAdded {
        field_id: "field_9".to_string(),
        shape_id: "missing_shape".to_string(),
        name: "stray".to_string(),
        shape_descriptor: FieldShapeDescriptor::FieldShapeFromShape(FieldShapeFromShape {
            field_id: "field_9".to_string(),
            shape_id: "missing_shape".to_string(),
        }),
    })];
    let projection = ShapeProjection::from_events(events);
    assert_eq!(projection.fields.len(), 0);
}

#[test]
fn object_trail_choices_list_fields_in_declaration_order() {
    let projection = ShapeProjection::from_events(todos_spec_events());
    let choice_queries = ShapeChoiceQueries::from(&projection);
    let choices = choice_queries
        .trail_choices(&root_trail("object_shape_1"))
        .expect("object choices should resolve");
    assert_eq!(choices.len(), 1);
    match &choices[0] {
        ShapeChoice::Object(object) => {
            assert_eq!(object.shape_id, "object_shape_1");
            assert!(matches!(object.json_type, JsonType::Object));
            assert_eq!(object.fields.len(), 1);
            assert_eq!(object.fields[0].field_id, "field_1");
            assert_eq!(object.fields[0].name, "isDone");
            assert_eq!(object.fields[0].shape_id, "boolean_shape_1");
        }
        _ => panic!("expected an object choice"),
    }
}

#[test]
fn primitive_trail_choices_carry_their_json_type() {
    let projection = ShapeProjection::from_events(todos_spec_events());
    let choice_queries = ShapeChoiceQueries::from(&projection);
    let choices = choice_queries
        .trail_choices(&root_trail("boolean_shape_1"))
        .expect("boolean choices should resolve");
    assert_eq!(choices.len(), 1);
    match &choices[0] {
        ShapeChoice::Primitive(primitive) => {
            assert_eq!(primitive.shape_id, "boolean_shape_1");
            assert!(matches!(primitive.json_type, JsonType::Boolean));
        }
        _ => panic!("expected a primitive choice"),
    }
}

#[test]
fn list_trail_choices_resolve_the_item_shape() {
    let mut projection = ShapeProjection::from_events(vec![
        shape_added("list_1", "$list"),
        shape_added("string_1", "$string"),
    ]);
    projection.bind_parameter(ParameterShapeDescriptor::ProviderInShape(ProviderInShape {
        shape_id: "list_1".to_string(),
        provider_descriptor: ProviderDescriptor::ShapeProvider(ShapeProvider {
            shape_id: "string_1".to_string(),
        }),
        consuming_parameter_id: "$listItem".to_string(),
    }));

    let choice_queries = ShapeChoiceQueries::from(&projection);
    let choices = choice_queries
        .trail_choices(&root_trail("list_1"))
        .expect("list choices should resolve");
    assert_eq!(choices.len(), 1);
    match &choices[0] {
        ShapeChoice::Array(array) => {
            assert_eq!(array.shape_id, "list_1");
            assert!(matches!(array.json_type, JsonType::Array));
            assert_eq!(array.item_shape_id, "string_1");
        }
        _ => panic!("expected an array choice"),
    }
}

#[test]
fn unbound_list_item_resolves_to_unknown() {
    let projection = ShapeProjection::from_events(vec![shape_added("list_1", "$list")]);
    let queries = ShapeQueries::new(&projection);
    let resolved =
        queries.resolve_parameter_to_shape(&"list_1".to_string(), &"$listItem".to_string());
    assert_eq!(resolved, "$unknown");
}

#[test]
fn one_of_choices_expand_into_their_branches() {
    let mut projection = ShapeProjection::from_events(vec![
        SpecEvent::ShapeAdded(ShapeAdded {
            shape_id: "one_of_1".to_string(),
            base_shape_id: "$oneOf".to_string(),
            parameters: ShapeParametersDescriptor::DynamicParameterList(
                DynamicShapeParametersDescriptor {
                    shape_parameter_ids: vec!["param_a".to_string(), "param_b".to_string()],
                },
            ),
            name: "".to_string(),
        }),
        shape_added("string_1", "$string"),
        shape_added("number_1", "$number"),
    ]);
    projection.bind_parameter(ParameterShapeDescriptor::ProviderInShape(ProviderInShape {
        shape_id: "one_of_1".to_string(),
        provider_descriptor: ProviderDescriptor::ShapeProvider(ShapeProvider {
            shape_id: "string_1".to_string(),
        }),
        consuming_parameter_id: "param_a".to_string(),
    }));
    projection.bind_parameter(ParameterShapeDescriptor::ProviderInShape(ProviderInShape {
        shape_id: "one_of_1".to_string(),
        provider_descriptor: ProviderDescriptor::ShapeProvider(ShapeProvider {
            shape_id: "number_1".to_string(),
        }),
        consuming_parameter_id: "param_b".to_string(),
    }));

    let choice_queries = ShapeChoiceQueries::from(&projection);
    let choices = choice_queries
        .trail_choices(&root_trail("one_of_1"))
        .expect("branch choices should resolve");
    assert_eq!(choices.len(), 2);
    match (&choices[0], &choices[1]) {
        (ShapeChoice::Primitive(first), ShapeChoice::Primitive(second)) => {
            assert_eq!(first.shape_id, "string_1");
            assert!(matches!(first.json_type, JsonType::String));
            assert_eq!(second.shape_id, "number_1");
            assert!(matches!(second.json_type, JsonType::Number));
        }
        _ => panic!("expected two primitive choices"),
    }
}

#[test]
fn map_shapes_are_not_implemented() {
    let projection = ShapeProjection::from_events(vec![shape_added("map_1", "$map")]);
    let choice_queries = ShapeChoiceQueries::from(&projection);
    let result = choice_queries.trail_choices(&root_trail("map_1"));
    match result {
        Err(ChoiceError::NotImplemented(kind)) => assert!(matches!(kind, ShapeKind::MapKind)),
        _ => panic!("expected a not-implemented failure"),
    }
}

#[test]
fn identifier_and_reference_shapes_are_not_implemented() {
    let projection = ShapeProjection::from_events(vec![
        shape_added("identifier_1", "$identifier"),
        shape_added("reference_1", "$reference"),
    ]);
    let choice_queries = ShapeChoiceQueries::from(&projection);
    match choice_queries.trail_choices(&root_trail("identifier_1")) {
        Err(ChoiceError::NotImplemented(kind)) => {
            assert!(matches!(kind, ShapeKind::IdentifierKind))
        }
        _ => panic!("expected a not-implemented failure"),
    }
    match choice_queries.trail_choices(&root_trail("reference_1")) {
        Err(ChoiceError::NotImplemented(kind)) => {
            assert!(matches!(kind, ShapeKind::ReferenceKind))
        }
        _ => panic!("expected a not-implemented failure"),
    }
}

#[test]
fn unknown_shape_id_yields_the_unknown_choice() {
    let projection = ShapeProjection::from_events(vec![]);
    let choice_queries = ShapeChoiceQueries::from(&projection);
    let choices = choice_queries
        .trail_choices(&root_trail("missing"))
        .expect("unknown shapes still yield a choice");
    assert_eq!(choices.len(), 1);
    assert!(matches!(&choices[0], ShapeChoice::Unknown));
}

#[test]
fn trail_tip_follows_the_last_component() {
    let projection = ShapeProjection::from_events(todos_spec_events());
    let choice_queries = ShapeChoiceQueries::from(&projection);
    let trail = ShapeTrail {
        root_shape_id: "object_shape_1".to_string(),
        path: vec![ShapeTrailPathComponent::ObjectFieldTrail {
            field_id: "field_1".to_string(),
            field_shape_id: "boolean_shape_1".to_string(),
        }],
    };
    let choices = choice_queries
        .trail_choices(&trail)
        .expect("field tip choices should resolve");
    assert_eq!(choices.len(), 1);
    match &choices[0] {
        ShapeChoice::Primitive(primitive) => {
            assert_eq!(primitive.shape_id, "boolean_shape_1");
            assert!(matches!(primitive.json_type, JsonType::Boolean));
        }
        _ => panic!("expected a primitive choice"),
    }
}

#[test]
fn edit_shape_commands_are_not_implemented_yet() {
    let projection = ShapeProjection::from_events(todos_spec_events());
    let choice_queries = ShapeChoiceQueries::from(&projection);
    let result = choice_queries.edit_shape_commands(&root_trail("object_shape_1"), &vec![]);
    assert!(result.is_none());
}

#[test]
fn replaying_classified_chunks_feeds_the_projection() {
    let root = SpecChunkEvent::classify_chunk(
        "specification.json".to_string(),
        true,
        todos_spec_events().into_iter().take(2).collect(),
    );
    let rest = SpecChunkEvent::classify_chunk(
        "0001.json".to_string(),
        false,
        todos_spec_events().into_iter().skip(2).collect(),
    );

    let mut projection = ShapeProjection::new();
    for chunk in [root, rest] {
        for event in chunk.into_events_iter() {
            projection.apply(event);
        }
    }
    assert_eq!(projection.shapes.len(), 2);
    assert_eq!(projection.fields.len(), 1);
}
