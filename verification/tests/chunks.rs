use optic_engine::chunks::{BatchChunkEvent, SpecChunkEvent};
use optic_engine::events::{
    BatchCommitEnded, BatchCommitStarted, ContributionAdded, FieldAdded, PathComponentAdded,
    RequestAdded, ResponseAddedByPathAndMethod, ResponseBodySet, ShapeAdded, ShapedBodyDescriptor,
    SpecEvent,
};
use optic_engine::shape::{
    DynamicShapeParametersDescriptor, FieldShapeDescriptor, FieldShapeFromShape,
    ShapeParametersDescriptor,
};

fn spec_events_for_root() -> Vec<SpecEvent> {
    vec![
        SpecEvent::PathComponentAdded(PathComponentAdded {
            path_id: "path_1".to_string(),
            parent_path_id: "root".to_string(),
            name: "todos".to_string(),
        }),
        SpecEvent::ContributionAdded(ContributionAdded {
            id: "path_1.GET".to_string(),
            key: "purpose".to_string(),
            value: "todos".to_string(),
        }),
    ]
}

fn spec_events_for_batch_two() -> Vec<SpecEvent> {
    vec![
        SpecEvent::BatchCommitStarted(BatchCommitStarted {
            batch_id: "batch-2".to_string(),
            parent_id: Some("batch-1".to_string()),
            commit_message: "dsasa".to_string(),
        }),
        SpecEvent::ShapeAdded(ShapeAdded {
            shape_id: "object_shape_1".to_string(),
            base_shape_id: "$object".to_string(),
            parameters: ShapeParametersDescriptor::DynamicParameterList(
                DynamicShapeParametersDescriptor {
                    shape_parameter_ids: vec![],
                },
            ),
            name: "".to_string(),
        }),
        SpecEvent::ShapeAdded(ShapeAdded {
            shape_id: "boolean_shape_1".to_string(),
            base_shape_id: "$boolean".to_string(),
            parameters: ShapeParametersDescriptor::DynamicParameterList(
                DynamicShapeParametersDescriptor {
                    shape_parameter_ids: vec![],
                },
            ),
            name: "".to_string(),
        }),
        SpecEvent::FieldAdded(FieldAdded {
            field_id: "field_1".to_string(),
            shape_id: "object_shape_1".to_string(),
            name: "isDone".to_string(),
            shape_descriptor: FieldShapeDescriptor::FieldShapeFromShape(FieldShapeFromShape {
                field_id: "field_1".to_string(),
                shape_id: "boolean_shape_1".to_string(),
            }),
        }),
        SpecEvent::ResponseBodySet(ResponseBodySet {
            response_id: "response_1".to_string(),
            body_descriptor: ShapedBodyDescriptor {
                http_content_type: "application/json".to_string(),
                shape_id: "object_shape_1".to_string(),
                is_removed: false,
            },
        }),
        SpecEvent::BatchCommitEnded(BatchCommitEnded {
            batch_id: "batch-2".to_string(),
        }),
    ]
}

fn spec_events_for_batch_one() -> Vec<SpecEvent> {
    vec![
        SpecEvent::BatchCommitStarted(BatchCommitStarted {
            batch_id: "batch-1".to_string(),
            parent_id: Some("root".to_string()),
            commit_message: "Add Request and Response for GET /todos".to_string(),
        }),
        SpecEvent::RequestAdded(RequestAdded {
            request_id: "request_1".to_string(),
            path_id: "path_1".to_string(),
            http_method: "GET".to_string(),
        }),
        SpecEvent::ResponseAddedByPathAndMethod(ResponseAddedByPathAndMethod {
            response_id: "response_1".to_string(),
            path_id: "path_1".to_string(),
            http_method: "GET".to_string(),
            http_status_code: 200,
        }),
        SpecEvent::BatchCommitEnded(BatchCommitEnded {
            batch_id: "batch-1".to_string(),
        }),
    ]
}

#[test]
pub fn can_construct_spec_chunk_events() {
    let spec_chunk_events: Vec<SpecChunkEvent> = vec![
        (
            String::from("specification.json"),
            true,
            spec_events_for_root(),
        ),
        (String::from("0002.json"), false, spec_events_for_batch_two()),
        (String::from("0001.json"), false, spec_events_for_batch_one()),
    ]
    .into_iter()
    .map(|(file_name, is_root, events)| SpecChunkEvent::classify_chunk(file_name, is_root, events))
    .collect();

    assert_eq!(
        spec_chunk_events
            .iter()
            .map(|chunk| matches!(chunk, SpecChunkEvent::Root(_)))
            .collect::<Vec<_>>(),
        vec![true, false, false]
    );

    assert_eq!(
        spec_chunk_events
            .iter()
            .map(|chunk| matches!(chunk, SpecChunkEvent::Batch(_)))
            .collect::<Vec<_>>(),
        vec![false, true, true]
    );
}

#[test]
fn root_chunk_carries_root_id_name_and_events() {
    let chunk =
        SpecChunkEvent::classify_chunk("specification.json".to_string(), true, spec_events_for_root());
    match &chunk {
        SpecChunkEvent::Root(root) => {
            assert_eq!(root.id, "root");
            assert_eq!(root.name, "specification.json");
            assert_eq!(root.events.len(), 2);
        }
        _ => panic!("expected a root chunk"),
    }
    assert_eq!(chunk.event_type(), "RootChunkEvent");
}

#[test]
fn batch_chunk_takes_ids_from_its_first_event() {
    let chunk =
        SpecChunkEvent::classify_chunk("0002.json".to_string(), false, spec_events_for_batch_two());
    match &chunk {
        SpecChunkEvent::Batch(batch) => {
            assert_eq!(batch.id, "batch-2");
            assert_eq!(batch.parent_id, "batch-1");
            assert_eq!(batch.name, "0002.json");
            assert_eq!(batch.events.len(), 6);
        }
        _ => panic!("expected a batch chunk"),
    }
    assert_eq!(chunk.event_type(), "BatchChunkEvent");
}

#[test]
fn chunk_without_batch_commit_start_is_unknown() {
    let chunk =
        SpecChunkEvent::classify_chunk("stray.json".to_string(), false, spec_events_for_root());
    match &chunk {
        SpecChunkEvent::Unknown(unknown) => {
            assert_eq!(unknown.name, "stray.json");
            assert_eq!(unknown.events.len(), 2);
        }
        _ => panic!("expected an unknown chunk"),
    }
    assert_eq!(chunk.event_type(), "UnknownChunkEvent");
}

#[test]
fn empty_chunk_is_unknown() {
    let chunk = SpecChunkEvent::classify_chunk("empty.json".to_string(), false, vec![]);
    assert!(matches!(chunk, SpecChunkEvent::Unknown(_)));
}

#[test]
fn batch_commit_without_parent_id_is_unknown() {
    let events = vec![SpecEvent::BatchCommitStarted(BatchCommitStarted {
        batch_id: "batch-9".to_string(),
        parent_id: None,
        commit_message: "".to_string(),
    })];
    let chunk = SpecChunkEvent::classify_chunk("0009.json".to_string(), false, events);
    assert!(matches!(chunk, SpecChunkEvent::Unknown(_)));
}

#[test]
fn failed_batch_classification_hands_name_and_events_back() {
    let result = BatchChunkEvent::try_from("stray.json".to_string(), spec_events_for_root());
    match result {
        Err((message, name, events)) => {
            assert_eq!(
                message,
                "Chunk does not start with a BatchCommitStarted with batchId and parentId"
            );
            assert_eq!(name, "stray.json");
            assert_eq!(events.len(), 2);
        }
        Ok(_) => panic!("expected classification to fail"),
    }
}

#[test]
fn into_events_iter_preserves_count_and_order() {
    let chunk =
        SpecChunkEvent::classify_chunk("0001.json".to_string(), false, spec_events_for_batch_one());
    let events = chunk.into_events_iter();
    assert_eq!(events.len(), 4);
    assert!(matches!(&events[0], SpecEvent::BatchCommitStarted(_)));
    assert!(matches!(&events[1], SpecEvent::RequestAdded(_)));
    assert!(matches!(&events[2], SpecEvent::ResponseAddedByPathAndMethod(_)));
    assert!(matches!(&events[3], SpecEvent::BatchCommitEnded(_)));

    let root = SpecChunkEvent::classify_chunk(
        "specification.json".to_string(),
        true,
        spec_events_for_root(),
    );
    assert_eq!(root.into_events_iter().len(), 2);

    let unknown =
        SpecChunkEvent::classify_chunk("stray.json".to_string(), false, spec_events_for_root());
    assert_eq!(unknown.into_events_iter().len(), 2);
}

#[test]
fn replay_order_puts_the_root_first_and_parents_before_children() {
    let chunks = vec![
        SpecChunkEvent::classify_chunk("0002.json".to_string(), false, spec_events_for_batch_two()),
        SpecChunkEvent::classify_chunk(
            "specification.json".to_string(),
            true,
            spec_events_for_root(),
        ),
        SpecChunkEvent::classify_chunk("0001.json".to_string(), false, spec_events_for_batch_one()),
    ];
    let ordered = optic_engine::chunks::replay_order(chunks);
    assert_eq!(ordered.len(), 3);
    match &ordered[0] {
        SpecChunkEvent::Root(root) => assert_eq!(root.name, "specification.json"),
        _ => panic!("expected the root chunk first"),
    }
    match &ordered[1] {
        SpecChunkEvent::Batch(batch) => assert_eq!(batch.id, "batch-1"),
        _ => panic!("expected the first batch second"),
    }
    match &ordered[2] {
        SpecChunkEvent::Batch(batch) => assert_eq!(batch.id, "batch-2"),
        _ => panic!("expected the second batch last"),
    }
}

#[test]
fn replay_order_breaks_ties_by_name_and_drops_unknown_chunks() {
    fn batch(name: &str, id: &str) -> SpecChunkEvent {
        SpecChunkEvent::classify_chunk(
            name.to_string(),
            false,
            vec![SpecEvent::BatchCommitStarted(BatchCommitStarted {
                batch_id: id.to_string(),
                parent_id: Some("root".to_string()),
                commit_message: "".to_string(),
            })],
        )
    }
    let chunks = vec![
        batch("0002.json", "batch-b"),
        SpecChunkEvent::classify_chunk("stray.json".to_string(), false, spec_events_for_root()),
        batch("0001.json", "batch-a"),
        SpecChunkEvent::classify_chunk(
            "specification.json".to_string(),
            true,
            spec_events_for_root(),
        ),
    ];
    let ordered = optic_engine::chunks::replay_order(chunks);
    assert_eq!(ordered.len(), 3);
    assert!(matches!(&ordered[0], SpecChunkEvent::Root(_)));
    match &ordered[1] {
        SpecChunkEvent::Batch(b) => assert_eq!(b.id, "batch-a"),
        _ => panic!("expected batch-a second"),
    }
    match &ordered[2] {
        SpecChunkEvent::Batch(b) => assert_eq!(b.id, "batch-b"),
        _ => panic!("expected batch-b last"),
    }
}

#[test]
fn replay_order_keeps_orphaned_batches() {
    let chunks = vec![SpecChunkEvent::classify_chunk(
        "0009.json".to_string(),
        false,
        vec![SpecEvent::BatchCommitStarted(BatchCommitStarted {
            batch_id: "batch-9".to_string(),
            parent_id: Some("missing".to_string()),
            commit_message: "".to_string(),
        })],
    )];
    let ordered = optic_engine::chunks::replay_order(chunks);
    assert_eq!(ordered.len(), 1);
    assert!(matches!(&ordered[0], SpecChunkEvent::Batch(_)));
}
