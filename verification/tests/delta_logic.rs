use pod_net::delta::{
    apply_entity_delta, entity_delta, overlay_controlled_entity, upsert_record, EntityRecord,
};

#[derive(Debug, Clone, PartialEq)]
struct Body {
    position: (f32, f32),
    velocity: (f32, f32),
    label: Option<&'static str>,
}

fn body(x: f32, y: f32, label: Option<&'static str>) -> Body {
    Body {
        position: (x, y),
        velocity: (0.0, 0.0),
        label,
    }
}

fn record(id: u64, entity: Body) -> EntityRecord<Body> {
    EntityRecord { id, entity }
}

#[test]
fn test_delta_apply() {
    let snap1 = vec![record(1, body(0.0, 0.0, None))];
    let snap2 = apply_entity_delta(snap1, vec![record(2, body(5.0, 5.0, None))], &vec![]);
    assert_eq!(snap2.len(), 2);
}

#[test]
fn test_delta_apply_keeps_existing_updates_when_destroy_contains_extra_ids() {
    let base = vec![
        record(10, body(0.0, 0.0, Some("keep"))),
        record(11, body(1.0, 1.0, Some("to_remove"))),
    ];
    let applied = apply_entity_delta(
        base,
        vec![record(10, body(5.0, 5.0, Some("updated")))],
        &vec![11, 99_999],
    );
    assert_eq!(applied.len(), 1);
    assert_eq!(applied[0].id, 10);
    assert_eq!(
        applied.iter().find(|e| e.id == 10).unwrap().entity.label,
        Some("updated")
    );
    assert!(applied.iter().all(|entity| entity.id != 99_999));
}

#[test]
fn test_compose_presentation_snapshot_overlays_predicted_controlled_entity() {
    let sampled = vec![
        record(1, body(5.0, 0.0, Some("player"))),
        record(2, body(10.0, 0.0, Some("npc"))),
    ];
    let mut predicted = body(8.0, 1.0, Some("player"));
    predicted.velocity = (3.0, 0.0);
    let predicted_local = vec![record(1, predicted)];

    let composed = overlay_controlled_entity(sampled, Some(predicted_local), Some(1));

    assert_eq!(composed.len(), 2);
    let controlled = composed.iter().find(|entity| entity.id == 1).unwrap();
    assert_eq!(controlled.entity.position, (8.0, 1.0));
    assert_eq!(controlled.entity.velocity, (3.0, 0.0));
}

#[test]
fn overlay_leaves_sample_without_controlled_prediction() {
    let sampled = vec![record(1, body(5.0, 0.0, None))];
    let kept = overlay_controlled_entity(sampled, Some(vec![record(2, body(1.0, 1.0, None))]), Some(1));
    assert_eq!(kept.len(), 1);
    assert_eq!(kept[0].entity.position, (5.0, 0.0));

    let added = overlay_controlled_entity(
        vec![record(2, body(0.0, 0.0, None))],
        Some(vec![record(1, body(8.0, 1.0, None))]),
        Some(1),
    );
    assert_eq!(added.len(), 2);
    assert_eq!(added[1].id, 1);

    let untouched = overlay_controlled_entity(vec![record(3, body(0.0, 0.0, None))], None, Some(3));
    assert_eq!(untouched.len(), 1);
}

#[test]
fn upsert_replaces_first_match_or_appends() {
    let mut records = vec![record(1, body(0.0, 0.0, Some("a"))), record(1, body(0.0, 0.0, Some("b")))];
    upsert_record(&mut records, record(1, body(0.0, 0.0, Some("c"))));
    assert_eq!(records[0].entity.label, Some("c"));
    assert_eq!(records[1].entity.label, Some("b"));
    upsert_record(&mut records, record(4, body(0.0, 0.0, None)));
    assert_eq!(records.len(), 3);
    assert_eq!(records[2].id, 4);
}

use pod_net::interest::{
    interest_chunk_keys, select_debug_document, ChunkNeighbors, DebugDocumentSelection,
    DebugDocumentSubject, RegionChunks,
};

fn strings(values: &[&str]) -> Vec<String> {
    values.iter().map(|v| v.to_string()).collect()
}

#[test]
fn interest_chunks_follow_chunk_then_region() {
    let chunks = vec![
        ChunkNeighbors {
            chunk_key: "0:0".to_string(),
            neighbor_chunk_keys: strings(&["0:1", "1:0"]),
        },
        ChunkNeighbors {
            chunk_key: "0:0".to_string(),
            neighbor_chunk_keys: strings(&["ignored"]),
        },
    ];
    let regions = vec![RegionChunks {
        region_id: "verdant-heart".to_string(),
        chunk_keys: strings(&["2:2", "2:3"]),
    }];
    assert_eq!(
        interest_chunk_keys(Some("0:0"), Some("verdant-heart"), &chunks, &regions),
        strings(&["0:0", "0:1", "1:0"])
    );
    assert_eq!(
        interest_chunk_keys(Some("9:9"), None, &chunks, &regions),
        strings(&["9:9"])
    );
    assert_eq!(
        interest_chunk_keys(None, Some("verdant-heart"), &chunks, &regions),
        strings(&["2:2", "2:3"])
    );
    assert!(interest_chunk_keys(None, Some("elsewhere"), &chunks, &regions).is_empty());
    assert!(interest_chunk_keys(None, None, &chunks, &regions).is_empty());
}

#[test]
fn debug_documents_follow_client_interest() {
    let telemetry = DebugDocumentSubject::TickTelemetry {
        agent_entities: vec![Some(30), None, Some(31), Some(40)],
    };
    let interested = vec![31, 30];
    assert_eq!(
        select_debug_document(&telemetry, false, &interested),
        DebugDocumentSelection::AgentFrames(vec![0, 2])
    );
    assert_eq!(
        select_debug_document(&telemetry, false, &vec![99]),
        DebugDocumentSelection::Skip
    );
    assert_eq!(
        select_debug_document(&telemetry, true, &vec![]),
        DebugDocumentSelection::Whole
    );
    let tool = DebugDocumentSubject::AgentToolCallEvent { agent_entity_id: 40 };
    assert_eq!(select_debug_document(&tool, false, &interested), DebugDocumentSelection::Skip);
    let rollup = DebugDocumentSubject::AgentTickRollup { agent_entity_id: 30 };
    assert_eq!(select_debug_document(&rollup, false, &interested), DebugDocumentSelection::Whole);
    assert_eq!(
        select_debug_document(&DebugDocumentSubject::ShardTransportSummary, false, &vec![]),
        DebugDocumentSelection::Whole
    );
}

/// The host's change test on entity contents: positions and velocities
/// within a small tolerance, other fields exactly.
fn body_changed(old: &Body, new: &Body) -> bool {
    const EPSILON: f32 = 0.01;
    let distance = |a: (f32, f32), b: (f32, f32)| ((a.0 - b.0).powi(2) + (a.1 - b.1).powi(2)).sqrt();
    distance(old.position, new.position) > EPSILON
        || distance(old.velocity, new.velocity) > EPSILON
        || old.label != new.label
}

/// The diff of two snapshots, with the change flags the host computes.
fn diff(old: &Vec<EntityRecord<Body>>, new: Vec<EntityRecord<Body>>) -> (Vec<EntityRecord<Body>>, Vec<u64>) {
    let changed = new
        .iter()
        .map(|n| match old.iter().rev().find(|o| o.id == n.id) {
            Some(o) => body_changed(&o.entity, &n.entity),
            None => true,
        })
        .collect();
    entity_delta(old, new, &changed)
}

#[test]
fn test_delta_diff() {
    let snap1 = vec![record(1, Body { position: (0.0, 0.0), velocity: (1.0, 0.0), label: Some("Player") })];
    let snap2 = vec![record(1, Body { position: (1.0, 0.0), velocity: (1.0, 0.0), label: Some("Player") })];
    let (updated, destroyed) = diff(&snap1, snap2);
    assert_eq!(updated.len(), 1);
    assert_eq!(destroyed.len(), 0);
}

#[test]
fn test_delta_ignores_small_jitter_as_unchanged() {
    let snap1 = vec![record(1, Body { position: (0.0, 0.0), velocity: (0.0, 0.0), label: Some("sprite2d") })];
    let snap2 = vec![record(1, Body { position: (0.005, -0.005), velocity: (0.002, 0.003), label: Some("sprite2d") })];
    let (updated, destroyed) = diff(&snap1, snap2);
    assert_eq!(updated.len(), 0);
    assert_eq!(destroyed.len(), 0);
}

#[test]
fn test_delta_prefers_updated_mode_like_label_change_over_destroy() {
    let base = vec![record(12, body(0.0, 0.0, Some("sprite2d")))];
    let next = vec![record(12, body(0.0, 0.0, Some("sprite3d")))];
    let (updated, _) = diff(&base, next);
    assert_eq!(updated.len(), 1);
    assert_eq!(updated[0].entity.label, Some("sprite3d"));

    let applied = apply_entity_delta(base, updated, &vec![12]);
    assert_eq!(applied.len(), 1);
    assert_eq!(applied[0].id, 12);
    assert_eq!(applied[0].entity.label, Some("sprite3d"));
}

#[test]
fn delta_carries_new_and_changed_entities_and_destroys_missing_ones() {
    let old = vec![
        record(1, body(0.0, 0.0, Some("a"))),
        record(2, body(1.0, 1.0, Some("b"))),
        record(3, body(2.0, 2.0, Some("c"))),
    ];
    let new = || {
        vec![
            record(3, body(2.0, 2.0, Some("c"))),
            record(4, body(9.0, 9.0, Some("d"))),
            record(1, body(5.0, 0.0, Some("a"))),
        ]
    };
    let (updated, destroyed) = diff(&old, new());
    assert_eq!(updated.iter().map(|r| r.id).collect::<Vec<_>>(), vec![4, 1]);
    assert_eq!(destroyed, vec![2]);

    // Applying the delta to the old snapshot gives the new entity set.
    let mut applied = apply_entity_delta(old, updated, &destroyed);
    applied.sort_by_key(|r| r.id);
    let mut expected = new();
    expected.sort_by_key(|r| r.id);
    assert_eq!(applied.len(), expected.len());
    for (a, e) in applied.iter().zip(expected.iter()) {
        assert_eq!(a.id, e.id);
        assert_eq!(a.entity, e.entity);
    }
}

#[test]
fn delta_keeps_one_record_per_id() {
    let old = vec![record(1, body(0.0, 0.0, None)), record(1, body(3.0, 0.0, None))];
    let new = vec![record(7, body(0.0, 0.0, None)), record(7, body(1.0, 0.0, None))];
    let (updated, destroyed) = entity_delta(&old, new, &vec![true, true]);
    assert_eq!(updated.len(), 1);
    assert_eq!(updated[0].entity.position, (1.0, 0.0));
    assert_eq!(destroyed, vec![1]);
}
