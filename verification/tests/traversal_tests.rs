use routee_compass::composite::{ComponentModel, CompositeTraversalModel};
use routee_compass::graph::{Coordinate, Edge, Vertex};
use routee_compass::state::{AccessResult, StateVar};
use routee_compass::traversal::{DistanceTraversalModel, TraversalModel, TraversalModelError};
use routee_compass::units::DistanceUnit;

fn vertex(id: usize, lat_microdeg: i64, lon_microdeg: i64) -> Vertex {
    Vertex { vertex_id: id, coordinate: Coordinate { lat_microdeg, lon_microdeg } }
}

fn edge(distance_meters: u64) -> Edge {
    Edge {
        edge_id: 0,
        src_vertex_id: 0,
        dst_vertex_id: 1,
        distance_meters,
        grade_millis: 0,
        road_class: 0,
    }
}

#[test]
fn test_no_cost_is_identity() {
    let r = AccessResult::no_cost();
    assert_eq!(r.cost.0, 0);
    assert!(r.updated_state.is_none());
}

#[test]
fn test_distance_traverse_adds_converted_distance() {
    // 1500 meters in milli-kilometers: exactly 1500.
    let model = DistanceTraversalModel::new(DistanceUnit::Kilometers);
    let state = model.initial_state();
    let out = model
        .traverse_edge(&vertex(0, 0, 0), &edge(1500), &vertex(1, 0, 0), &state)
        .unwrap();
    assert_eq!(out, vec![StateVar(1500)]);

    // 1609344 meters is exactly 1000 miles: 1000000 milli-miles.
    let model = DistanceTraversalModel::new(DistanceUnit::Miles);
    let state = model.initial_state();
    let out = model
        .traverse_edge(&vertex(0, 0, 0), &edge(1609344), &vertex(1, 0, 0), &state)
        .unwrap();
    assert_eq!(out, vec![StateVar(1000000)]);

    // In meters the state counts milli-meters.
    let model = DistanceTraversalModel::new(DistanceUnit::Meters);
    let state = vec![StateVar(250)];
    let out = model
        .traverse_edge(&vertex(0, 0, 0), &edge(2), &vertex(1, 0, 0), &state)
        .unwrap();
    assert_eq!(out, vec![StateVar(2250)]);
}

#[test]
fn test_distance_estimate_identical_coordinates_adds_zero() {
    let model = DistanceTraversalModel::new(DistanceUnit::Kilometers);
    let state = vec![StateVar(700)];
    let here = vertex(0, 39750000, -105220000);
    let out = model.estimate_traversal(&here, &here, &state).unwrap();
    assert_eq!(out, vec![StateVar(700)]);
}

#[test]
fn test_distance_estimate_latitude_lower_bound() {
    // One degree of latitude is counted as 111194 meters, rounded down.
    let model = DistanceTraversalModel::new(DistanceUnit::Meters);
    let state = model.initial_state();
    let south = vertex(0, 0, 10000000);
    let north = vertex(1, 1000000, 10000000);
    let out = model.estimate_traversal(&south, &north, &state).unwrap();
    assert_eq!(out, vec![StateVar(111194000)]);
}

#[test]
fn test_distance_get_state_variable() {
    let model = DistanceTraversalModel::new(DistanceUnit::Miles);
    let state = vec![StateVar(42)];
    assert_eq!(model.get_state_variable("distance", &state).unwrap(), StateVar(42));
    assert!(matches!(
        model.get_state_variable("energy", &state),
        Err(TraversalModelError::InternalError)
    ));
}

#[test]
fn test_distance_access_edge_is_none() {
    let model = DistanceTraversalModel::new(DistanceUnit::Meters);
    let state = model.initial_state();
    let r = model
        .access_edge(
            &vertex(0, 0, 0),
            &edge(10),
            &vertex(1, 0, 0),
            &edge(20),
            &vertex(2, 0, 0),
            &state,
        )
        .unwrap();
    assert!(r.is_none());
}

#[test]
fn test_composite_single_component_matches_child() {
    let child = DistanceTraversalModel::new(DistanceUnit::Kilometers);
    let composite = CompositeTraversalModel::new(vec![(
        "distance".to_string(),
        ComponentModel::Distance(child),
    )])
    .unwrap();
    assert_eq!(composite.initial_state(), vec![StateVar(0)]);
    assert_eq!(composite.state_variable_names(), vec!["distance".to_string()]);

    let state = composite.initial_state();
    let out = composite
        .traverse_edge(&vertex(0, 0, 0), &edge(2500), &vertex(1, 0, 0), &state)
        .unwrap();
    assert_eq!(out, vec![StateVar(2500)]);

    let direct = DistanceTraversalModel::new(DistanceUnit::Kilometers);
    assert_eq!(
        composite.get_state_variable("distance", &out).unwrap(),
        direct.get_state_variable("distance", &out).unwrap()
    );

    let access = composite
        .access_edge(
            &vertex(0, 0, 0),
            &edge(10),
            &vertex(1, 0, 0),
            &edge(20),
            &vertex(2, 0, 0),
            &state,
        )
        .unwrap();
    assert!(access.is_none());
}

#[test]
fn test_composite_rejects_name_collision() {
    let a = ComponentModel::Distance(DistanceTraversalModel::new(DistanceUnit::Meters));
    let b = ComponentModel::Distance(DistanceTraversalModel::new(DistanceUnit::Miles));
    let r = CompositeTraversalModel::new(vec![("one".to_string(), a), ("two".to_string(), b)]);
    assert!(matches!(r, Err(TraversalModelError::BuildError)));
}

#[test]
fn test_composite_unknown_variable_is_internal_error() {
    let child = DistanceTraversalModel::new(DistanceUnit::Meters);
    let composite = CompositeTraversalModel::new(vec![(
        "distance".to_string(),
        ComponentModel::Distance(child),
    )])
    .unwrap();
    let state = composite.initial_state();
    assert!(matches!(
        composite.get_state_variable("energy", &state),
        Err(TraversalModelError::InternalError)
    ));
}

#[test]
fn test_traverse_overflow_is_numeric_error() {
    let model = DistanceTraversalModel::new(DistanceUnit::Meters);
    let state = vec![StateVar(i64::MAX)];
    let r = model.traverse_edge(&vertex(0, 0, 0), &edge(1), &vertex(1, 0, 0), &state);
    assert!(matches!(r, Err(TraversalModelError::NumericError)));
}

#[test]
fn test_serialize_state_reports_distance() {
    let model = DistanceTraversalModel::new(DistanceUnit::Kilometers);
    let state = vec![StateVar(1500)];
    let doc = model.serialize_state(&state);
    assert_eq!(serde_json::to_string(&doc).unwrap(), "{\"distance\":1500}");
    let info = model.serialize_state_info(&state);
    assert_eq!(
        serde_json::to_string(&info).unwrap(),
        "{\"distance_unit\":\"kilometers\"}"
    );
}

#[test]
fn test_composite_serialize_namespaces_children() {
    let child = DistanceTraversalModel::new(DistanceUnit::Kilometers);
    let composite = CompositeTraversalModel::new(vec![(
        "distance".to_string(),
        ComponentModel::Distance(child),
    )])
    .unwrap();
    let state = vec![StateVar(1500)];
    let doc = composite.serialize_state(&state);
    assert_eq!(
        serde_json::to_string(&doc).unwrap(),
        "{\"distance\":{\"distance\":1500}}"
    );
    let info = composite.serialize_state_info(&state);
    assert_eq!(
        serde_json::to_string(&info).unwrap(),
        "{\"distance\":{\"distance_unit\":\"kilometers\"}}"
    );
}

#[test]
fn test_get_state_variable_short_state_is_internal_error() {
    let model = DistanceTraversalModel::new(DistanceUnit::Meters);
    let empty: Vec<StateVar> = Vec::new();
    assert!(matches!(
        model.get_state_variable("distance", &empty),
        Err(TraversalModelError::InternalError)
    ));

    let composite = CompositeTraversalModel::new(vec![(
        "distance".to_string(),
        ComponentModel::Distance(DistanceTraversalModel::new(DistanceUnit::Meters)),
    )])
    .unwrap();
    assert!(matches!(
        composite.get_state_variable("distance", &empty),
        Err(TraversalModelError::InternalError)
    ));
}
