use manycore_parser::{
    AttributeBag, AttributeType, BorderKind, BorderRouter, Borders, Channel, Channels, Core,
    Cores, DecodedSystem, Directions, Edge, Flow, ManycoreErrorKind, ManycoreSystem, MatrixEdge,
    Router, RoutingAlgorithms, Task, TaskGraph, BORDER_ROUTERS_KEY, COORDINATES_KEY, ID_KEY,
    ROUTING_KEY,
};

fn bag(pairs: &[(&str, &str)]) -> Option<AttributeBag> {
    let mut b = AttributeBag::new();
    for (k, v) in pairs {
        b.insert(k.to_string(), v.to_string());
    }
    Some(b)
}

fn plain_core(id: u8) -> Core {
    Core::new(id, Router::new(0, None), None, None, None)
}

fn system(rows: u8, columns: u8, cores: Vec<Core>, borders: Option<Borders>) -> DecodedSystem {
    DecodedSystem {
        xmlns: "https://www.york.ac.uk/physics-engineering-technology/ManycoreSystems".to_string(),
        xmlns_si: "http://www.w3.org/2001/XMLSchema-instance".to_string(),
        xsi_schema_location: "manycore_schema.xsd".to_string(),
        rows,
        columns,
        routing_algo: None,
        task_graph: TaskGraph::new(vec![], vec![]),
        cores: Cores::new(cores),
        borders,
    }
}

fn scenario_core(id: u8, task: Option<u16>) -> Core {
    let router = Router::new(
        200,
        bag(&[("age", "30"), ("temperature", "45"), ("status", "Normal")]),
    );
    Core::new(id, router, task, None, None)
}

fn scenario() -> DecodedSystem {
    let mut cores = Vec::new();
    for id in 0..9u8 {
        let task = match id {
            1 => Some(3),
            4 => Some(1),
            6 => Some(0),
            7 => Some(2),
            _ => None,
        };
        cores.push(scenario_core(id, task));
    }
    let mut d = system(3, 3, cores, None);
    d.routing_algo = Some("RowFirst".to_string());
    d.task_graph = TaskGraph::new(
        vec![
            Task { id: 0, computation_cost: 40 },
            Task { id: 1, computation_cost: 80 },
            Task { id: 2, computation_cost: 60 },
            Task { id: 3, computation_cost: 40 },
        ],
        vec![Edge { from: 0, to: 1, communication_cost: 30 }],
    );
    d
}

#[test]
fn end_to_end_three_by_three() {
    let m = ManycoreSystem::construct(scenario()).unwrap();
    let map = m.task_core_map();
    assert_eq!(map.len(), 4);
    assert_eq!(map.get(&0), Some(&6));
    assert_eq!(map.get(&1), Some(&4));
    assert_eq!(map.get(&2), Some(&7));
    assert_eq!(map.get(&3), Some(&1));
    let routers = m.configurable_attributes().router_attributes();
    assert_eq!(routers.len(), 3);
    assert_eq!(routers.get("age"), Some(AttributeType::Number));
    assert_eq!(routers.get("temperature"), Some(AttributeType::Number));
    assert_eq!(routers.get("status"), Some(AttributeType::Text));
    assert_eq!(
        m.configurable_attributes().observed_algorithm(),
        &Some("RowFirst".to_string())
    );
    assert_eq!(m.routing_algo(), &Some("RowFirst".to_string()));
    assert_eq!(*m.rows(), 3);
    assert_eq!(*m.columns(), 3);
    assert_eq!(m.cores().len(), 9);
    assert_eq!(m.task_graph().tasks().len(), 4);
    assert_eq!(m.task_graph().edges()[0].to, 1);
}

#[test]
fn end_to_end_catalogue_of_algorithms() {
    let m = ManycoreSystem::construct(scenario()).unwrap();
    assert_eq!(
        m.configurable_attributes().algorithms(),
        &vec![
            RoutingAlgorithms::Observed,
            RoutingAlgorithms::RowFirst,
            RoutingAlgorithms::ColumnFirst
        ]
    );
    assert_eq!(RoutingAlgorithms::RowFirst.name(), "RowFirst");
    assert_eq!(RoutingAlgorithms::ColumnFirst.name(), "ColumnFirst");
    assert_eq!(RoutingAlgorithms::Observed.name(), "Observed");
}

#[test]
fn count_invariant_holds_of_a_model() {
    let m = ManycoreSystem::construct(scenario()).unwrap();
    assert_eq!(m.cores().len(), usize::from(*m.rows()) * usize::from(*m.columns()));
}

#[test]
fn count_mismatch_is_reported() {
    let cores = vec![plain_core(0), plain_core(1), plain_core(2)];
    let e = ManycoreSystem::construct(system(2, 2, cores, None)).unwrap_err();
    assert_eq!(
        e.kind(),
        &ManycoreErrorKind::StructuralMismatch { expected: 4, actual: 3, rows: 2, columns: 2 }
    );
}

#[test]
fn count_is_checked_before_identifiers() {
    let cores = vec![plain_core(7), plain_core(7)];
    let e = ManycoreSystem::construct(system(1, 3, cores, None)).unwrap_err();
    assert_eq!(
        e.kind(),
        &ManycoreErrorKind::StructuralMismatch { expected: 3, actual: 2, rows: 1, columns: 3 }
    );
}

#[test]
fn gap_in_identifiers_is_reported() {
    let cores = vec![plain_core(0), plain_core(1), plain_core(3)];
    let e = ManycoreSystem::construct(system(1, 3, cores, None)).unwrap_err();
    assert_eq!(
        e.kind(),
        &ManycoreErrorKind::IdentifierSequenceError {
            expected: 2,
            encountered: 3,
            previous: Some(1)
        }
    );
}

#[test]
fn gap_is_found_in_ascending_order_whatever_the_document_order() {
    let cores = vec![plain_core(3), plain_core(0), plain_core(1)];
    let e = ManycoreSystem::construct(system(3, 1, cores, None)).unwrap_err();
    assert_eq!(
        e.kind(),
        &ManycoreErrorKind::IdentifierSequenceError {
            expected: 2,
            encountered: 3,
            previous: Some(1)
        }
    );
}

#[test]
fn repeated_identifier_is_reported() {
    let cores = vec![plain_core(0), plain_core(1), plain_core(1), plain_core(2)];
    let e = ManycoreSystem::construct(system(2, 2, cores, None)).unwrap_err();
    assert_eq!(
        e.kind(),
        &ManycoreErrorKind::IdentifierSequenceError {
            expected: 2,
            encountered: 1,
            previous: Some(1)
        }
    );
}

#[test]
fn first_identifier_not_zero_has_no_previous() {
    let cores = vec![plain_core(1), plain_core(2)];
    let e = ManycoreSystem::construct(system(1, 2, cores, None)).unwrap_err();
    assert_eq!(
        e.kind(),
        &ManycoreErrorKind::IdentifierSequenceError { expected: 0, encountered: 1, previous: None }
    );
}

#[test]
fn more_cores_than_identifiers_fail_the_sequence() {
    let mut cores = Vec::new();
    for i in 0..300u32 {
        cores.push(plain_core((i % 256) as u8));
    }
    let e = ManycoreSystem::construct(system(15, 20, cores, None)).unwrap_err();
    assert_eq!(
        e.kind(),
        &ManycoreErrorKind::IdentifierSequenceError {
            expected: 1,
            encountered: 0,
            previous: Some(0)
        }
    );
}

#[test]
fn cores_are_put_in_identifier_order() {
    let order = [4u8, 2, 0, 5, 1, 3];
    let cores: Vec<Core> = order
        .iter()
        .map(|id| Core::new(*id, Router::new(0, None), Some(u16::from(*id) + 100), None, None))
        .collect();
    let m = ManycoreSystem::construct(system(2, 3, cores, None)).unwrap();
    for (i, core) in m.cores().list().iter().enumerate() {
        assert_eq!(usize::from(*core.id()), i);
        assert_eq!(*core.allocated_task(), Some(i as u16 + 100));
        assert_eq!(m.task_core_map().get(&(i as u16 + 100)), Some(&i));
    }
}

#[test]
fn router_mirrors_its_core() {
    let m = ManycoreSystem::construct(scenario()).unwrap();
    for core in m.cores().list() {
        assert_eq!(core.router().id(), core.id());
    }
    let cores = vec![
        Core::new(1, Router::new(9, None), None, None, None),
        Core::new(0, Router::new(1, None), None, None, None),
    ];
    let m = ManycoreSystem::construct(system(1, 2, cores, None)).unwrap();
    assert_eq!(*m.cores().list()[0].router().id(), 0);
    assert_eq!(*m.cores().list()[1].router().id(), 1);
}

#[test]
fn router_keeps_its_attributes() {
    let m = ManycoreSystem::construct(scenario()).unwrap();
    let router = m.cores().list()[5].router();
    let attributes = router.other_attributes().as_ref().unwrap();
    assert_eq!(attributes.get("temperature"), Some(&"45".to_string()));
    assert_eq!(router.variant(), "r");
}

#[test]
fn edge_flags_of_a_three_by_three_grid() {
    let m = ManycoreSystem::construct(scenario()).unwrap();
    let list = m.cores().list();
    assert_eq!(
        list[0].matrix_edge(),
        MatrixEdge { top: true, bottom: false, left: true, right: false }
    );
    assert_eq!(
        list[4].matrix_edge(),
        MatrixEdge { top: false, bottom: false, left: false, right: false }
    );
    assert_eq!(
        list[8].matrix_edge(),
        MatrixEdge { top: false, bottom: true, left: false, right: true }
    );
    assert_eq!(
        list[2].matrix_edge(),
        MatrixEdge { top: true, bottom: false, left: false, right: true }
    );
    assert_eq!(
        list[3].matrix_edge(),
        MatrixEdge { top: false, bottom: false, left: true, right: false }
    );
    assert_eq!(
        list[7].matrix_edge(),
        MatrixEdge { top: false, bottom: true, left: false, right: false }
    );
}

#[test]
fn edge_flags_of_a_single_cell() {
    let m = ManycoreSystem::construct(system(1, 1, vec![plain_core(0)], None)).unwrap();
    assert_eq!(
        m.cores().list()[0].matrix_edge(),
        MatrixEdge { top: true, bottom: true, left: true, right: true }
    );
}

#[test]
fn edge_flags_of_a_wide_grid() {
    let mut core = plain_core(5);
    core.populate_matrix_edge(4, 2);
    assert_eq!(
        core.matrix_edge(),
        MatrixEdge { top: false, bottom: true, left: false, right: false }
    );
    let mut core = plain_core(255);
    core.populate_matrix_edge(255, 255);
    assert_eq!(
        core.matrix_edge(),
        MatrixEdge { top: false, bottom: false, left: true, right: false }
    );
    let mut core = plain_core(254);
    core.populate_matrix_edge(255, 1);
    assert_eq!(
        core.matrix_edge(),
        MatrixEdge { top: true, bottom: true, left: false, right: true }
    );
}

#[test]
fn a_new_core_lies_on_no_edge() {
    assert_eq!(
        plain_core(0).matrix_edge(),
        MatrixEdge { top: false, bottom: false, left: false, right: false }
    );
}

#[test]
fn empty_grid_gives_an_empty_model() {
    let m = ManycoreSystem::construct(system(0, 5, vec![], None)).unwrap();
    assert_eq!(m.cores().len(), 0);
    assert!(m.task_core_map().is_empty());
    assert_eq!(m.configurable_attributes().router_attributes().len(), 0);
    let e = ManycoreSystem::construct(system(0, 5, vec![plain_core(0)], None)).unwrap_err();
    assert_eq!(
        e.kind(),
        &ManycoreErrorKind::StructuralMismatch { expected: 0, actual: 1, rows: 0, columns: 5 }
    );
}

#[test]
fn placement_keys_are_the_allocated_tasks() {
    let cores = vec![
        Core::new(0, Router::new(0, None), None, None, None),
        Core::new(1, Router::new(0, None), Some(65535), None, None),
        Core::new(2, Router::new(0, None), None, None, None),
        Core::new(3, Router::new(0, None), Some(0), None, None),
    ];
    let m = ManycoreSystem::construct(system(2, 2, cores, None)).unwrap();
    let map = m.task_core_map();
    assert_eq!(map.len(), 2);
    assert_eq!(map.get(&65535), Some(&1));
    assert_eq!(map.get(&0), Some(&3));
    assert_eq!(map.get(&1), None);
    for (task, place) in map {
        assert_eq!(*m.cores().list()[*place].allocated_task(), Some(*task));
    }
}

#[test]
fn later_core_overwrites_a_task_allocation() {
    let cores = vec![
        Core::new(2, Router::new(0, None), Some(7), None, None),
        Core::new(0, Router::new(0, None), Some(7), None, None),
        Core::new(1, Router::new(0, None), Some(7), None, None),
        Core::new(3, Router::new(0, None), Some(8), None, None),
    ];
    let m = ManycoreSystem::construct(system(2, 2, cores, None)).unwrap();
    assert_eq!(m.task_core_map().len(), 2);
    assert_eq!(m.task_core_map().get(&7), Some(&2));
    assert_eq!(m.task_core_map().get(&8), Some(&3));
}

#[test]
fn first_seen_value_decides_the_kind() {
    let cores = vec![
        Core::new(0, Router::new(0, None), None, None, bag(&[("@age", "30")])),
        Core::new(1, Router::new(0, None), None, None, bag(&[("@age", "thirty")])),
    ];
    let m = ManycoreSystem::construct(system(1, 2, cores, None)).unwrap();
    assert_eq!(
        m.configurable_attributes().core_attributes().get("@age"),
        Some(AttributeType::Number)
    );
}

#[test]
fn first_seen_is_by_identifier_not_by_document_order() {
    let cores = vec![
        Core::new(1, Router::new(0, None), None, None, bag(&[("@age", "thirty")])),
        Core::new(0, Router::new(0, None), None, None, bag(&[("@age", "30")])),
    ];
    let m = ManycoreSystem::construct(system(1, 2, cores, None)).unwrap();
    assert_eq!(
        m.configurable_attributes().core_attributes().get("@age"),
        Some(AttributeType::Number)
    );
    let cores = vec![
        Core::new(1, Router::new(0, None), None, None, bag(&[("@age", "30")])),
        Core::new(0, Router::new(0, None), None, None, bag(&[("@age", "thirty")])),
    ];
    let m = ManycoreSystem::construct(system(1, 2, cores, None)).unwrap();
    assert_eq!(
        m.configurable_attributes().core_attributes().get("@age"),
        Some(AttributeType::Text)
    );
}

#[test]
fn pinned_attributes_of_cores() {
    let cores = vec![Core::new(
        0,
        Router::new(0, None),
        None,
        None,
        bag(&[("@id", "12"), ("@coordinates", "7"), ("@load", "3")]),
    )];
    let m = ManycoreSystem::construct(system(1, 1, cores, None)).unwrap();
    let registry = m.configurable_attributes().core_attributes();
    assert_eq!(registry.len(), 3);
    assert_eq!(registry.get(ID_KEY), Some(AttributeType::Text));
    assert_eq!(registry.get(COORDINATES_KEY), Some(AttributeType::Coordinates));
    assert_eq!(registry.get("@load"), Some(AttributeType::Number));
    assert_eq!(registry.key_at(0), "@id");
    assert_eq!(registry.key_at(1), "@coordinates");
    assert_eq!(registry.key_at(2), "@load");
    assert_eq!(registry.kind_at(2), AttributeType::Number);
    assert_eq!(registry.get("@unknown"), None);
}

fn channel(direction: Directions, flow: Flow, attributes: &[(&str, &str)]) -> Channel {
    Channel::new(direction, flow, 400, 30, Some(2), "Normal".to_string(), bag(attributes))
}

#[test]
fn channel_attributes_are_inferred_in_order() {
    let mut first = Channels::new();
    first.insert(channel(Directions::North, Flow::Output, &[("@age", "old")]));
    first.insert(channel(Directions::South, Flow::Input, &[("@routingAlgorithm", "12")]));
    let mut second = Channels::new();
    second.insert(channel(Directions::East, Flow::Output, &[("@age", "3"), ("@load", "+17")]));
    let cores = vec![
        Core::new(1, Router::new(0, None), None, Some(second), None),
        Core::new(0, Router::new(0, None), None, Some(first), None),
    ];
    let m = ManycoreSystem::construct(system(1, 2, cores, None)).unwrap();
    let registry = m.configurable_attributes().channel_attributes();
    assert_eq!(registry.len(), 3);
    assert_eq!(registry.get(ROUTING_KEY), Some(AttributeType::Routing));
    assert_eq!(registry.get("@age"), Some(AttributeType::Text));
    assert_eq!(registry.get("@load"), Some(AttributeType::Number));
    assert_eq!(registry.get(BORDER_ROUTERS_KEY), None);
}

#[test]
fn border_key_is_pinned_only_with_borders() {
    let mut set = Channels::new();
    set.insert(channel(Directions::West, Flow::Input, &[("@borderRouters", "1")]));
    let cores = vec![Core::new(0, Router::new(0, None), None, Some(set.clone()), None)];
    let without = ManycoreSystem::construct(system(1, 1, cores, None)).unwrap();
    assert_eq!(
        without.configurable_attributes().channel_attributes().get(BORDER_ROUTERS_KEY),
        Some(AttributeType::Number)
    );
    assert!(without.borders().is_none());
    let cores = vec![Core::new(0, Router::new(0, None), None, Some(set), None)];
    let with =
        ManycoreSystem::construct(system(1, 1, cores, Some(Borders::new(vec![])))).unwrap();
    assert_eq!(
        with.configurable_attributes().channel_attributes().get(BORDER_ROUTERS_KEY),
        Some(AttributeType::Boolean)
    );
    assert_eq!(with.configurable_attributes().channel_attributes().len(), 2);
}

#[test]
fn borders_are_associated_with_edge_cores() {
    let records = vec![
        BorderRouter::new(0, Directions::North, BorderKind::Source, None),
        BorderRouter::new(0, Directions::West, BorderKind::Sink, None),
        BorderRouter::new(4, Directions::North, BorderKind::Sink, None),
        BorderRouter::new(8, Directions::East, BorderKind::Sink, None),
        BorderRouter::new(9, Directions::South, BorderKind::Sink, None),
        BorderRouter::new(7, Directions::Local, BorderKind::Sink, None),
        BorderRouter::new(8, Directions::East, BorderKind::Source, None),
        BorderRouter::new(2, Directions::South, BorderKind::Source, None),
    ];
    let mut d = scenario();
    d.borders = Some(Borders::new(records));
    let m = ManycoreSystem::construct(d).unwrap();
    let borders = m.borders().as_ref().unwrap();
    assert_eq!(borders.records().len(), 8);
    assert_eq!(borders.border_for(0, Directions::North), Some(0));
    assert_eq!(borders.border_for(0, Directions::West), Some(1));
    assert_eq!(borders.border_for(4, Directions::North), None);
    assert_eq!(borders.border_for(8, Directions::East), Some(6));
    assert_eq!(borders.border_for(8, Directions::South), None);
    assert_eq!(borders.border_for(9, Directions::South), None);
    assert_eq!(borders.border_for(7, Directions::Local), None);
    assert_eq!(borders.border_for(2, Directions::South), None);
    assert_eq!(borders.records()[6].kind(), BorderKind::Source);
    assert_eq!(borders.records()[3].core_id(), 8);
    assert_eq!(borders.records()[3].side(), Directions::East);
}

#[test]
fn constructing_again_gives_the_same_model() {
    let mut d = scenario();
    d.borders = Some(Borders::new(vec![BorderRouter::new(
        6,
        Directions::South,
        BorderKind::Sink,
        bag(&[("@kind", "drain")]),
    )]));
    let first = ManycoreSystem::construct(d).unwrap();
    let again = ManycoreSystem::construct(first.to_decoded()).unwrap();
    assert_eq!(first, again);
    assert_eq!(first.to_decoded(), again.to_decoded());
}

#[test]
fn decoded_copy_holds_the_document_fields() {
    let first = ManycoreSystem::construct(scenario()).unwrap();
    let d = first.to_decoded();
    assert_eq!(d.rows, 3);
    assert_eq!(d.columns, 3);
    assert_eq!(d.routing_algo, Some("RowFirst".to_string()));
    assert_eq!(&d.xmlns, first.xmlns());
    assert_eq!(&d.xmlns_si, first.xmlns_si());
    assert_eq!(&d.xsi_schema_location, first.xsi_schema_location());
    assert_eq!(&d.cores, first.cores());
    assert_eq!(&d.task_graph, first.task_graph());
}

#[test]
fn task_graph_can_be_replaced() {
    let mut m = ManycoreSystem::construct(scenario()).unwrap();
    m.set_task_graph(TaskGraph::new(vec![Task { id: 9, computation_cost: 1 }], vec![]));
    assert_eq!(m.task_graph().tasks(), &vec![Task { id: 9, computation_cost: 1 }]);
    assert_eq!(m.task_core_map().len(), 4);
    assert_eq!(m.cores().len(), 9);
}
