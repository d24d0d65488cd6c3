use manycore_parser::inference::{
    infer_attributes, infer_channel_attributes, infer_core_attributes, infer_router_attributes,
};
use manycore_parser::placement::index_tasks;
use manycore_parser::topology::derive_topology;
use manycore_parser::{
    AttributeBag, AttributeType, BorderKind, BorderRouter, Borders, Channel, Channels, Core,
    Cores, Directions, Flow, MatrixEdge, Router,
};

fn attributes(pairs: &[(&str, &str)]) -> Option<AttributeBag> {
    AttributeBag::from_entries(pairs.iter().map(|(k, v)| (k.to_string(), v.to_string())).collect())
}

#[test]
fn from_entries_of_nothing_is_no_bag() {
    assert_eq!(AttributeBag::from_entries(vec![]), None);
}

#[test]
fn from_entries_keeps_first_place_and_last_value() {
    let bag = attributes(&[("@b", "1"), ("@a", "2"), ("@b", "3")]).unwrap();
    assert_eq!(bag.len(), 2);
    assert_eq!(bag.key_at(0), "@b");
    assert_eq!(bag.value_at(0), "3");
    assert_eq!(bag.key_at(1), "@a");
    assert_eq!(bag.value_at(1), "2");
}

#[test]
fn topology_is_derived_for_each_core() {
    let cores = Cores::new(vec![
        Core::new(0, Router::new(7, attributes(&[("@age", "1")])), Some(4), None, None),
        Core::new(1, Router::new(7, None), None, None, attributes(&[("@x", "y")])),
        Core::new(2, Router::new(7, None), None, None, None),
        Core::new(3, Router::new(7, None), None, None, None),
        Core::new(4, Router::new(7, None), None, None, None),
        Core::new(5, Router::new(7, None), None, None, None),
    ]);
    let derived = derive_topology(cores, 2, 3);
    let list = derived.list();
    let edges: Vec<MatrixEdge> = list.iter().map(|c| c.matrix_edge()).collect();
    assert_eq!(
        edges,
        vec![
            MatrixEdge { top: true, bottom: false, left: true, right: false },
            MatrixEdge { top: true, bottom: false, left: false, right: true },
            MatrixEdge { top: false, bottom: false, left: true, right: false },
            MatrixEdge { top: false, bottom: false, left: false, right: true },
            MatrixEdge { top: false, bottom: true, left: true, right: false },
            MatrixEdge { top: false, bottom: true, left: false, right: true },
        ]
    );
    for (i, c) in list.iter().enumerate() {
        assert_eq!(usize::from(*c.router().id()), i);
    }
    assert_eq!(*list[0].allocated_task(), Some(4));
    assert_eq!(list[0].router().other_attributes(), &attributes(&[("@age", "1")]));
    assert_eq!(list[1].other_attributes(), &attributes(&[("@x", "y")]));
    assert_eq!(derive_topology(Cores::new(vec![]), 0, 0).len(), 0);
}

#[test]
fn tasks_are_indexed_by_place() {
    let task = |id: u8, t: Option<u16>| Core::new(id, Router::new(0, None), t, None, None);
    let index = index_tasks(&vec![task(9, Some(5)), task(9, None), task(9, Some(6)), task(9, Some(5))]);
    assert_eq!(index.len(), 2);
    assert_eq!(index.get(&5), Some(&3));
    assert_eq!(index.get(&6), Some(&2));
    assert!(index_tasks(&vec![]).is_empty());
}

#[test]
fn registries_are_inferred_separately() {
    let mut channels = Channels::new();
    channels.insert(Channel::new(
        Directions::South,
        Flow::Output,
        10,
        0,
        None,
        "Normal".to_string(),
        attributes(&[("@packets", "12")]),
    ));
    let cores = vec![
        Core::new(
            0,
            Router::new(0, attributes(&[("@temperature", "warm")])),
            None,
            Some(channels),
            attributes(&[("@voltage", "3")]),
        ),
        Core::new(1, Router::new(1, attributes(&[("@temperature", "30")])), None, None, None),
    ];
    let core = infer_core_attributes(&cores);
    assert_eq!(core.len(), 3);
    assert_eq!(core.get("@voltage"), Some(AttributeType::Number));
    assert_eq!(core.get("@temperature"), None);
    let router = infer_router_attributes(&cores);
    assert_eq!(router.len(), 1);
    assert_eq!(router.get("@temperature"), Some(AttributeType::Text));
    let channel = infer_channel_attributes(&cores, true);
    assert_eq!(channel.len(), 3);
    assert_eq!(channel.key_at(0), "@routingAlgorithm");
    assert_eq!(channel.key_at(1), "@borderRouters");
    assert_eq!(channel.key_at(2), "@packets");
    assert_eq!(channel.kind_at(2), AttributeType::Number);
    let all = infer_attributes(&cores, None, false);
    assert_eq!(all.core_attributes(), &core);
    assert_eq!(all.router_attributes(), &router);
    assert_eq!(all.channel_attributes().len(), 2);
    assert_eq!(all.observed_algorithm(), &None);
    assert_eq!(all.clone(), all);
}

#[test]
fn border_association_follows_the_grid() {
    let records = vec![
        BorderRouter::new(1, Directions::North, BorderKind::Sink, None),
        BorderRouter::new(1, Directions::East, BorderKind::Sink, None),
        BorderRouter::new(2, Directions::West, BorderKind::Source, attributes(&[("@a", "b")])),
        BorderRouter::new(3, Directions::South, BorderKind::Source, None),
    ];
    let mut borders = Borders::new(records);
    assert_eq!(borders.border_for(1, Directions::North), None);
    borders.compute_core_border_map(2, 2);
    assert_eq!(borders.border_for(1, Directions::North), Some(0));
    assert_eq!(borders.border_for(1, Directions::East), Some(1));
    assert_eq!(borders.border_for(2, Directions::West), Some(2));
    assert_eq!(borders.border_for(3, Directions::South), Some(3));
    assert_eq!(borders.border_for(3, Directions::East), None);
    assert_eq!(borders.clone(), borders);
    let bare = borders.unassociated();
    assert_eq!(bare.records(), borders.records());
    assert_eq!(bare.border_for(1, Directions::North), None);
    borders.compute_core_border_map(4, 1);
    assert_eq!(borders.border_for(1, Directions::North), Some(0));
    assert_eq!(borders.border_for(1, Directions::East), None);
    assert_eq!(borders.border_for(2, Directions::West), None);
    assert_eq!(borders.border_for(3, Directions::South), Some(3));
    borders.compute_core_border_map(0, 0);
    assert_eq!(borders.border_for(1, Directions::North), None);
    assert_eq!(borders.records()[2].other_attributes(), &attributes(&[("@a", "b")]));
}
