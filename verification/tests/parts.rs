use manycore_parser::text::{decimal_text, parses_as_number, same_text};
use manycore_parser::validation::{check_count, check_sequence, validate};
use manycore_parser::{
    generation_error, supported_algorithms, AttributeBag, AttributeRegistry, AttributeType,
    Channel, Channels, Core, Cores, Directions, Flow, ManycoreError, ManycoreErrorKind, Router,
    RoutingAlgorithms,
};

fn bare(id: u8) -> Core {
    Core::new(id, Router::new(0, None), None, None, None)
}

#[test]
fn numbers_are_unsigned_decimal_integers() {
    assert!(parses_as_number("30"));
    assert!(parses_as_number("0"));
    assert!(parses_as_number("007"));
    assert!(parses_as_number("+5"));
    assert!(parses_as_number("18446744073709551615"));
    assert!(parses_as_number("+018446744073709551615"));
}

#[test]
fn other_values_are_text() {
    assert!(!parses_as_number("thirty"));
    assert!(!parses_as_number(""));
    assert!(!parses_as_number("+"));
    assert!(!parses_as_number("-5"));
    assert!(!parses_as_number("3.5"));
    assert!(!parses_as_number(" 3"));
    assert!(!parses_as_number("3 "));
    assert!(!parses_as_number("++3"));
    assert!(!parses_as_number("1_000"));
    assert!(!parses_as_number("12a"));
    assert!(!parses_as_number("٣"));
    assert!(!parses_as_number("18446744073709551616"));
    assert!(!parses_as_number("99999999999999999999999"));
}

#[test]
fn numbers_agree_with_the_standard_parser() {
    for text in ["0", "+0", "42", "+", "", "-1", "1e3", "18446744073709551615", "18446744073709551616", "0x10", "é1"] {
        assert_eq!(parses_as_number(text), text.parse::<u64>().is_ok(), "{}", text);
    }
}

#[test]
fn decimal_text_of_counts() {
    assert_eq!(decimal_text(0), "0");
    assert_eq!(decimal_text(7), "7");
    assert_eq!(decimal_text(10), "10");
    assert_eq!(decimal_text(65025), "65025");
    assert_eq!(decimal_text(u64::MAX), "18446744073709551615");
    assert!(parses_as_number(&decimal_text(1234567890)));
}

#[test]
fn same_text_compares_characters() {
    assert!(same_text("", ""));
    assert!(same_text("@age", "@age"));
    assert!(!same_text("@age", "@Age"));
    assert!(!same_text("@age", "@ag"));
    assert!(!same_text("", "a"));
    assert!(same_text("température", "température"));
    assert!(!same_text("température", "temperature"));
}

#[test]
fn structural_mismatch_message() {
    let e = ManycoreError::new(ManycoreErrorKind::StructuralMismatch {
        expected: 9,
        actual: 8,
        rows: 3,
        columns: 3,
    });
    assert_eq!(
        e.message(),
        "Expected 9 cores, found 8. Hint: make sure you provided the correct number of rows (3) and columns (3)."
    );
}

#[test]
fn identifier_sequence_messages() {
    let e = ManycoreError::new(ManycoreErrorKind::IdentifierSequenceError {
        expected: 2,
        encountered: 3,
        previous: Some(1),
    });
    assert_eq!(
        e.message(),
        "Core IDs must be incremental starting from 0. Was expecting ID 2, got 3. Previously inspected core had ID 1."
    );
    let e = ManycoreError::new(ManycoreErrorKind::IdentifierSequenceError {
        expected: 0,
        encountered: 12,
        previous: None,
    });
    assert_eq!(
        e.message(),
        "Core IDs must be incremental starting from 0. Was expecting ID 0, got 12. No core had been inspected before."
    );
}

#[test]
fn cause_is_kept_verbatim() {
    let e = generation_error("missing field `@rows`".to_string());
    assert_eq!(e.kind(), &ManycoreErrorKind::DecodeError("missing field `@rows`".to_string()));
    assert_eq!(e.message(), "missing field `@rows`");
    let e = ManycoreError::new(ManycoreErrorKind::IoError("No such file".to_string()));
    assert_eq!(e.message(), "No such file");
    assert_eq!(e.clone(), e);
}

#[test]
fn check_count_compares_with_the_grid() {
    assert!(check_count(3, 3, 9).is_ok());
    assert!(check_count(255, 255, 65025).is_ok());
    assert!(check_count(0, 0, 0).is_ok());
    assert_eq!(
        check_count(255, 255, 1).unwrap_err().kind(),
        &ManycoreErrorKind::StructuralMismatch {
            expected: 65025,
            actual: 1,
            rows: 255,
            columns: 255
        }
    );
}

#[test]
fn check_sequence_reads_the_given_order() {
    assert!(check_sequence(&vec![]).is_ok());
    assert!(check_sequence(&vec![bare(0), bare(1), bare(2)]).is_ok());
    assert_eq!(
        check_sequence(&vec![bare(1), bare(0)]).unwrap_err().kind(),
        &ManycoreErrorKind::IdentifierSequenceError { expected: 0, encountered: 1, previous: None }
    );
    assert_eq!(
        check_sequence(&vec![bare(0), bare(1), bare(1)]).unwrap_err().kind(),
        &ManycoreErrorKind::IdentifierSequenceError {
            expected: 2,
            encountered: 1,
            previous: Some(1)
        }
    );
}

#[test]
fn validate_sorts_the_cores() {
    let mut cores = Cores::new(vec![bare(2), bare(0), bare(3), bare(1)]);
    assert!(validate(2, 2, &mut cores).is_ok());
    let ids: Vec<u8> = cores.list().iter().map(|c| *c.id()).collect();
    assert_eq!(ids, vec![0, 1, 2, 3]);
    let mut cores = Cores::new(vec![bare(2), bare(0)]);
    assert!(validate(2, 2, &mut cores).is_err());
    let ids: Vec<u8> = cores.list().iter().map(|c| *c.id()).collect();
    assert_eq!(ids, vec![2, 0]);
}

#[test]
fn sort_by_id_is_stable() {
    let tagged = |id: u8, task: u16| Core::new(id, Router::new(0, None), Some(task), None, None);
    let mut cores = Cores::new(vec![
        tagged(3, 0),
        tagged(1, 1),
        tagged(3, 2),
        tagged(0, 3),
        tagged(1, 4),
        tagged(3, 5),
    ]);
    cores.sort_by_id();
    let seen: Vec<(u8, u16)> =
        cores.list().iter().map(|c| (*c.id(), c.allocated_task().unwrap())).collect();
    assert_eq!(seen, vec![(0, 3), (1, 1), (1, 4), (3, 0), (3, 2), (3, 5)]);
    assert_eq!(cores.len(), 6);
}

#[test]
fn attribute_bag_is_an_ordered_mapping() {
    let mut bag = AttributeBag::new();
    assert_eq!(bag.len(), 0);
    bag.insert("@b".to_string(), "1".to_string());
    bag.insert("@a".to_string(), "2".to_string());
    bag.insert("@b".to_string(), "3".to_string());
    assert_eq!(bag.len(), 2);
    assert_eq!(bag.key_at(0), "@b");
    assert_eq!(bag.value_at(0), "3");
    assert_eq!(bag.key_at(1), "@a");
    assert_eq!(bag.get("@a"), Some(&"2".to_string()));
    assert_eq!(bag.get("@b"), Some(&"3".to_string()));
    assert_eq!(bag.get("@c"), None);
    assert!(bag.contains_key("@a"));
    assert!(!bag.contains_key("a"));
    assert_eq!(bag.clone(), bag);
}

#[test]
fn registry_keeps_the_first_kind_and_takes_pinned_ones() {
    let mut registry = AttributeRegistry::new();
    let mut first = AttributeBag::new();
    first.insert("@age".to_string(), "30".to_string());
    first.insert("@name".to_string(), "x1".to_string());
    let mut second = AttributeBag::new();
    second.insert("@age".to_string(), "thirty".to_string());
    second.insert("@name".to_string(), "7".to_string());
    second.insert("@size".to_string(), "7".to_string());
    registry.extend_from_bag(&Some(first));
    registry.extend_from_bag(&None);
    registry.extend_from_bag(&Some(second));
    assert_eq!(registry.len(), 3);
    assert_eq!(registry.get("@age"), Some(AttributeType::Number));
    assert_eq!(registry.get("@name"), Some(AttributeType::Text));
    assert_eq!(registry.get("@size"), Some(AttributeType::Number));
    registry.insert_manual("@name", AttributeType::Routing);
    registry.insert_manual("@new", AttributeType::Boolean);
    assert_eq!(registry.get("@name"), Some(AttributeType::Routing));
    assert_eq!(registry.key_at(1), "@name");
    assert_eq!(registry.key_at(3), "@new");
    assert_eq!(registry.kind_at(3), AttributeType::Boolean);
    assert_eq!(registry.clone(), registry);
}

#[test]
fn channels_hold_one_channel_for_each_side_and_flow() {
    let make = |d: Directions, f: Flow, bandwidth: u16| {
        Channel::new(d, f, bandwidth, 1, None, "Normal".to_string(), None)
    };
    let mut set = Channels::new();
    set.insert(make(Directions::North, Flow::Input, 1));
    set.insert(make(Directions::North, Flow::Output, 2));
    set.insert(make(Directions::Local, Flow::Input, 3));
    set.insert(make(Directions::North, Flow::Input, 4));
    assert_eq!(set.len(), 3);
    assert_eq!(set.at(0).bandwidth(), 4);
    assert_eq!(set.at(0).direction(), Directions::North);
    assert_eq!(set.at(0).flow(), Flow::Input);
    assert_eq!(set.get(Directions::North, Flow::Output).unwrap().bandwidth(), 2);
    assert_eq!(set.get(Directions::Local, Flow::Input).unwrap().bandwidth(), 3);
    assert!(set.get(Directions::Local, Flow::Output).is_none());
    assert!(set.get(Directions::East, Flow::Input).is_none());
    let c = set.at(2);
    assert_eq!(c.load(), 1);
    assert_eq!(c.source(), None);
    assert_eq!(c.status(), "Normal");
    assert!(c.other_attributes().is_none());
    assert_eq!(set.clone(), set);
}

#[test]
fn router_is_built_from_its_parts() {
    let mut bag = AttributeBag::new();
    bag.insert("@age".to_string(), "30".to_string());
    let mut router = Router::new(3, Some(bag.clone()));
    assert_eq!(*router.id(), 3);
    assert_eq!(router.other_attributes(), &Some(bag));
    router.set_id(8);
    assert_eq!(*router.id(), 8);
    assert_eq!(router.clone(), router);
    assert_eq!(*Router::new(255, None).id(), 255);
    assert!(Router::new(255, None).other_attributes().is_none());
}

#[test]
fn supported_algorithms_are_three() {
    assert_eq!(
        supported_algorithms(),
        vec![RoutingAlgorithms::Observed, RoutingAlgorithms::RowFirst, RoutingAlgorithms::ColumnFirst]
    );
}
