use timefusion::params::{
    binary_decoding, ordered_param_types, ordered_placeholders, placeholder_position,
    BinaryDecoding, MAX_PARAMETERS,
};
use timefusion::schema::{DataType, TimeUnit};

fn ids(names: &[&str]) -> Vec<String> {
    names.iter().map(|n| n.to_string()).collect()
}

#[test]
fn a_placeholder_stands_for_its_number() {
    assert_eq!(placeholder_position("$1"), Some(1));
    assert_eq!(placeholder_position("$2"), Some(2));
    assert_eq!(placeholder_position("$10"), Some(10));
    assert_eq!(placeholder_position("$007"), Some(7));
    assert_eq!(placeholder_position("$65535"), Some(65535));
    assert_eq!(MAX_PARAMETERS, 65535);
}

#[test]
fn other_ids_stand_for_no_position() {
    for id in ["", "$", "1", "$0", "$00", "$-1", "$1a", "$a", "$ 1", "$1 ", "$$1", "$foo", "?1", "$65536", "$99999999999999999999999", "$١"] {
        assert_eq!(placeholder_position(id), None, "{:?}", id);
    }
}

#[test]
fn placeholders_are_ordered_by_position() {
    assert_eq!(ordered_placeholders(&ids(&["$2", "$1"])), vec![Some(1), Some(0)]);
    assert_eq!(
        ordered_placeholders(&ids(&["$10", "$2", "$1"]))[..2].to_vec(),
        vec![Some(2), Some(1)]
    );
    let ten = ordered_placeholders(&ids(&["$10", "$2", "$1"]));
    assert_eq!(ten.len(), 10);
    assert_eq!(ten[9], Some(0));
    assert!(ten[2..9].iter().all(|p| p.is_none()));
}

#[test]
fn a_position_without_a_placeholder_is_empty() {
    assert_eq!(ordered_placeholders(&ids(&["$3"])), vec![None, None, Some(0)]);
    assert_eq!(ordered_placeholders(&ids(&["$foo", "$2"])), vec![None, Some(1)]);
    assert!(ordered_placeholders(&ids(&[])).is_empty());
    assert!(ordered_placeholders(&ids(&["$foo", "name"])).is_empty());
}

#[test]
fn the_first_placeholder_for_a_position_is_taken() {
    assert_eq!(ordered_placeholders(&ids(&["$1", "$01", "$2"])), vec![Some(0), Some(2)]);
}

#[test]
fn types_follow_their_placeholders() {
    let types = vec![
        ("$2".to_string(), Some(DataType::Utf8)),
        ("$4".to_string(), Some(DataType::Timestamp(TimeUnit::Microsecond, None))),
        ("$1".to_string(), Some(DataType::Int64)),
        ("$3".to_string(), None),
    ];
    let ordered = ordered_param_types(&types);
    assert_eq!(ordered.len(), 4);
    assert!(matches!(ordered[0], Some(DataType::Int64)));
    assert!(matches!(ordered[1], Some(DataType::Utf8)));
    assert!(ordered[2].is_none());
    assert!(matches!(ordered[3], Some(DataType::Timestamp(TimeUnit::Microsecond, None))));
    assert!(ordered_param_types(&Vec::new()).is_empty());
}

#[test]
fn binary_values_are_read_by_type() {
    assert_eq!(binary_decoding(&None), BinaryDecoding::Text);
    assert_eq!(binary_decoding(&Some(DataType::Utf8)), BinaryDecoding::Text);
    assert_eq!(binary_decoding(&Some(DataType::Int32)), BinaryDecoding::Int4);
    assert_eq!(binary_decoding(&Some(DataType::Int64)), BinaryDecoding::Int8);
    assert_eq!(binary_decoding(&Some(DataType::Boolean)), BinaryDecoding::Bool);
    assert_eq!(binary_decoding(&Some(DataType::UInt32)), BinaryDecoding::Unsupported);
    assert_eq!(
        binary_decoding(&Some(DataType::Timestamp(TimeUnit::Microsecond, None))),
        BinaryDecoding::Unsupported
    );
    assert_eq!(
        binary_decoding(&Some(DataType::Dictionary(Box::new(DataType::Utf8)))),
        BinaryDecoding::Unsupported
    );
    assert_eq!(
        binary_decoding(&Some(DataType::Other("Float64".to_string()))),
        BinaryDecoding::Unsupported
    );
}
