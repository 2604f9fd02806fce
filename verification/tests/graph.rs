use hijacker2::graph::{
    collect_object, default_metadata_object, find_source_node, is_default_metadata_object,
    is_of_type_and_has_property_equal_to, is_of_type_and_has_str_property_equal_to,
    link_adjacent_input_node_ids, node_adjacent_links, ObjectType, PwObject,
};
use hijacker2::properties::{Properties, Property};

fn object(id: u32, type_: ObjectType, entries: &[(&str, &str)]) -> PwObject {
    let entries = entries.iter().map(|(k, v)| Property::new(k, v)).collect();
    PwObject { id, type_, props: Some(Properties { entries }) }
}

fn bare(id: u32, type_: ObjectType) -> PwObject {
    PwObject { id, type_, props: None }
}

#[test]
fn number_property_is_compared_as_number() {
    let o = object(1, ObjectType::Port, &[("node.id", "+07")]);
    assert!(is_of_type_and_has_property_equal_to(&o, ObjectType::Port, "node.id", 7));
    assert!(!is_of_type_and_has_property_equal_to(&o, ObjectType::Port, "node.id", 8));
    assert!(!is_of_type_and_has_property_equal_to(&o, ObjectType::Link, "node.id", 7));
    assert!(!is_of_type_and_has_property_equal_to(&o, ObjectType::Port, "port.id", 7));
    let none = bare(1, ObjectType::Port);
    assert!(!is_of_type_and_has_property_equal_to(&none, ObjectType::Port, "node.id", 7));
}

#[test]
fn text_property_is_compared_as_text() {
    let o = object(1, ObjectType::Node, &[("node.name", "mic")]);
    assert!(is_of_type_and_has_str_property_equal_to(&o, ObjectType::Node, "node.name", "mic"));
    assert!(!is_of_type_and_has_str_property_equal_to(&o, ObjectType::Node, "node.name", "Mic"));
    assert!(!is_of_type_and_has_str_property_equal_to(&o, ObjectType::Port, "node.name", "mic"));
    let none = bare(1, ObjectType::Node);
    assert!(!is_of_type_and_has_str_property_equal_to(&none, ObjectType::Node, "node.name", "mic"));
}

#[test]
fn default_metadata_is_recognised() {
    let settings = object(3, ObjectType::Metadata, &[("metadata.name", "settings")]);
    let default = object(4, ObjectType::Metadata, &[("metadata.name", "default")]);
    let node = object(5, ObjectType::Node, &[("metadata.name", "default")]);
    assert!(!is_default_metadata_object(&settings));
    assert!(is_default_metadata_object(&default));
    assert!(!is_default_metadata_object(&node));
    assert!(!is_default_metadata_object(&bare(6, ObjectType::Metadata)));
    let second = object(9, ObjectType::Metadata, &[("metadata.name", "default")]);
    let objects = [settings, node, default, second];
    assert_eq!(default_metadata_object(&objects).unwrap().id, 4);
    assert!(default_metadata_object(&objects[..2]).is_none());
    assert!(default_metadata_object(&[]).is_none());
}

#[test]
fn first_node_with_name_is_the_source() {
    let objects = [
        object(1, ObjectType::Port, &[("node.name", "mic")]),
        object(2, ObjectType::Node, &[("node.name", "speaker")]),
        object(3, ObjectType::Node, &[("node.name", "mic")]),
        object(4, ObjectType::Node, &[("node.name", "mic")]),
    ];
    assert_eq!(find_source_node(&objects, "mic").unwrap().id, 3);
    assert_eq!(find_source_node(&objects, "speaker").unwrap().id, 2);
    assert!(find_source_node(&objects, "camera").is_none());
}

#[test]
fn links_from_a_node_are_found_in_order() {
    let source = bare(7, ObjectType::Node);
    let objects = [
        object(10, ObjectType::Link, &[("link.output.node", "7"), ("link.input.node", "20")]),
        object(11, ObjectType::Link, &[("link.output.node", "8"), ("link.input.node", "21")]),
        object(12, ObjectType::Port, &[("link.output.node", "7")]),
        object(13, ObjectType::Link, &[("link.output.node", "seven")]),
        object(14, ObjectType::Link, &[("link.output.node", "07")]),
        bare(15, ObjectType::Link),
    ];
    let ids: Vec<u32> = node_adjacent_links(&objects, &source).iter().map(|o| o.id).collect();
    assert_eq!(ids, vec![10, 14]);
}

#[test]
fn input_nodes_are_collected_once() {
    let links = [
        object(1, ObjectType::Link, &[("link.input.node", "20")]),
        object(2, ObjectType::Link, &[("link.input.node", "21")]),
        object(3, ObjectType::Link, &[("link.input.node", "20")]),
        object(4, ObjectType::Link, &[("link.input.node", "x")]),
        object(5, ObjectType::Link, &[]),
        bare(6, ObjectType::Link),
    ];
    let links: Vec<&PwObject> = links.iter().collect();
    let mut ids: Vec<u32> = link_adjacent_input_node_ids(&links).into_iter().collect();
    ids.sort();
    assert_eq!(ids, vec![20, 21]);
    assert!(link_adjacent_input_node_ids(&[]).is_empty());
}

#[test]
fn only_objects_that_matter_are_collected() {
    let mut objects = Vec::new();
    for (id, type_) in [
        (1, ObjectType::Node),
        (2, ObjectType::Other),
        (3, ObjectType::Link),
        (4, ObjectType::Metadata),
        (5, ObjectType::Other),
        (6, ObjectType::Port),
    ] {
        collect_object(&mut objects, bare(id, type_));
    }
    let ids: Vec<u32> = objects.iter().map(|o| o.id).collect();
    assert_eq!(ids, vec![1, 3, 4, 6]);
}
