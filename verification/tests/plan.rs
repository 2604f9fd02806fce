use hijacker2::graph::{ObjectType, PwObject};
use hijacker2::linking::Link;
use hijacker2::plan::{nodes_to_connect_to, plan_links_to_nodes, port_objects};
use hijacker2::properties::{Properties, Property};

fn object(id: u32, type_: ObjectType, entries: &[(&str, &str)]) -> PwObject {
    let entries = entries.iter().map(|(k, v)| Property::new(k, v)).collect();
    PwObject { id, type_, props: Some(Properties { entries }) }
}

fn server() -> Vec<PwObject> {
    let link = ObjectType::Link;
    let port = ObjectType::Port;
    vec![
        object(5, ObjectType::Node, &[("node.name", "mic")]),
        object(6, ObjectType::Node, &[("node.name", "call")]),
        object(7, ObjectType::Node, &[("node.name", "recorder")]),
        object(8, ObjectType::Node, &[("node.name", "stream")]),
        object(20, link, &[("link.output.node", "5"), ("link.input.node", "6")]),
        object(21, link, &[("link.output.node", "5"), ("link.input.node", "6")]),
        object(22, link, &[("link.output.node", "5"), ("link.input.node", "7")]),
        object(23, link, &[("link.output.node", "9"), ("link.input.node", "10")]),
        object(30, port, &[("node.id", "6"), ("port.direction", "in"), ("audio.channel", "FL")]),
        object(31, port, &[("node.id", "6"), ("port.direction", "in"), ("audio.channel", "FR")]),
        object(32, port, &[("node.id", "6"), ("port.direction", "out"), ("audio.channel", "FL")]),
        object(33, port, &[("node.id", "7"), ("port.direction", "in")]),
        object(34, port, &[("node.id", "8"), ("port.direction", "out"), ("audio.channel", "FL")]),
        object(35, port, &[("node.id", "8"), ("port.direction", "out"), ("audio.channel", "FR")]),
    ]
}

#[test]
fn ports_are_picked_out() {
    let objects = server();
    let ids: Vec<u32> = port_objects(&objects).iter().map(|o| o.id).collect();
    assert_eq!(ids, vec![30, 31, 32, 33, 34, 35]);
}

#[test]
fn nodes_that_the_source_feeds() {
    let objects = server();
    let mut ids = nodes_to_connect_to(&objects, &objects[0]);
    ids.sort();
    assert_eq!(ids, vec![6, 7]);
    assert!(nodes_to_connect_to(&objects, &objects[1]).is_empty());
}

#[test]
fn stream_is_linked_to_the_nodes() {
    let objects = server();
    assert_eq!(
        plan_links_to_nodes(&objects, &[6, 7], 8),
        vec![
            Link::new(8, 34, 6, 30),
            Link::new(8, 34, 7, 33),
            Link::new(8, 35, 6, 31),
            Link::new(8, 35, 7, 33),
        ]
    );
    assert!(plan_links_to_nodes(&objects, &[], 8).is_empty());
    assert!(plan_links_to_nodes(&objects, &[6, 7], 99).is_empty());
}

#[test]
fn order_of_nodes_changes_no_link() {
    let objects = server();
    let key = |l: &Link| (l.output_port, l.input_node, l.input_port);
    let mut one = plan_links_to_nodes(&objects, &[6, 7], 8);
    let mut other = plan_links_to_nodes(&objects, &[7, 6], 8);
    assert_ne!(one, other);
    one.sort_by_key(key);
    other.sort_by_key(key);
    assert_eq!(one, other);
    one.dedup();
    assert_eq!(one.len(), 4);
}

#[test]
fn other_objects_change_nothing() {
    let mut objects = server();
    let before = plan_links_to_nodes(&objects, &[6, 7], 8);
    objects.insert(0, object(90, ObjectType::Other, &[("node.id", "6"), ("port.direction", "in")]));
    assert_eq!(plan_links_to_nodes(&objects, &[6, 7], 8), before);
}
