use hijacker2::graph::{
    link_adjacent_input_node_ids, node_adjacent_links, ObjectType, PwObject,
};
use hijacker2::linking::{
    connection_targets, link_properties, links_from_source_to_nodes,
    node_input_ports_with_audio_channel, node_ports, Link, NodeWithPorts, Port,
};
use hijacker2::properties::{Properties, Property};

fn port(id: u32, entries: &[(&str, &str)]) -> PwObject {
    let entries = entries.iter().map(|(k, v)| Property::new(k, v)).collect();
    PwObject { id, type_: ObjectType::Port, props: Some(Properties { entries }) }
}

fn node(id: u32, ports: &[(u32, &str)]) -> NodeWithPorts {
    NodeWithPorts::new(id, ports.iter().map(|(id, c)| Port::new(*id, c.to_string())).collect())
}

fn summary(ports: &[Port]) -> Vec<(u32, &str)> {
    ports.iter().map(|p| (p.id, p.audio_channel.as_str())).collect()
}

fn sample_ports() -> Vec<PwObject> {
    vec![
        port(1, &[("node.id", "7"), ("port.direction", "in"), ("audio.channel", "FL")]),
        port(2, &[("node.id", "7"), ("port.direction", "out"), ("audio.channel", "FR")]),
        port(3, &[("node.id", "8"), ("port.direction", "in"), ("audio.channel", "FL")]),
        port(4, &[("node.id", "7"), ("port.direction", "in")]),
        port(5, &[("node.id", "seven"), ("port.direction", "in")]),
        port(6, &[("port.direction", "in")]),
        port(7, &[("node.id", "7")]),
        PwObject { id: 8, type_: ObjectType::Port, props: None },
    ]
}

#[test]
fn input_ports_of_a_node() {
    let objects = sample_ports();
    let ports: Vec<&PwObject> = objects.iter().collect();
    assert_eq!(
        summary(&node_input_ports_with_audio_channel(&ports, 7)),
        vec![(1, "FL"), (4, "MONO")]
    );
    assert_eq!(summary(&node_input_ports_with_audio_channel(&ports, 8)), vec![(3, "FL")]);
    assert!(node_input_ports_with_audio_channel(&ports, 9).is_empty());
}

#[test]
fn ports_of_a_node() {
    let mut objects = sample_ports();
    let mut other = port(9, &[("node.id", "7")]);
    other.type_ = ObjectType::Node;
    objects.push(other);
    let ports: Vec<&PwObject> = objects.iter().collect();
    assert_eq!(
        summary(&node_ports(&ports, 7)),
        vec![(1, "FL"), (2, "FR"), (4, "MONO"), (7, "MONO")]
    );
    assert!(node_ports(&ports, 9).is_empty());
}

#[test]
fn targets_keep_the_order_of_nodes() {
    let objects = sample_ports();
    let ports: Vec<&PwObject> = objects.iter().collect();
    let targets = connection_targets(&ports, &[8, 9, 7]);
    assert_eq!(targets.len(), 3);
    assert_eq!((targets[0].id, summary(&targets[0].ports)), (8, vec![(3, "FL")]));
    assert_eq!((targets[1].id, summary(&targets[1].ports)), (9, vec![]));
    assert_eq!((targets[2].id, summary(&targets[2].ports)), (7, vec![(1, "FL"), (4, "MONO")]));
}

#[test]
fn same_channels_are_linked() {
    let stream = node(1, &[(10, "FL"), (11, "FR")]);
    let targets = [node(2, &[(20, "FL"), (21, "FR")]), node(3, &[(30, "FR"), (31, "FC")])];
    assert_eq!(
        links_from_source_to_nodes(&stream, &targets),
        vec![Link::new(1, 10, 2, 20), Link::new(1, 11, 2, 21), Link::new(1, 11, 3, 30)]
    );
}

#[test]
fn mono_is_linked_with_everything() {
    let stream = node(1, &[(10, "MONO")]);
    let targets = [node(2, &[(20, "FL"), (21, "FR")])];
    assert_eq!(
        links_from_source_to_nodes(&stream, &targets),
        vec![Link::new(1, 10, 2, 20), Link::new(1, 10, 2, 21)]
    );
    let stream = node(1, &[(10, "FL"), (11, "FR")]);
    let targets = [node(2, &[(20, "MONO")])];
    assert_eq!(
        links_from_source_to_nodes(&stream, &targets),
        vec![Link::new(1, 10, 2, 20), Link::new(1, 11, 2, 20)]
    );
}

#[test]
fn nothing_is_linked_without_ports() {
    assert!(links_from_source_to_nodes(&node(1, &[]), &[node(2, &[(20, "MONO")])]).is_empty());
    assert!(links_from_source_to_nodes(&node(1, &[(10, "MONO")]), &[]).is_empty());
    assert!(links_from_source_to_nodes(&node(1, &[(10, "FL")]), &[node(2, &[])]).is_empty());
    assert!(links_from_source_to_nodes(&node(1, &[(10, "FL")]), &[node(2, &[(20, "FR")])])
        .is_empty());
}

#[test]
fn link_properties_are_written_out() {
    let props = link_properties(&Link::new(1, 20, 300, 4294967295));
    let entries: Vec<(&str, &str)> =
        props.entries.iter().map(|p| (p.key.as_str(), p.value.as_str())).collect();
    assert_eq!(
        entries,
        vec![
            ("link.output.node", "1"),
            ("link.output.port", "20"),
            ("link.input.node", "300"),
            ("link.input.port", "4294967295"),
            ("object.linger", "1"),
        ]
    );
}

#[test]
fn made_link_is_found_again() {
    for id in [0, 9, 10, 100, 4294967295] {
        let props = Some(link_properties(&Link::new(id, 2, id, 4)));
        let objects = [PwObject { id: 50, type_: ObjectType::Link, props }];
        let source = PwObject { id, type_: ObjectType::Node, props: None };
        let links = node_adjacent_links(&objects, &source);
        assert_eq!(links.len(), 1);
        let ids: Vec<u32> = link_adjacent_input_node_ids(&links).into_iter().collect();
        assert_eq!(ids, vec![id]);
    }
}
