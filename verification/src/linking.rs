//! Nodes with their ports, and the links that carry the stream to where the microphone goes.
use crate::graph::{
    is_of_type_and_has_property_equal_to, links_from, ObjectType, ObjectView, PwObject,
};
use crate::properties::{
    decimal, law_number_read_back, lookup, same_text, u32_to_string, Properties, Property,
};
use crate::seq_facts::{
    lemma_filter_map_concat, lemma_filter_map_contains, lemma_filter_map_no_duplicates,
    lemma_flat_map_concat, lemma_flat_map_contains, lemma_flat_map_no_duplicates,
    lemma_flat_map_one,
};
use vstd::prelude::*;

verus! {

/// A port and the audio channel that it carries.
#[derive(Debug, Clone)]
pub struct Port {
    pub id: u32,
    pub audio_channel: String,
}

/// The contents of a `Port`.
#[verifier::ext_equal]
pub struct PortView {
    pub id: u32,
    pub audio_channel: Seq<char>,
}

impl DeepView for Port {
    type V = PortView;

    open spec fn deep_view(&self) -> PortView {
        PortView { id: self.id, audio_channel: self.audio_channel@ }
    }
}

impl Port {
    pub fn new(id: u32, audio_channel: String) -> (port: Port)
        ensures
            port.deep_view() == (PortView { id, audio_channel: audio_channel@ }),
    {
        Port { id, audio_channel }
    }
}

/// A node and the ports of it that matter.
#[derive(Debug, Clone)]
pub struct NodeWithPorts {
    pub id: u32,
    pub ports: Vec<Port>,
}

/// The contents of a `NodeWithPorts`.
#[verifier::ext_equal]
pub struct NodeView {
    pub id: u32,
    pub ports: Seq<PortView>,
}

impl DeepView for NodeWithPorts {
    type V = NodeView;

    open spec fn deep_view(&self) -> NodeView {
        NodeView { id: self.id, ports: self.ports.deep_view() }
    }
}

impl NodeWithPorts {
    pub fn new(id: u32, ports: Vec<Port>) -> (node: NodeWithPorts)
        ensures
            node.deep_view() == (NodeView { id, ports: ports.deep_view() }),
    {
        NodeWithPorts { id, ports }
    }
}

/// A link from an output port of one node to an input port of another.
#[derive(Debug, Clone, Copy, PartialEq, Eq, Structural)]
pub struct Link {
    pub output_node: u32,
    pub output_port: u32,
    pub input_node: u32,
    pub input_port: u32,
}

impl Link {
    pub fn new(output_node: u32, output_port: u32, input_node: u32, input_port: u32) -> (link: Link)
        ensures
            link == (Link { output_node, output_port, input_node, input_port }),
    {
        Link { output_node, output_port, input_node, input_port }
    }
}

/// The port that an object is. Where it does not say which audio channel it carries, it carries
/// the only one.
pub open spec fn port_of(object: ObjectView) -> PortView {
    PortView {
        id: object.id,
        audio_channel: match object.text("audio.channel"@) {
            Some(channel) => channel,
            None => "MONO"@,
        },
    }
}

/// The port that an object is, where it is an input port of a node.
pub open spec fn input_port_of(node_id: u32) -> spec_fn(ObjectView) -> Option<PortView> {
    |object: ObjectView|
        if object.number("node.id"@) == Some(node_id) && object.text("port.direction"@) == Some(
            "in"@,
        ) {
            Some(port_of(object))
        } else {
            None
        }
}

/// The port that an object is, where it is a port of a node.
pub open spec fn node_port_of(node_id: u32) -> spec_fn(ObjectView) -> Option<PortView> {
    |object: ObjectView|
        if object.type_ == ObjectType::Port && object.number("node.id"@) == Some(node_id) {
            Some(port_of(object))
        } else {
            None
        }
}

/// The audio channel that a port with the given properties carries.
fn audio_channel(props: &Properties) -> (channel: String)
    ensures
        channel@ == match lookup(props@, "audio.channel"@) {
            Some(channel) => channel,
            None => "MONO"@,
        },
{
    match props.get("audio.channel") {
        Some(channel) => channel.clone(),
        None => "MONO".to_owned(),
    }
}

/// The input ports of a node among the given ports, in their order.
pub fn node_input_ports_with_audio_channel(ports: &[&PwObject], node_id: u32) -> (result: Vec<Port>)
    ensures
        result.deep_view() == ports.deep_view().filter_map(input_port_of(node_id)),
{
    let ghost all = ports.deep_view();
    let mut result: Vec<Port> = Vec::new();
    let mut i: usize = 0;
    assert(result.deep_view() =~= all.take(0).filter_map(input_port_of(node_id)));
    while i < ports.len()
        invariant
            i <= ports.len(),
            all == ports.deep_view(),
            result.deep_view() == all.take(i as int).filter_map(input_port_of(node_id)),
        decreases ports.len() - i,
    {
        let port = ports[i];
        let ghost before = result.deep_view();
        proof {
            assert(all[i as int] == port.deep_view());
            all.lemma_filter_map_take_succ(input_port_of(node_id), i as int);
        }
        if let Some(props) = &port.props {
            let is_of_node = match props.parse("node.id") {
                Some(Ok(id)) => id == node_id,
                _ => false,
            };
            let is_input = match props.get("port.direction") {
                Some(direction) => same_text(direction, "in"),
                None => false,
            };
            if is_of_node && is_input {
                let channel = audio_channel(props);
                let new_port = Port::new(port.id, channel);
                assert(new_port.deep_view() == port_of(all[i as int]));
                result.push(new_port);
                assert(result.deep_view() =~= before + seq![port_of(all[i as int])]);
            }
        }
        i += 1;
    }
    assert(all.take(all.len() as int) =~= all);
    result
}

/// The ports of a node among the given objects, in their order.
pub fn node_ports(ports: &[&PwObject], node_id: u32) -> (result: Vec<Port>)
    ensures
        result.deep_view() == ports.deep_view().filter_map(node_port_of(node_id)),
{
    let ghost all = ports.deep_view();
    let mut result: Vec<Port> = Vec::new();
    let mut i: usize = 0;
    assert(result.deep_view() =~= all.take(0).filter_map(node_port_of(node_id)));
    while i < ports.len()
        invariant
            i <= ports.len(),
            all == ports.deep_view(),
            result.deep_view() == all.take(i as int).filter_map(node_port_of(node_id)),
        decreases ports.len() - i,
    {
        let port = ports[i];
        let ghost before = result.deep_view();
        proof {
            assert(all[i as int] == port.deep_view());
            all.lemma_filter_map_take_succ(node_port_of(node_id), i as int);
        }
        if is_of_type_and_has_property_equal_to(port, ObjectType::Port, "node.id", node_id) {
            let channel = match &port.props {
                Some(props) => audio_channel(props),
                None => "MONO".to_owned(),
            };
            let new_port = Port::new(port.id, channel);
            assert(new_port.deep_view() == port_of(all[i as int]));
            result.push(new_port);
            assert(result.deep_view() =~= before + seq![port_of(all[i as int])]);
        }
        i += 1;
    }
    assert(all.take(all.len() as int) =~= all);
    result
}

/// A node with its input ports among the given ports.
pub open spec fn target_of(ports: Seq<ObjectView>) -> spec_fn(u32) -> NodeView {
    |node_id: u32| NodeView { id: node_id, ports: ports.filter_map(input_port_of(node_id)) }
}

/// The given nodes, each with its input ports among the given ports.
pub fn connection_targets(ports: &[&PwObject], node_ids: &[u32]) -> (targets: Vec<NodeWithPorts>)
    ensures
        targets.deep_view() == node_ids@.map_values(target_of(ports.deep_view())),
{
    let mut targets: Vec<NodeWithPorts> = Vec::new();
    let mut i: usize = 0;
    while i < node_ids.len()
        invariant
            i <= node_ids.len(),
            targets.len() == i,
            forall|j: int|
                0 <= j < i ==> #[trigger] targets[j].deep_view() == target_of(ports.deep_view())(
                    node_ids[j],
                ),
        decreases node_ids.len() - i,
    {
        let node_id = node_ids[i];
        let input_ports = node_input_ports_with_audio_channel(ports, node_id);
        targets.push(NodeWithPorts::new(node_id, input_ports));
        i += 1;
    }
    assert(targets.deep_view() =~= node_ids@.map_values(target_of(ports.deep_view())));
    targets
}

/// Whether audio of one channel may go into a port for another: the channels are the same, or
/// one of the two is the only one.
pub open spec fn channels_match(stream_channel: Seq<char>, target_channel: Seq<char>) -> bool {
    stream_channel == "MONO"@ || target_channel == "MONO"@ || target_channel == stream_channel
}

/// The link from a port of the stream to a port of a target, where their channels match.
pub open spec fn link_to_port(
    stream_id: u32,
    stream_port: PortView,
    target_id: u32,
) -> spec_fn(PortView) -> Option<Link> {
    |target_port: PortView|
        if channels_match(stream_port.audio_channel, target_port.audio_channel) {
            Some(
                Link {
                    output_node: stream_id,
                    output_port: stream_port.id,
                    input_node: target_id,
                    input_port: target_port.id,
                },
            )
        } else {
            None
        }
}

/// The links from a port of the stream to a target.
pub open spec fn links_to_target(stream_id: u32, stream_port: PortView) -> spec_fn(NodeView) -> Seq<
    Link,
> {
    |target: NodeView| target.ports.filter_map(link_to_port(stream_id, stream_port, target.id))
}

/// The links from a port of the stream to the targets.
pub open spec fn links_from_port(stream_id: u32, targets: Seq<NodeView>) -> spec_fn(
    PortView,
) -> Seq<Link> {
    |stream_port: PortView| targets.flat_map(links_to_target(stream_id, stream_port))
}

/// The links from the stream to the targets: one for each port of the stream and each port of a
/// target whose channels match.
pub open spec fn links_between(stream: NodeView, targets: Seq<NodeView>) -> Seq<Link> {
    stream.ports.flat_map(links_from_port(stream.id, targets))
}

/// Adds the links from a port of the stream to a target.
fn push_links_to_target(
    links: &mut Vec<Link>,
    stream_id: u32,
    stream_port: &Port,
    target: &NodeWithPorts,
)
    ensures
        final(links)@ == old(links)@ + links_to_target(stream_id, stream_port.deep_view())(
            target.deep_view(),
        ),
{
    let ghost before = links@;
    let ghost to_port = link_to_port(stream_id, stream_port.deep_view(), target.id);
    let ghost all = target.ports.deep_view();
    let mut i: usize = 0;
    assert(before =~= before + all.take(0).filter_map(to_port));
    while i < target.ports.len()
        invariant
            i <= target.ports.len(),
            all == target.ports.deep_view(),
            to_port == link_to_port(stream_id, stream_port.deep_view(), target.id),
            links@ == before + all.take(i as int).filter_map(to_port),
        decreases target.ports.len() - i,
    {
        let target_port = &target.ports[i];
        let ghost earlier = links@;
        proof {
            assert(all[i as int] == target_port.deep_view());
            all.lemma_filter_map_take_succ(to_port, i as int);
        }
        if same_text(&stream_port.audio_channel, "MONO") || same_text(
            &target_port.audio_channel,
            "MONO",
        ) || same_text(&target_port.audio_channel, stream_port.audio_channel.as_str()) {
            links.push(Link::new(stream_id, stream_port.id, target.id, target_port.id));
        }
        assert(links@ =~= before + all.take(i + 1).filter_map(to_port));
        i += 1;
    }
    assert(all.take(all.len() as int) =~= all);
}

/// The links from the stream to the targets, port by port of the stream.
pub fn links_from_source_to_nodes(
    stream: &NodeWithPorts,
    connection_targets: &[NodeWithPorts],
) -> (links: Vec<Link>)
    ensures
        links@ == links_between(stream.deep_view(), connection_targets.deep_view()),
{
    let ghost targets = connection_targets.deep_view();
    let ghost ports = stream.ports.deep_view();
    let ghost from_port = links_from_port(stream.id, targets);
    let mut links: Vec<Link> = Vec::new();
    let mut i: usize = 0;
    assert(links@ =~= ports.take(0).flat_map(from_port));
    while i < stream.ports.len()
        invariant
            i <= stream.ports.len(),
            ports == stream.ports.deep_view(),
            targets == connection_targets.deep_view(),
            from_port == links_from_port(stream.id, targets),
            links@ == ports.take(i as int).flat_map(from_port),
        decreases stream.ports.len() - i,
    {
        let stream_port = &stream.ports[i];
        let ghost before = links@;
        let ghost to_target = links_to_target(stream.id, stream_port.deep_view());
        let mut j: usize = 0;
        assert(before =~= before + targets.take(0).flat_map(to_target));
        while j < connection_targets.len()
            invariant
                j <= connection_targets.len(),
                targets == connection_targets.deep_view(),
                to_target == links_to_target(stream.id, stream_port.deep_view()),
                links@ == before + targets.take(j as int).flat_map(to_target),
            decreases connection_targets.len() - j,
        {
            push_links_to_target(&mut links, stream.id, stream_port, &connection_targets[j]);
            proof {
                targets.lemma_flat_map_take_append(to_target, j as int);
                assert(links@ =~= before + targets.take(j + 1).flat_map(to_target));
            }
            j += 1;
        }
        proof {
            assert(targets.take(targets.len() as int) =~= targets);
            ports.lemma_flat_map_take_append(from_port, i as int);
            assert(from_port(ports[i as int]) == targets.flat_map(to_target));
        }
        i += 1;
    }
    assert(ports.take(ports.len() as int) =~= ports);
    links
}

/// The properties that a link is made with. It lingers: it outlives the program.
pub open spec fn properties_of_link(link: Link) -> Seq<(Seq<char>, Seq<char>)> {
    seq![
        ("link.output.node"@, decimal(link.output_node as nat)),
        ("link.output.port"@, decimal(link.output_port as nat)),
        ("link.input.node"@, decimal(link.input_node as nat)),
        ("link.input.port"@, decimal(link.input_port as nat)),
        ("object.linger"@, "1"@),
    ]
}

/// The properties that a link is made with.
pub fn link_properties(link: &Link) -> (props: Properties)
    ensures
        props@ == properties_of_link(*link),
{
    let mut entries: Vec<Property> = Vec::new();
    entries.push(Property::new("link.output.node", u32_to_string(link.output_node).as_str()));
    entries.push(Property::new("link.output.port", u32_to_string(link.output_port).as_str()));
    entries.push(Property::new("link.input.node", u32_to_string(link.input_node).as_str()));
    entries.push(Property::new("link.input.port", u32_to_string(link.input_port).as_str()));
    entries.push(Property::new("object.linger", "1"));
    let props = Properties { entries };
    assert(props@ =~= properties_of_link(*link));
    props
}

/// A link object with the properties that a link is made with is found again as a link from its
/// output node, and all four ends of it are read back.
pub proof fn law_made_link_is_found(link: Link, object: ObjectView)
    requires
        object.type_ == ObjectType::Link,
        object.props == Some(properties_of_link(link)),
    ensures
        links_from(link.output_node)(object),
        object.number("link.output.node"@) == Some(link.output_node),
        object.number("link.output.port"@) == Some(link.output_port),
        object.number("link.input.node"@) == Some(link.input_node),
        object.number("link.input.port"@) == Some(link.input_port),
{
    reveal_strlit("link.output.node");
    reveal_strlit("link.output.port");
    reveal_strlit("link.input.node");
    reveal_strlit("link.input.port");
    assert("link.output.node"@[12] != "link.output.port"@[12]);
    assert("link.input.node"@[11] != "link.input.port"@[11]);
    assert("link.output.node"@.len() != "link.input.node"@.len());
    reveal_with_fuel(lookup, 5);
    law_number_read_back(link.output_node);
    law_number_read_back(link.output_port);
    law_number_read_back(link.input_node);
    law_number_read_back(link.input_port);
}

/// Whether a link goes from a port of the stream to a port of a target whose channels match.
pub open spec fn joins(stream: NodeView, targets: Seq<NodeView>, link: Link) -> bool {
    exists|p: int, t: int, q: int|
        0 <= p < stream.ports.len() && 0 <= t < targets.len() && 0 <= q < targets[t].ports.len()
            && #[trigger] link_to_port(stream.id, stream.ports[p], targets[t].id)(
            targets[t].ports[q],
        ) == Some(link)
}

/// A link is made if and only if it goes from a port of the stream to a port of a target and the
/// channels of the two match.
pub proof fn law_linked_iff_channels_match(stream: NodeView, targets: Seq<NodeView>, link: Link)
    ensures
        links_between(stream, targets).contains(link) <==> joins(stream, targets, link),
{
    let from_port = links_from_port(stream.id, targets);
    lemma_flat_map_contains(stream.ports, from_port, link);
    if links_between(stream, targets).contains(link) {
        let p = choose|p: int|
            0 <= p < stream.ports.len() && from_port(#[trigger] stream.ports[p]).contains(link);
        let to_target = links_to_target(stream.id, stream.ports[p]);
        lemma_flat_map_contains(targets, to_target, link);
        let t = choose|t: int|
            0 <= t < targets.len() && to_target(#[trigger] targets[t]).contains(link);
        let to_port = link_to_port(stream.id, stream.ports[p], targets[t].id);
        lemma_filter_map_contains(targets[t].ports, to_port, link);
        let q = choose|q: int|
            0 <= q < targets[t].ports.len() && to_port(#[trigger] targets[t].ports[q]) == Some(
                link,
            );
        assert(link_to_port(stream.id, stream.ports[p], targets[t].id)(targets[t].ports[q])
            == Some(link));
    }
    if joins(stream, targets, link) {
        let (p, t, q) = choose|p: int, t: int, q: int|
            0 <= p < stream.ports.len() && 0 <= t < targets.len() && 0 <= q
                < targets[t].ports.len() && #[trigger] link_to_port(
                stream.id,
                stream.ports[p],
                targets[t].id,
            )(targets[t].ports[q]) == Some(link);
        let to_target = links_to_target(stream.id, stream.ports[p]);
        let to_port = link_to_port(stream.id, stream.ports[p], targets[t].id);
        lemma_filter_map_contains(targets[t].ports, to_port, link);
        assert(to_target(targets[t]).contains(link));
        lemma_flat_map_contains(targets, to_target, link);
        assert(from_port(stream.ports[p]).contains(link));
    }
}

/// Whether the ports of a node have different numbers.
pub open spec fn ports_distinct(node: NodeView) -> bool {
    forall|i: int, j: int|
        0 <= i < j < node.ports.len() ==> #[trigger] node.ports[i].id != #[trigger] node.ports[j].id
}

/// Whether nodes have different numbers, and the ports of each as well.
pub open spec fn nodes_distinct(nodes: Seq<NodeView>) -> bool {
    &&& forall|i: int| 0 <= i < nodes.len() ==> ports_distinct(#[trigger] nodes[i])
    &&& forall|i: int, j: int|
        0 <= i < j < nodes.len() ==> #[trigger] nodes[i].id != #[trigger] nodes[j].id
}

/// No link is made twice, as long as nodes and ports have different numbers.
pub proof fn law_no_link_twice(stream: NodeView, targets: Seq<NodeView>)
    requires
        ports_distinct(stream),
        nodes_distinct(targets),
    ensures
        links_between(stream, targets).no_duplicates(),
{
    let from_port = links_from_port(stream.id, targets);
    assert forall|p: int| 0 <= p < stream.ports.len() implies from_port(
        #[trigger] stream.ports[p],
    ).no_duplicates() by {
        let to_target = links_to_target(stream.id, stream.ports[p]);
        assert forall|t: int| 0 <= t < targets.len() implies to_target(
            #[trigger] targets[t],
        ).no_duplicates() by {
            assert(ports_distinct(targets[t]));
            lemma_filter_map_no_duplicates(
                targets[t].ports,
                link_to_port(stream.id, stream.ports[p], targets[t].id),
            );
        }
        assert forall|t: int, u: int, link: Link|
            0 <= t < u < targets.len() && #[trigger] to_target(targets[t]).contains(
                link,
            ) implies !#[trigger] to_target(targets[u]).contains(link) by {
            lemma_filter_map_contains(
                targets[t].ports,
                link_to_port(stream.id, stream.ports[p], targets[t].id),
                link,
            );
            lemma_filter_map_contains(
                targets[u].ports,
                link_to_port(stream.id, stream.ports[p], targets[u].id),
                link,
            );
            assert(targets[t].id != targets[u].id);
        }
        lemma_flat_map_no_duplicates(targets, to_target);
    }
    assert forall|p: int, q: int, link: Link|
        0 <= p < q < stream.ports.len() && #[trigger] from_port(stream.ports[p]).contains(
            link,
        ) implies !#[trigger] from_port(stream.ports[q]).contains(link) by {
        lemma_output_port(stream, targets, p, link);
        if from_port(stream.ports[q]).contains(link) {
            lemma_output_port(stream, targets, q, link);
        }
        assert(stream.ports[p].id != stream.ports[q].id);
    }
    lemma_flat_map_no_duplicates(stream.ports, from_port);
}

proof fn lemma_output_port(stream: NodeView, targets: Seq<NodeView>, p: int, link: Link)
    requires
        0 <= p < stream.ports.len(),
        links_from_port(stream.id, targets)(stream.ports[p]).contains(link),
    ensures
        link.output_port == stream.ports[p].id,
{
    let to_target = links_to_target(stream.id, stream.ports[p]);
    lemma_flat_map_contains(targets, to_target, link);
    let t = choose|t: int| 0 <= t < targets.len() && to_target(#[trigger] targets[t]).contains(link);
    lemma_filter_map_contains(
        targets[t].ports,
        link_to_port(stream.id, stream.ports[p], targets[t].id),
        link,
    );
}

/// The view of a port is its number and its audio channel.
pub proof fn law_view_of_port(port: Port)
    ensures
        port.deep_view().id == port.id,
        port.deep_view().audio_channel == port.audio_channel@,
{
}

/// The view of a node is its number and its ports, in their order.
pub proof fn law_view_of_node(node: NodeWithPorts)
    ensures
        node.deep_view().id == node.id,
        node.deep_view().ports.len() == node.ports@.len(),
        forall|i: int|
            0 <= i < node.ports@.len() ==> #[trigger] node.deep_view().ports[i]
                == node.ports@[i].deep_view(),
{
}

/// A port has the number of its object and the audio channel that the object says, or `MONO` where
/// the object says none.
pub proof fn law_port_carries_its_channel(object: ObjectView)
    ensures
        port_of(object).id == object.id,
        object.text("audio.channel"@) is Some ==> Some(port_of(object).audio_channel) == object.text(
            "audio.channel"@,
        ),
        object.text("audio.channel"@) is None ==> port_of(object).audio_channel == "MONO"@,
{
}

/// An object is an input port of a node if and only if it says so itself: it names the node and
/// `in` for its direction.
pub proof fn law_input_port_names_its_node(object: ObjectView, node_id: u32)
    ensures
        object.number("node.id"@) == Some(node_id) && object.text("port.direction"@) == Some("in"@)
            ==> input_port_of(node_id)(object) == Some(port_of(object)),
        object.number("node.id"@) != Some(node_id) || object.text("port.direction"@) != Some("in"@)
            ==> input_port_of(node_id)(object) is None,
{
}

/// An object is a port of a node if and only if it is a port and names the node.
pub proof fn law_port_names_its_node(object: ObjectView, node_id: u32)
    ensures
        object.type_ == ObjectType::Port && object.number("node.id"@) == Some(node_id)
            ==> node_port_of(node_id)(object) == Some(port_of(object)),
        object.type_ != ObjectType::Port || object.number("node.id"@) != Some(node_id)
            ==> node_port_of(node_id)(object) is None,
{
}

/// A target has the number of the node and the input ports of it among the given ports.
pub proof fn law_target_has_its_input_ports(ports: Seq<ObjectView>, node_id: u32)
    ensures
        target_of(ports)(node_id).id == node_id,
        target_of(ports)(node_id).ports == ports.filter_map(input_port_of(node_id)),
{
}

/// A port of the stream and a port of a target are linked wherever their channels are the same,
/// whatever that channel is, and wherever one of the two is `MONO`.
pub proof fn law_same_channels_and_mono_are_linked(
    stream: NodeView,
    targets: Seq<NodeView>,
    p: int,
    t: int,
    q: int,
)
    requires
        0 <= p < stream.ports.len(),
        0 <= t < targets.len(),
        0 <= q < targets[t].ports.len(),
        stream.ports[p].audio_channel == targets[t].ports[q].audio_channel
            || stream.ports[p].audio_channel == "MONO"@ || targets[t].ports[q].audio_channel
            == "MONO"@,
    ensures
        links_between(stream, targets).contains(
            Link {
                output_node: stream.id,
                output_port: stream.ports[p].id,
                input_node: targets[t].id,
                input_port: targets[t].ports[q].id,
            },
        ),
{
    let link = Link {
        output_node: stream.id,
        output_port: stream.ports[p].id,
        input_node: targets[t].id,
        input_port: targets[t].ports[q].id,
    };
    assert(link_to_port(stream.id, stream.ports[p], targets[t].id)(targets[t].ports[q]) == Some(
        link,
    ));
    law_linked_iff_channels_match(stream, targets, link);
}

/// Nothing else is linked: every link goes from a port of the stream to a port of a target, and
/// their channels are the same or one of the two is `MONO`.
pub proof fn law_nothing_else_is_linked(
    stream: NodeView,
    targets: Seq<NodeView>,
    link: Link,
) -> (ends: (int, int, int))
    requires
        links_between(stream, targets).contains(link),
    ensures
        0 <= ends.0 < stream.ports.len(),
        0 <= ends.1 < targets.len(),
        0 <= ends.2 < targets[ends.1].ports.len(),
        link.output_node == stream.id,
        link.output_port == stream.ports[ends.0].id,
        link.input_node == targets[ends.1].id,
        link.input_port == targets[ends.1].ports[ends.2].id,
        stream.ports[ends.0].audio_channel == targets[ends.1].ports[ends.2].audio_channel
            || stream.ports[ends.0].audio_channel == "MONO"@
            || targets[ends.1].ports[ends.2].audio_channel == "MONO"@,
{
    law_linked_iff_channels_match(stream, targets, link);
    choose|p: int, t: int, q: int|
        0 <= p < stream.ports.len() && 0 <= t < targets.len() && 0 <= q < targets[t].ports.len()
            && #[trigger] link_to_port(stream.id, stream.ports[p], targets[t].id)(
            targets[t].ports[q],
        ) == Some(link)
}

/// One port of the stream and one port of one target make one link, or none where their channels
/// differ and neither is `MONO`.
pub proof fn law_one_pair_makes_one_link(
    stream_id: u32,
    stream_port: PortView,
    target_id: u32,
    target_port: PortView,
)
    ensures
        links_between(
            NodeView { id: stream_id, ports: seq![stream_port] },
            seq![NodeView { id: target_id, ports: seq![target_port] }],
        ) == if stream_port.audio_channel == target_port.audio_channel || stream_port.audio_channel
            == "MONO"@ || target_port.audio_channel == "MONO"@ {
            seq![
                Link {
                    output_node: stream_id,
                    output_port: stream_port.id,
                    input_node: target_id,
                    input_port: target_port.id,
                },
            ]
        } else {
            Seq::<Link>::empty()
        },
{
    let target = NodeView { id: target_id, ports: seq![target_port] };
    lemma_flat_map_one(stream_port, links_from_port(stream_id, seq![target]));
    lemma_flat_map_one(target, links_to_target(stream_id, stream_port));
    Seq::<PortView>::lemma_filter_map_singleton(
        target_port,
        link_to_port(stream_id, stream_port, target_id),
    );
}

/// The links of some ports of the stream and of others are made one after the other: none of them
/// has a bearing on the rest.
pub proof fn law_links_port_by_port(
    stream_id: u32,
    ports: Seq<PortView>,
    more_ports: Seq<PortView>,
    targets: Seq<NodeView>,
)
    ensures
        links_between(NodeView { id: stream_id, ports: ports + more_ports }, targets)
            == links_between(NodeView { id: stream_id, ports }, targets) + links_between(
            NodeView { id: stream_id, ports: more_ports },
            targets,
        ),
{
    lemma_flat_map_concat(ports, more_ports, links_from_port(stream_id, targets));
}

/// The links of a port of the stream to some targets and to others are made one after the other.
pub proof fn law_links_target_by_target(
    stream_id: u32,
    stream_port: PortView,
    targets: Seq<NodeView>,
    more_targets: Seq<NodeView>,
)
    ensures
        links_between(
            NodeView { id: stream_id, ports: seq![stream_port] },
            targets + more_targets,
        ) == links_between(NodeView { id: stream_id, ports: seq![stream_port] }, targets)
            + links_between(NodeView { id: stream_id, ports: seq![stream_port] }, more_targets),
{
    lemma_flat_map_one(stream_port, links_from_port(stream_id, targets + more_targets));
    lemma_flat_map_one(stream_port, links_from_port(stream_id, targets));
    lemma_flat_map_one(stream_port, links_from_port(stream_id, more_targets));
    lemma_flat_map_concat(targets, more_targets, links_to_target(stream_id, stream_port));
}

/// The links of a port of the stream to some ports of a target and to others are made one after the
/// other.
pub proof fn law_links_target_port_by_target_port(
    stream_id: u32,
    stream_port: PortView,
    target_id: u32,
    ports: Seq<PortView>,
    more_ports: Seq<PortView>,
)
    ensures
        links_between(
            NodeView { id: stream_id, ports: seq![stream_port] },
            seq![NodeView { id: target_id, ports: ports + more_ports }],
        ) == links_between(
            NodeView { id: stream_id, ports: seq![stream_port] },
            seq![NodeView { id: target_id, ports }],
        ) + links_between(
            NodeView { id: stream_id, ports: seq![stream_port] },
            seq![NodeView { id: target_id, ports: more_ports }],
        ),
{
    let all = NodeView { id: target_id, ports: ports + more_ports };
    let some = NodeView { id: target_id, ports };
    let rest = NodeView { id: target_id, ports: more_ports };
    lemma_flat_map_one(stream_port, links_from_port(stream_id, seq![all]));
    lemma_flat_map_one(stream_port, links_from_port(stream_id, seq![some]));
    lemma_flat_map_one(stream_port, links_from_port(stream_id, seq![rest]));
    lemma_flat_map_one(all, links_to_target(stream_id, stream_port));
    lemma_flat_map_one(some, links_to_target(stream_id, stream_port));
    lemma_flat_map_one(rest, links_to_target(stream_id, stream_port));
    lemma_filter_map_concat(ports, more_ports, link_to_port(stream_id, stream_port, target_id));
}

/// A link is made with its four ends, to linger, and with no other property.
pub proof fn law_link_is_made_with_its_ends(link: Link, key: Seq<char>)
    ensures
        lookup(properties_of_link(link), "object.linger"@) == Some("1"@),
        key != "link.output.node"@ && key != "link.output.port"@ && key != "link.input.node"@ && key
            != "link.input.port"@ && key != "object.linger"@ ==> lookup(
            properties_of_link(link),
            key,
        ) is None,
        lookup(properties_of_link(link), "link.output.node"@) == Some(
            decimal(link.output_node as nat),
        ),
        lookup(properties_of_link(link), "link.output.port"@) == Some(
            decimal(link.output_port as nat),
        ),
        lookup(properties_of_link(link), "link.input.node"@) == Some(decimal(link.input_node as nat)),
        lookup(properties_of_link(link), "link.input.port"@) == Some(decimal(link.input_port as nat)),
{
    reveal_strlit("link.output.node");
    reveal_strlit("link.output.port");
    reveal_strlit("link.input.node");
    reveal_strlit("link.input.port");
    reveal_strlit("object.linger");
    assert("link.output.node"@[12] != "link.output.port"@[12]);
    assert("link.input.node"@[11] != "link.input.port"@[11]);
    assert("link.output.node"@.len() == 16 && "link.input.node"@.len() == 15
        && "object.linger"@.len() == 13);
    reveal_with_fuel(lookup, 6);
}

} // verus!
