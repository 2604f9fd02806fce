//! Which links to make, from what is known of the objects on the server.
use crate::graph::{
    default_metadata_objects, first, input_nodes, link_adjacent_input_node_ids, links_from,
    node_adjacent_links, nodes_named, relevant, ObjectType, ObjectView, PwObject,
};
use crate::linking::{
    channels_match, connection_targets, input_port_of, joins, law_linked_iff_channels_match,
    law_no_link_twice, law_nothing_else_is_linked, law_same_channels_and_mono_are_linked,
    link_to_port, links_between, links_from_source_to_nodes, node_port_of, node_ports,
    nodes_distinct, ports_distinct, target_of, Link, NodeView, NodeWithPorts, PortView,
};
use crate::seq_facts::lemma_filter_map_contains;
use std::collections::HashSet;
use vstd::prelude::*;

verus! {

broadcast use vstd::std_specs::hash::group_hash_axioms;

/// The objects that are ports.
pub open spec fn is_port() -> spec_fn(ObjectView) -> bool {
    |object: ObjectView| object.type_ == ObjectType::Port
}

/// The ports among the objects, in their order.
pub fn port_objects<'a>(objects: &'a [PwObject]) -> (ports: Vec<&'a PwObject>)
    ensures
        ports.deep_view() == objects.deep_view().filter(is_port()),
{
    let ghost all = objects.deep_view();
    let mut ports: Vec<&'a PwObject> = Vec::new();
    let mut i: usize = 0;
    proof {
        reveal(Seq::filter);
        assert(ports.deep_view() =~= all.take(0).filter(is_port()));
    }
    while i < objects.len()
        invariant
            i <= objects.len(),
            all == objects.deep_view(),
            ports.deep_view() == all.take(i as int).filter(is_port()),
        decreases objects.len() - i,
    {
        let ghost before = ports.deep_view();
        proof {
            reveal(Seq::filter);
            assert(all.take(i + 1).drop_last() =~= all.take(i as int));
        }
        if objects[i].type_ == ObjectType::Port {
            ports.push(&objects[i]);
            assert(ports.deep_view() =~= before.push(all[i as int]));
        }
        i += 1;
    }
    assert(all.take(all.len() as int) =~= all);
    ports
}

/// The node of the stream with its ports among the objects.
pub open spec fn stream_node(objects: Seq<ObjectView>, stream_node_id: u32) -> NodeView {
    NodeView {
        id: stream_node_id,
        ports: objects.filter(is_port()).filter_map(node_port_of(stream_node_id)),
    }
}

/// The given nodes with their input ports among the objects.
pub open spec fn target_nodes(objects: Seq<ObjectView>, node_ids: Seq<u32>) -> Seq<NodeView> {
    node_ids.map_values(target_of(objects.filter(is_port())))
}

/// The links from the stream to the given nodes.
pub open spec fn planned_links(
    objects: Seq<ObjectView>,
    node_ids: Seq<u32>,
    stream_node_id: u32,
) -> Seq<Link> {
    links_between(stream_node(objects, stream_node_id), target_nodes(objects, node_ids))
}

/// The nodes that a node is linked to.
pub open spec fn fed_by(objects: Seq<ObjectView>, node_id: u32) -> Set<u32> {
    input_nodes(objects.filter(links_from(node_id)))
}

/// Whether `items` are the members of `set`, each once, in some order.
pub open spec fn enumerates(items: Seq<u32>, set: Set<u32>) -> bool {
    items.no_duplicates() && items.to_set() == set
}

/// The links from the stream to the given nodes, in the order of the ports of the stream and of
/// the nodes.
pub fn plan_links_to_nodes(objects: &[PwObject], node_ids: &[u32], stream_node_id: u32) -> (links:
    Vec<Link>)
    ensures
        links@ == planned_links(objects.deep_view(), node_ids@, stream_node_id),
{
    let ports = port_objects(objects);
    let targets = connection_targets(ports.as_slice(), node_ids);
    let stream_ports = node_ports(ports.as_slice(), stream_node_id);
    let stream_node = NodeWithPorts::new(stream_node_id, stream_ports);
    links_from_source_to_nodes(&stream_node, targets.as_slice())
}

/// The members of a set, each once. In which order they come is up to the set.
fn members(set: &HashSet<u32>) -> (items: Vec<u32>)
    ensures
        enumerates(items@, set@),
{
    let mut items: Vec<u32> = Vec::new();
    let ghost walked = vstd::std_specs::iter::IteratorSpec::remaining(&set.iter());
    for item in iter: set.iter()
        invariant
            iter.seq() == walked,
            items@.len() == iter.index(),
            forall|i: int| 0 <= i < items@.len() ==> items@[i] == *walked[i],
    {
        items.push(*item);
    }
    proof {
        assert(items@ =~= walked.unref());
        assert forall|i: int, j: int| 0 <= i < j < items@.len() implies items@[i] != items@[j] by {
            assert(walked[i] != walked[j]);
        }
    }
    items
}

/// The nodes that the source is linked to, each once, in no particular order.
pub fn nodes_to_connect_to(objects: &[PwObject], source_node: &PwObject) -> (node_ids: Vec<u32>)
    ensures
        enumerates(node_ids@, fed_by(objects.deep_view(), source_node.id)),
{
    let source_links = node_adjacent_links(objects, source_node);
    let ids = link_adjacent_input_node_ids(source_links.as_slice());
    members(&ids)
}

/// Whether a link is one that is wanted: it goes from a port of the stream to an input port of a
/// node among `fed`, and the channels of the two ports match.
pub open spec fn is_wanted(
    objects: Seq<ObjectView>,
    fed: Set<u32>,
    stream_node_id: u32,
    link: Link,
) -> bool {
    let stream_ports = stream_node(objects, stream_node_id).ports;
    let input_ports = objects.filter(is_port()).filter_map(input_port_of(link.input_node));
    &&& link.output_node == stream_node_id
    &&& fed.contains(link.input_node)
    &&& exists|p: int, q: int|
        0 <= p < stream_ports.len() && 0 <= q < input_ports.len() && (
        #[trigger] stream_ports[p]).id == link.output_port && (#[trigger] input_ports[q]).id
            == link.input_port && channels_match(
            stream_ports[p].audio_channel,
            input_ports[q].audio_channel,
        )
}

/// The links that are made are those that are wanted, whichever way the nodes are ordered.
pub proof fn law_planned_iff_wanted(
    objects: Seq<ObjectView>,
    node_ids: Seq<u32>,
    stream_node_id: u32,
    link: Link,
)
    ensures
        planned_links(objects, node_ids, stream_node_id).contains(link) <==> is_wanted(
            objects,
            node_ids.to_set(),
            stream_node_id,
            link,
        ),
{
    let stream = stream_node(objects, stream_node_id);
    let targets = target_nodes(objects, node_ids);
    let input_ports = objects.filter(is_port()).filter_map(input_port_of(link.input_node));
    law_linked_iff_channels_match(stream, targets, link);
    if joins(stream, targets, link) {
        let (p, t, q) = choose|p: int, t: int, q: int|
            0 <= p < stream.ports.len() && 0 <= t < targets.len() && 0 <= q
                < targets[t].ports.len() && #[trigger] link_to_port(
                stream.id,
                stream.ports[p],
                targets[t].id,
            )(targets[t].ports[q]) == Some(link);
        assert(node_ids[t] == link.input_node);
        assert(node_ids.contains(link.input_node));
        assert(targets[t].ports == input_ports);
        assert(stream.ports[p].id == link.output_port && input_ports[q].id == link.input_port);
    }
    if is_wanted(objects, node_ids.to_set(), stream_node_id, link) {
        let (p, q) = choose|p: int, q: int|
            0 <= p < stream.ports.len() && 0 <= q < input_ports.len() && (
            #[trigger] stream.ports[p]).id == link.output_port && (#[trigger] input_ports[q]).id
                == link.input_port && channels_match(
                stream.ports[p].audio_channel,
                input_ports[q].audio_channel,
            );
        let t = node_ids.index_of(link.input_node);
        assert(targets[t].ports == input_ports);
        assert(link_to_port(stream.id, stream.ports[p], targets[t].id)(targets[t].ports[q])
            == Some(link));
    }
}

/// Which links are made does not depend on the order in which the nodes are taken.
pub proof fn law_order_of_nodes_is_irrelevant(
    objects: Seq<ObjectView>,
    node_ids: Seq<u32>,
    other_node_ids: Seq<u32>,
    stream_node_id: u32,
    link: Link,
)
    requires
        node_ids.to_set() == other_node_ids.to_set(),
    ensures
        planned_links(objects, node_ids, stream_node_id).contains(link) <==> planned_links(
            objects,
            other_node_ids,
            stream_node_id,
        ).contains(link),
{
    law_planned_iff_wanted(objects, node_ids, stream_node_id, link);
    law_planned_iff_wanted(objects, other_node_ids, stream_node_id, link);
}

/// Whether objects have different numbers.
pub open spec fn ids_distinct(objects: Seq<ObjectView>) -> bool {
    forall|i: int, j: int|
        0 <= i < j < objects.len() ==> #[trigger] objects[i].id != #[trigger] objects[j].id
}

proof fn lemma_filter_ids_distinct(objects: Seq<ObjectView>, pred: spec_fn(ObjectView) -> bool)
    requires
        ids_distinct(objects),
    ensures
        ids_distinct(objects.filter(pred)),
    decreases objects.len(),
{
    reveal(Seq::filter);
    if objects.len() > 0 {
        let rest = objects.drop_last();
        lemma_filter_ids_distinct(rest, pred);
        assert forall|i: int| 0 <= i < rest.filter(pred).len() implies (#[trigger] rest.filter(
            pred,
        )[i]).id != objects.last().id by {
            assert(rest.filter(pred).contains(rest.filter(pred)[i]));
            rest.lemma_filter_contains_rev(pred, rest.filter(pred)[i]);
            let j = rest.index_of(rest.filter(pred)[i]);
            assert(objects[j].id != objects[objects.len() - 1].id);
        }
    }
}

proof fn lemma_ports_distinct(
    objects: Seq<ObjectView>,
    port_of: spec_fn(ObjectView) -> Option<PortView>,
    node_id: u32,
)
    requires
        ids_distinct(objects),
        forall|object: ObjectView|
            #[trigger] port_of(object) is Some ==> port_of(object)->0.id == object.id,
    ensures
        ports_distinct(NodeView { id: node_id, ports: objects.filter_map(port_of) }),
    decreases objects.len(),
{
    if objects.len() > 0 {
        let rest = objects.drop_last();
        let ports = rest.filter_map(port_of);
        lemma_ports_distinct(rest, port_of, node_id);
        assert(ports_distinct(NodeView { id: node_id, ports }));
        assert forall|i: int| 0 <= i < ports.len() implies (#[trigger] ports[i]).id
            != objects.last().id by {
            assert(ports.contains(ports[i]));
            rest.lemma_filter_map_contains(port_of, ports[i]);
            let object = choose|object: ObjectView|
                #[trigger] rest.contains(object) && port_of(object) == Some(ports[i]);
            let j = rest.index_of(object);
            assert(objects[j].id != objects[objects.len() - 1].id);
        }
        assert forall|i: int, j: int|
            0 <= i < j < objects.filter_map(port_of).len() implies #[trigger] objects.filter_map(
            port_of,
        )[i].id != #[trigger] objects.filter_map(port_of)[j].id by {
            assert(ports[i].id != objects.last().id);
            if j < ports.len() {
                let node = NodeView { id: node_id, ports };
                assert(node.ports[i].id != node.ports[j].id);
            }
        }
    }
}

/// No link is made twice, as long as the objects on the server have different numbers.
pub proof fn law_no_link_planned_twice(
    objects: Seq<ObjectView>,
    node_ids: Seq<u32>,
    stream_node_id: u32,
)
    requires
        ids_distinct(objects),
        node_ids.no_duplicates(),
    ensures
        planned_links(objects, node_ids, stream_node_id).no_duplicates(),
{
    let ports = objects.filter(is_port());
    let targets = target_nodes(objects, node_ids);
    lemma_filter_ids_distinct(objects, is_port());
    lemma_ports_distinct(ports, node_port_of(stream_node_id), stream_node_id);
    assert forall|i: int| 0 <= i < targets.len() implies ports_distinct(#[trigger] targets[i]) by {
        lemma_ports_distinct(ports, input_port_of(node_ids[i]), node_ids[i]);
    }
    assert forall|i: int, j: int| 0 <= i < j < targets.len() implies #[trigger] targets[i].id
        != #[trigger] targets[j].id by {
        assert(node_ids[i] != node_ids[j]);
    }
    assert(nodes_distinct(targets));
    law_no_link_twice(stream_node(objects, stream_node_id), targets);
}

proof fn lemma_filter_relevant(objects: Seq<ObjectView>, pred: spec_fn(ObjectView) -> bool)
    requires
        forall|object: ObjectView| #[trigger] pred(object) ==> relevant()(object),
    ensures
        objects.filter(relevant()).filter(pred) == objects.filter(pred),
    decreases objects.len(),
{
    reveal(Seq::filter);
    if objects.len() > 0 {
        let rest = objects.drop_last();
        lemma_filter_relevant(rest, pred);
        if relevant()(objects.last()) {
            let kept = rest.filter(relevant()).push(objects.last());
            assert(objects.filter(relevant()) == kept);
            assert(kept.drop_last() =~= rest.filter(relevant()));
        }
    }
}

proof fn lemma_first_relevant(objects: Seq<ObjectView>, pred: spec_fn(ObjectView) -> bool)
    requires
        forall|object: ObjectView| #[trigger] pred(object) ==> relevant()(object),
    ensures
        first(objects.filter(relevant()), pred) == first(objects, pred),
    decreases objects.len(),
{
    if objects.len() == 0 {
        reveal(Seq::filter);
    } else {
        let rest = objects.drop_first();
        lemma_first_relevant(rest, pred);
        rest.lemma_filter_prepend(objects[0], relevant());
        assert(seq![objects[0]] + rest =~= objects);
        if relevant()(objects[0]) {
            let kept = objects.filter(relevant());
            assert(kept == seq![objects[0]] + rest.filter(relevant()));
            assert(kept.drop_first() =~= rest.filter(relevant()));
        }
    }
}

/// Nothing that a run looks for among the objects on the server depends on those that are not
/// kept.
pub proof fn law_other_objects_are_irrelevant(
    objects: Seq<ObjectView>,
    name: Seq<char>,
    node_id: u32,
    node_ids: Seq<u32>,
    stream_node_id: u32,
)
    ensures
        first(objects.filter(relevant()), default_metadata_objects()) == first(
            objects,
            default_metadata_objects(),
        ),
        first(objects.filter(relevant()), nodes_named(name)) == first(objects, nodes_named(name)),
        fed_by(objects.filter(relevant()), node_id) == fed_by(objects, node_id),
        planned_links(objects.filter(relevant()), node_ids, stream_node_id) == planned_links(
            objects,
            node_ids,
            stream_node_id,
        ),
{
    lemma_first_relevant(objects, default_metadata_objects());
    lemma_first_relevant(objects, nodes_named(name));
    lemma_filter_relevant(objects, links_from(node_id));
    lemma_filter_relevant(objects, is_port());
}

proof fn lemma_port_found(
    objects: Seq<ObjectView>,
    port_of: spec_fn(ObjectView) -> Option<PortView>,
    a: int,
) -> (p: int)
    requires
        0 <= a < objects.len(),
        objects[a].type_ == ObjectType::Port,
        port_of(objects[a]) is Some,
    ensures
        0 <= p < objects.filter(is_port()).filter_map(port_of).len(),
        objects.filter(is_port()).filter_map(port_of)[p] == port_of(objects[a])->0,
{
    let ports = objects.filter(is_port());
    let port = port_of(objects[a])->0;
    objects.lemma_filter_contains(is_port(), a);
    let j = ports.index_of(objects[a]);
    assert(port_of(ports[j]) == Some(port));
    lemma_filter_map_contains(ports, port_of, port);
    ports.filter_map(port_of).index_of(port)
}

proof fn lemma_port_comes_from_object(
    objects: Seq<ObjectView>,
    port_of: spec_fn(ObjectView) -> Option<PortView>,
    p: int,
) -> (a: int)
    requires
        0 <= p < objects.filter(is_port()).filter_map(port_of).len(),
    ensures
        0 <= a < objects.len(),
        objects[a].type_ == ObjectType::Port,
        port_of(objects[a]) == Some(objects.filter(is_port()).filter_map(port_of)[p]),
{
    let ports = objects.filter(is_port());
    let port = ports.filter_map(port_of)[p];
    assert(ports.filter_map(port_of).contains(port));
    lemma_filter_map_contains(ports, port_of, port);
    let j = choose|j: int| 0 <= j < ports.len() && port_of(#[trigger] ports[j]) == Some(port);
    assert(ports.contains(ports[j]));
    objects.lemma_filter_contains_rev(is_port(), ports[j]);
    assert(is_port()(ports[j]));
    objects.index_of(ports[j])
}

/// Whatever else is on the server: a port of the stream is linked with an input port of a node to
/// connect to wherever both carry the same audio channel, whichever that is, and wherever one of
/// them carries `MONO` or does not say what it carries.
pub proof fn law_matching_ports_are_linked(
    objects: Seq<ObjectView>,
    node_ids: Seq<u32>,
    stream_node_id: u32,
    a: int,
    b: int,
)
    requires
        0 <= a < objects.len(),
        objects[a].type_ == ObjectType::Port,
        objects[a].number("node.id"@) == Some(stream_node_id),
        0 <= b < objects.len(),
        objects[b].type_ == ObjectType::Port,
        objects[b].number("node.id"@) is Some,
        node_ids.contains(objects[b].number("node.id"@)->0),
        objects[b].text("port.direction"@) == Some("in"@),
        objects[a].text("audio.channel"@) == objects[b].text("audio.channel"@) || objects[a].text(
            "audio.channel"@,
        ) is None || objects[a].text("audio.channel"@) == Some("MONO"@) || objects[b].text(
            "audio.channel"@,
        ) is None || objects[b].text("audio.channel"@) == Some("MONO"@),
    ensures
        planned_links(objects, node_ids, stream_node_id).contains(
            Link {
                output_node: stream_node_id,
                output_port: objects[a].id,
                input_node: objects[b].number("node.id"@)->0,
                input_port: objects[b].id,
            },
        ),
{
    let target_id = objects[b].number("node.id"@)->0;
    let stream = stream_node(objects, stream_node_id);
    let targets = target_nodes(objects, node_ids);
    let p = lemma_port_found(objects, node_port_of(stream_node_id), a);
    let q = lemma_port_found(objects, input_port_of(target_id), b);
    let t = node_ids.index_of(target_id);
    assert(targets[t].ports == objects.filter(is_port()).filter_map(input_port_of(target_id)));
    law_same_channels_and_mono_are_linked(stream, targets, p, t, q);
}

/// Nothing else is linked: every link goes from a port of the stream to an input port of a node to
/// connect to, and both carry the same audio channel, or one of them carries `MONO` or does not say
/// what it carries.
pub proof fn law_only_matching_ports_are_linked(
    objects: Seq<ObjectView>,
    node_ids: Seq<u32>,
    stream_node_id: u32,
    link: Link,
) -> (ends: (int, int))
    requires
        planned_links(objects, node_ids, stream_node_id).contains(link),
    ensures
        0 <= ends.0 < objects.len(),
        objects[ends.0].type_ == ObjectType::Port,
        objects[ends.0].number("node.id"@) == Some(stream_node_id),
        0 <= ends.1 < objects.len(),
        objects[ends.1].type_ == ObjectType::Port,
        objects[ends.1].number("node.id"@) == Some(link.input_node),
        objects[ends.1].text("port.direction"@) == Some("in"@),
        node_ids.contains(link.input_node),
        link.output_node == stream_node_id,
        link.output_port == objects[ends.0].id,
        link.input_port == objects[ends.1].id,
        objects[ends.0].text("audio.channel"@) == objects[ends.1].text("audio.channel"@)
            || objects[ends.0].text("audio.channel"@) is None || objects[ends.0].text(
            "audio.channel"@,
        ) == Some("MONO"@) || objects[ends.1].text("audio.channel"@) is None
            || objects[ends.1].text("audio.channel"@) == Some("MONO"@),
{
    let stream = stream_node(objects, stream_node_id);
    let targets = target_nodes(objects, node_ids);
    let (p, t, q) = law_nothing_else_is_linked(stream, targets, link);
    assert(node_ids[t] == link.input_node);
    assert(targets[t].ports == objects.filter(is_port()).filter_map(input_port_of(node_ids[t])));
    let a = lemma_port_comes_from_object(objects, node_port_of(stream_node_id), p);
    let b = lemma_port_comes_from_object(objects, input_port_of(node_ids[t]), q);
    (a, b)
}

/// The links are made in the order of the ports of the stream, then of the nodes to connect to, then
/// of their ports, each taken in the order of the objects.
pub proof fn law_planned_links_are_in_order(
    objects: Seq<ObjectView>,
    node_ids: Seq<u32>,
    stream_node_id: u32,
    stream: NodeView,
    targets: Seq<NodeView>,
)
    requires
        stream.id == stream_node_id,
        stream.ports == objects.filter(is_port()).filter_map(node_port_of(stream_node_id)),
        targets.len() == node_ids.len(),
        forall|t: int|
            0 <= t < node_ids.len() ==> (#[trigger] targets[t]).id == node_ids[t]
                && targets[t].ports == objects.filter(is_port()).filter_map(
                input_port_of(node_ids[t]),
            ),
    ensures
        planned_links(objects, node_ids, stream_node_id) == links_between(stream, targets),
{
    assert(stream == stream_node(objects, stream_node_id));
    assert(targets =~= target_nodes(objects, node_ids)) by {
        assert forall|t: int| 0 <= t < node_ids.len() implies targets[t] == target_nodes(
            objects,
            node_ids,
        )[t] by {
            assert(targets[t].id == node_ids[t]);
        }
    }
}

/// The objects that are ports are those of that kind.
pub proof fn law_ports_are_ports(object: ObjectView)
    ensures
        is_port()(object) <==> object.type_ == ObjectType::Port,
{
}

/// A node is fed by another if and only if there is a link on the server that comes out of the one
/// and goes into the other.
pub proof fn law_fed_through_a_link(objects: Seq<ObjectView>, node_id: u32, fed_id: u32)
    ensures
        fed_by(objects, node_id).contains(fed_id) <==> exists|l: int|
            0 <= l < objects.len() && (#[trigger] objects[l]).type_ == ObjectType::Link
                && objects[l].number("link.output.node"@) == Some(node_id) && objects[l].number(
                "link.input.node"@,
            ) == Some(fed_id),
{
    let links = objects.filter(links_from(node_id));
    if fed_by(objects, node_id).contains(fed_id) {
        let i = choose|i: int|
            0 <= i < links.len() && #[trigger] links[i].number("link.input.node"@) == Some(fed_id);
        assert(links.contains(links[i]));
        objects.lemma_filter_contains_rev(links_from(node_id), links[i]);
        assert(links_from(node_id)(links[i]));
        let l = objects.index_of(links[i]);
        assert(objects[l] == links[i]);
    }
    if exists|l: int|
        0 <= l < objects.len() && (#[trigger] objects[l]).type_ == ObjectType::Link
            && objects[l].number("link.output.node"@) == Some(node_id) && objects[l].number(
            "link.input.node"@,
        ) == Some(fed_id) {
        let l = choose|l: int|
            0 <= l < objects.len() && (#[trigger] objects[l]).type_ == ObjectType::Link
                && objects[l].number("link.output.node"@) == Some(node_id) && objects[l].number(
                "link.input.node"@,
            ) == Some(fed_id);
        objects.lemma_filter_contains(links_from(node_id), l);
        let i = links.index_of(objects[l]);
        assert(links[i].number("link.input.node"@) == Some(fed_id));
    }
}

/// The nodes to connect to are those that the source feeds through a link, every one of them and no
/// other, each once.
pub proof fn law_nodes_to_connect_to_are_fed(
    objects: Seq<ObjectView>,
    source_id: u32,
    node_ids: Seq<u32>,
    fed_id: u32,
)
    requires
        enumerates(node_ids, fed_by(objects, source_id)),
    ensures
        node_ids.contains(fed_id) <==> exists|l: int|
            0 <= l < objects.len() && (#[trigger] objects[l]).type_ == ObjectType::Link
                && objects[l].number("link.output.node"@) == Some(source_id) && objects[l].number(
                "link.input.node"@,
            ) == Some(fed_id),
        forall|i: int, j: int|
            0 <= i < j < node_ids.len() ==> #[trigger] node_ids[i] != #[trigger] node_ids[j],
{
    law_fed_through_a_link(objects, source_id, fed_id);
    assert(node_ids.contains(fed_id) <==> node_ids.to_set().contains(fed_id));
}

} // verus!
