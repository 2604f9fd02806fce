//! The graph of nodes, ports and links on the server, and what to link the stream with.
use crate::properties::{lookup, number_in, same_text, Properties};
use std::collections::HashSet;
use vstd::prelude::*;

verus! {

broadcast use vstd::std_specs::hash::group_hash_axioms;

/// The kinds of objects that matter here. Any other kind is `Other`.
#[derive(Debug, Clone, Copy, PartialEq, Eq, Structural)]
pub enum ObjectType {
    Link,
    Metadata,
    Node,
    Port,
    Other,
}

/// An object on the server.
#[derive(Debug)]
pub struct PwObject {
    pub id: u32,
    pub type_: ObjectType,
    pub props: Option<Properties>,
}

/// The contents of a `PwObject`.
#[verifier::ext_equal]
pub struct ObjectView {
    pub id: u32,
    pub type_: ObjectType,
    pub props: Option<Seq<(Seq<char>, Seq<char>)>>,
}

impl DeepView for PwObject {
    type V = ObjectView;

    open spec fn deep_view(&self) -> ObjectView {
        ObjectView {
            id: self.id,
            type_: self.type_,
            props: match self.props {
                Some(props) => Some(props@),
                None => None,
            },
        }
    }
}

impl ObjectView {
    /// The value of a property.
    pub open spec fn text(self, key: Seq<char>) -> Option<Seq<char>> {
        match self.props {
            Some(props) => lookup(props, key),
            None => None,
        }
    }

    /// The value of a property, where it is a number.
    pub open spec fn number(self, key: Seq<char>) -> Option<u32> {
        match self.text(key) {
            Some(text) => number_in(text),
            None => None,
        }
    }
}

/// Whether objects of a kind matter.
pub open spec fn is_relevant(type_: ObjectType) -> bool {
    type_ == ObjectType::Node || type_ == ObjectType::Link || type_ == ObjectType::Metadata || type_
        == ObjectType::Port
}

/// Whether objects matter.
pub open spec fn relevant() -> spec_fn(ObjectView) -> bool {
    |object: ObjectView| is_relevant(object.type_)
}

/// Keeps an object that the server announces, if it matters.
pub fn collect_object(objects: &mut Vec<PwObject>, object: PwObject)
    ensures
        final(objects).deep_view() == if is_relevant(object.type_) {
            old(objects).deep_view().push(object.deep_view())
        } else {
            old(objects).deep_view()
        },
{
    match object.type_ {
        ObjectType::Node | ObjectType::Link | ObjectType::Metadata | ObjectType::Port => {
            let ghost before = objects.deep_view();
            objects.push(object);
            assert(objects.deep_view() =~= before.push(object.deep_view()));
        },
        ObjectType::Other => {},
    }
}

/// Keeping objects as they are announced keeps those that matter, in the order of their
/// announcement: if that holds of what has been announced so far, it holds after the next object.
pub proof fn law_collected_are_relevant(
    announced: Seq<ObjectView>,
    kept: Seq<ObjectView>,
    object: ObjectView,
)
    requires
        kept == announced.filter(relevant()),
    ensures
        announced.push(object).filter(relevant()) == if is_relevant(object.type_) {
            kept.push(object)
        } else {
            kept
        },
{
    reveal(Seq::filter);
    assert(announced.push(object).drop_last() =~= announced);
}

/// Whether an object is of a kind and a property of it is a given number.
pub fn is_of_type_and_has_property_equal_to(
    object: &PwObject,
    type_: ObjectType,
    prop: &str,
    value: u32,
) -> (holds: bool)
    ensures
        holds == (object.type_ == type_ && object.deep_view().number(prop@) == Some(value)),
{
    if object.type_ != type_ {
        return false;
    }
    match &object.props {
        Some(props) => match props.parse(prop) {
            Some(Ok(number)) => number == value,
            _ => false,
        },
        None => false,
    }
}

/// Whether an object is of a kind and a property of it is a given text.
pub fn is_of_type_and_has_str_property_equal_to(
    object: &PwObject,
    type_: ObjectType,
    prop: &str,
    value: &str,
) -> (holds: bool)
    ensures
        holds == (object.type_ == type_ && object.deep_view().text(prop@) == Some(value@)),
{
    if object.type_ != type_ {
        return false;
    }
    match &object.props {
        Some(props) => match props.get(prop) {
            Some(text) => same_text(text, value),
            None => false,
        },
        None => false,
    }
}

/// Whether an object is the metadata that names the default devices.
pub open spec fn is_default_metadata(object: ObjectView) -> bool {
    object.type_ == ObjectType::Metadata && object.text("metadata.name"@) == Some("default"@)
}

/// Whether an object is the metadata that names the default devices.
pub fn is_default_metadata_object(object: &PwObject) -> (holds: bool)
    ensures
        holds == is_default_metadata(object.deep_view()),
{
    is_of_type_and_has_str_property_equal_to(
        object,
        ObjectType::Metadata,
        "metadata.name",
        "default",
    )
}

/// The first object for which `pred` holds.
pub open spec fn first(objects: Seq<ObjectView>, pred: spec_fn(ObjectView) -> bool) -> Option<
    ObjectView,
>
    decreases objects.len(),
{
    if objects.len() == 0 {
        None
    } else if pred(objects[0]) {
        Some(objects[0])
    } else {
        first(objects.drop_first(), pred)
    }
}

/// The objects that are the default metadata.
pub open spec fn default_metadata_objects() -> spec_fn(ObjectView) -> bool {
    |object: ObjectView| is_default_metadata(object)
}

/// The first object that is the default metadata.
pub fn default_metadata_object(objects: &[PwObject]) -> (found: Option<&PwObject>)
    ensures
        found.deep_view() == first(objects.deep_view(), default_metadata_objects()),
{
    let ghost all = objects.deep_view();
    let mut i: usize = 0;
    assert(all.skip(0) =~= all);
    while i < objects.len()
        invariant
            i <= objects.len(),
            all == objects.deep_view(),
            first(all, default_metadata_objects()) == first(
                all.skip(i as int),
                default_metadata_objects(),
            ),
        decreases objects.len() - i,
    {
        assert(all.skip(i as int)[0] == objects[i as int].deep_view());
        if is_default_metadata_object(&objects[i]) {
            return Some(&objects[i]);
        }
        assert(all.skip(i as int).drop_first() =~= all.skip(i + 1));
        i += 1;
    }
    None
}

/// The nodes with a given name.
pub open spec fn nodes_named(name: Seq<char>) -> spec_fn(ObjectView) -> bool {
    |object: ObjectView|
        object.type_ == ObjectType::Node && object.text("node.name"@) == Some(name)
}

/// The first node with a given name.
pub fn find_source_node<'a>(objects: &'a [PwObject], source_name: &str) -> (found: Option<
    &'a PwObject,
>)
    ensures
        found.deep_view() == first(objects.deep_view(), nodes_named(source_name@)),
{
    let ghost all = objects.deep_view();
    let mut i: usize = 0;
    assert(all.skip(0) =~= all);
    while i < objects.len()
        invariant
            i <= objects.len(),
            all == objects.deep_view(),
            first(all, nodes_named(source_name@)) == first(
                all.skip(i as int),
                nodes_named(source_name@),
            ),
        decreases objects.len() - i,
    {
        assert(all.skip(i as int)[0] == objects[i as int].deep_view());
        if is_of_type_and_has_str_property_equal_to(
            &objects[i],
            ObjectType::Node,
            "node.name",
            source_name,
        ) {
            return Some(&objects[i]);
        }
        assert(all.skip(i as int).drop_first() =~= all.skip(i + 1));
        i += 1;
    }
    None
}

/// The links that come out of a node.
pub open spec fn links_from(node_id: u32) -> spec_fn(ObjectView) -> bool {
    |object: ObjectView|
        object.type_ == ObjectType::Link && object.number("link.output.node"@) == Some(node_id)
}

/// The links that come out of a node, in the order of the objects.
pub fn node_adjacent_links<'a>(objects: &'a [PwObject], source_node: &'a PwObject) -> (links: Vec<
    &'a PwObject,
>)
    ensures
        links.deep_view() == objects.deep_view().filter(links_from(source_node.id)),
{
    let ghost all = objects.deep_view();
    let ghost pred = links_from(source_node.id);
    let mut links: Vec<&'a PwObject> = Vec::new();
    let mut i: usize = 0;
    proof {
        reveal(Seq::filter);
        assert(links.deep_view() =~= all.take(0).filter(pred));
    }
    while i < objects.len()
        invariant
            i <= objects.len(),
            all == objects.deep_view(),
            pred == links_from(source_node.id),
            links.deep_view() == all.take(i as int).filter(pred),
        decreases objects.len() - i,
    {
        let ghost before = links.deep_view();
        proof {
            reveal(Seq::filter);
            assert(all.take(i + 1).drop_last() =~= all.take(i as int));
        }
        if is_of_type_and_has_property_equal_to(
            &objects[i],
            ObjectType::Link,
            "link.output.node",
            source_node.id,
        ) {
            links.push(&objects[i]);
            assert(links.deep_view() =~= before.push(all[i as int]));
        }
        i += 1;
    }
    assert(all.take(all.len() as int) =~= all);
    links
}

/// The nodes that links go into.
pub open spec fn input_nodes(links: Seq<ObjectView>) -> Set<u32> {
    Set::new(
        |id: u32|
            exists|i: int|
                0 <= i < links.len() && #[trigger] links[i].number("link.input.node"@) == Some(id),
    )
}

/// The nodes that links go into, each once.
pub fn link_adjacent_input_node_ids(links: &[&PwObject]) -> (ids: HashSet<u32>)
    ensures
        ids@ == input_nodes(links.deep_view()),
{
    let ghost all = links.deep_view();
    let mut ids: HashSet<u32> = HashSet::new();
    let mut i: usize = 0;
    assert(ids@ =~= input_nodes(all.take(0)));
    while i < links.len()
        invariant
            i <= links.len(),
            all == links.deep_view(),
            ids@ == input_nodes(all.take(i as int)),
        decreases links.len() - i,
    {
        let link = links[i];
        let ghost before = ids@;
        if let Some(props) = &link.props {
            if let Some(Ok(id)) = props.parse("link.input.node") {
                ids.insert(id);
            }
        }
        proof {
            let found = all[i as int].number("link.input.node"@);
            assert(ids@ == match found {
                Some(id) => before.insert(id),
                None => before,
            });
            let earlier = all.take(i as int);
            let later = all.take(i + 1);
            assert forall|id: u32| ids@.contains(id) == input_nodes(later).contains(id) by {
                if before.contains(id) {
                    let j = choose|j: int|
                        0 <= j < earlier.len() && #[trigger] earlier[j].number("link.input.node"@)
                            == Some(id);
                    assert(later[j] == earlier[j]);
                }
                if found == Some(id) {
                    assert(later[i as int].number("link.input.node"@) == Some(id));
                }
                if input_nodes(later).contains(id) {
                    let j = choose|j: int|
                        0 <= j < later.len() && #[trigger] later[j].number("link.input.node"@)
                            == Some(id);
                    if j < i {
                        assert(earlier[j].number("link.input.node"@) == Some(id));
                    }
                }
            }
            assert(ids@ =~= input_nodes(later));
        }
        i += 1;
    }
    assert(all.take(all.len() as int) =~= all);
    ids
}

/// The view of an object is its number, its kind and its properties.
pub proof fn law_view_of_object(object: PwObject)
    ensures
        object.deep_view().id == object.id,
        object.deep_view().type_ == object.type_,
        object.props is Some <==> object.deep_view().props is Some,
        object.props is Some ==> object.deep_view().props->0 == object.props->0@,
{
}

/// The value of a property of an object is the one in its properties, and there is none where it has
/// no properties. It is a number where its text stands for one.
pub proof fn law_property_of_object(object: ObjectView, key: Seq<char>)
    ensures
        object.props is None ==> object.text(key) is None,
        object.props is Some ==> object.text(key) == lookup(object.props->0, key),
        object.text(key) is None ==> object.number(key) is None,
        object.text(key) is Some ==> object.number(key) == number_in(object.text(key)->0),
{
}

/// Nodes, links, metadata and ports are kept, and nothing else.
pub proof fn law_kinds_that_are_kept(object: ObjectView)
    ensures
        is_relevant(object.type_) <==> object.type_ != ObjectType::Other,
        relevant()(object) <==> object.type_ != ObjectType::Other,
{
}

/// The first object for which something holds is the one that has none such before it.
pub proof fn law_first_comes_before_others(
    objects: Seq<ObjectView>,
    pred: spec_fn(ObjectView) -> bool,
    i: int,
)
    requires
        0 <= i < objects.len(),
        pred(objects[i]),
        forall|j: int| 0 <= j < i ==> !pred(#[trigger] objects[j]),
    ensures
        first(objects, pred) == Some(objects[i]),
    decreases objects.len(),
{
    if i > 0 {
        assert(!pred(objects[0]));
        let rest = objects.drop_first();
        assert forall|j: int| 0 <= j < i - 1 implies !pred(#[trigger] rest[j]) by {
            assert(!pred(objects[j + 1]));
        }
        law_first_comes_before_others(rest, pred, i - 1);
    }
}

/// There is no first object where something holds of none.
pub proof fn law_none_is_first(objects: Seq<ObjectView>, pred: spec_fn(ObjectView) -> bool)
    requires
        forall|j: int| 0 <= j < objects.len() ==> !pred(#[trigger] objects[j]),
    ensures
        first(objects, pred) is None,
    decreases objects.len(),
{
    if objects.len() > 0 {
        assert(!pred(objects[0]));
        let rest = objects.drop_first();
        assert forall|j: int| 0 <= j < rest.len() implies !pred(#[trigger] rest[j]) by {
            assert(!pred(objects[j + 1]));
        }
        law_none_is_first(rest, pred);
    }
}

/// The source is the first node that has its name, wherever it stands among the objects.
pub proof fn law_source_is_first_node_with_name(objects: Seq<ObjectView>, name: Seq<char>, i: int)
    requires
        0 <= i < objects.len(),
        objects[i].type_ == ObjectType::Node,
        objects[i].text("node.name"@) == Some(name),
        forall|j: int|
            0 <= j < i ==> (#[trigger] objects[j]).type_ != ObjectType::Node || objects[j].text(
                "node.name"@,
            ) != Some(name),
    ensures
        first(objects, nodes_named(name)) == Some(objects[i]),
{
    law_first_comes_before_others(objects, nodes_named(name), i);
}

/// There is no source where no node has its name.
pub proof fn law_no_source_without_name(objects: Seq<ObjectView>, name: Seq<char>)
    requires
        forall|j: int|
            0 <= j < objects.len() ==> (#[trigger] objects[j]).type_ != ObjectType::Node
                || objects[j].text("node.name"@) != Some(name),
    ensures
        first(objects, nodes_named(name)) is None,
{
    law_none_is_first(objects, nodes_named(name));
}

/// The default metadata is the first metadata with the name `default`, wherever it stands among the
/// objects.
pub proof fn law_default_metadata_is_first_with_name(objects: Seq<ObjectView>, i: int)
    requires
        0 <= i < objects.len(),
        objects[i].type_ == ObjectType::Metadata,
        objects[i].text("metadata.name"@) == Some("default"@),
        forall|j: int|
            0 <= j < i ==> (#[trigger] objects[j]).type_ != ObjectType::Metadata || objects[j].text(
                "metadata.name"@,
            ) != Some("default"@),
    ensures
        is_default_metadata(objects[i]),
        first(objects, default_metadata_objects()) == Some(objects[i]),
{
    law_first_comes_before_others(objects, default_metadata_objects(), i);
}

/// There is no default metadata where no metadata has the name `default`.
pub proof fn law_no_default_metadata_without_name(objects: Seq<ObjectView>)
    requires
        forall|j: int|
            0 <= j < objects.len() ==> (#[trigger] objects[j]).type_ != ObjectType::Metadata
                || objects[j].text("metadata.name"@) != Some("default"@),
    ensures
        first(objects, default_metadata_objects()) is None,
        forall|j: int| 0 <= j < objects.len() ==> !is_default_metadata(#[trigger] objects[j]),
{
    law_none_is_first(objects, default_metadata_objects());
}

/// An object is a link out of a node if and only if it is a link that has the node's number for its
/// output node.
pub proof fn law_link_comes_out_of_its_output_node(object: ObjectView, node_id: u32)
    ensures
        links_from(node_id)(object) <==> object.type_ == ObjectType::Link && object.number(
            "link.output.node"@,
        ) == Some(node_id),
{
}

/// The nodes that links go into are the input nodes of those links.
pub proof fn law_links_go_into_their_input_nodes(links: Seq<ObjectView>, node_id: u32)
    ensures
        input_nodes(links).contains(node_id) <==> exists|i: int|
            0 <= i < links.len() && (#[trigger] links[i]).number("link.input.node"@) == Some(node_id),
{
    if exists|i: int|
        0 <= i < links.len() && (#[trigger] links[i]).number("link.input.node"@) == Some(node_id) {
        let i = choose|i: int|
            0 <= i < links.len() && (#[trigger] links[i]).number("link.input.node"@) == Some(node_id);
        assert(links[i].number("link.input.node"@) == Some(node_id));
    }
}

} // verus!
