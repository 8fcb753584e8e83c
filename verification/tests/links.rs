use graph_core::basehead::BaseHead;
use graph_core::baselink::{BaseLink, BaseLinkBuilder};
use graph_core::graph::{BaseEdge, BaseNode, EdgeEnd, EdgeType};
use graph_core::iterators::IterLinks;
use graph_core::traits::{
    Edge, EdgeArrow, EdgeLink, EdgeLoop, EdgeWeighted, Head, Node,
};

fn store() -> BaseHead<char, i64> {
    BaseHead::new()
}

#[test]
fn builder_with_a_weak_and_a_strong_end_builds_an_arrow() {
    let mut head = store();
    let a: BaseNode = Node::new('a', &mut head);
    let b: BaseNode = Node::new('b', &mut head);
    let link = BaseLinkBuilder::new()
        .set_alpha_weak(a)
        .set_omega_strong(b)
        .build(&mut head)
        .unwrap();
    assert_eq!(link.get_id(), 0);
    let edge = link.as_edge();
    assert_eq!(edge.get_edge_type(&head), EdgeType::Arrow);
    assert_eq!(edge.tail_node(&head), Some(a));
    assert_eq!(edge.head_node(&head), Some(b));
    assert_eq!(*link.get_weight(&head), 0);
    b.release(&mut head);
    assert!(head.has_node(b));
}

#[test]
fn builder_with_two_weak_ends_builds_a_link() {
    let mut head = store();
    let a: BaseNode = Node::new('a', &mut head);
    let b: BaseNode = Node::new('b', &mut head);
    let link = BaseLinkBuilder::new()
        .set_omega_weak(b)
        .set_alpha_weak(a)
        .set_weight(-4)
        .build(&mut head)
        .unwrap();
    let edge = link.as_edge();
    assert_eq!(edge.get_edge_type(&head), EdgeType::Link);
    assert_eq!(edge.left_node(&head), Some(a));
    assert_eq!(edge.right_node(&head), Some(b));
    assert_eq!(*link.get_weight(&head), -4);
    assert_eq!(*edge.get_weight(&head), -4);
}

#[test]
fn builder_with_one_weak_second_end_builds_a_loop() {
    let mut head = store();
    let a: BaseNode = Node::new('a', &mut head);
    let link = BaseLinkBuilder::new().set_omega_weak(a).build(&mut head).unwrap();
    let edge = link.as_edge();
    assert_eq!(edge.get_edge_type(&head), EdgeType::Loop);
    assert_eq!(edge.loop_node(&head), Some(a));
}

#[test]
fn builder_takes_the_end_set_last() {
    let mut head = store();
    let a: BaseNode = Node::new('a', &mut head);
    let b: BaseNode = Node::new('b', &mut head);
    let c: BaseNode = Node::new('c', &mut head);
    let link = BaseLinkBuilder::new()
        .set_alpha_strong(c)
        .set_alpha_weak(a)
        .set_omega_weak(c)
        .set_omega_strong(b)
        .set_weight(1)
        .set_weight(2)
        .build(&mut head)
        .unwrap();
    assert_eq!(link.as_edge().tail_node(&head), Some(a));
    assert_eq!(link.as_edge().head_node(&head), Some(b));
    assert_eq!(*link.get_weight(&head), 2);
}

#[test]
fn builder_builds_nothing_from_ends_that_make_no_shape() {
    let mut head = store();
    let a: BaseNode = Node::new('a', &mut head);
    let b: BaseNode = Node::new('b', &mut head);
    let nothing: Option<BaseLink> = BaseLinkBuilder::new().build(&mut head);
    assert_eq!(nothing, None);
    assert_eq!(
        BaseLinkBuilder::new().set_alpha_strong(a).set_omega_strong(b).build(&mut head),
        None
    );
    assert_eq!(
        BaseLinkBuilder::new().set_alpha_strong(a).set_omega_weak(b).build(&mut head),
        None
    );
    assert_eq!(BaseLinkBuilder::new().set_alpha_weak(a).build(&mut head), None);
    assert_eq!(BaseLinkBuilder::new().set_alpha_strong(a).build(&mut head), None);
    assert_eq!(BaseLinkBuilder::new().set_omega_strong(a).build(&mut head), None);
    assert_eq!(head.last_edge_id(), 0);
    assert!(!head.has_edge(BaseEdge { id: 0 }));
    let first = BaseLinkBuilder::new().set_omega_weak(a).build(&mut head);
    assert_eq!(first, Some(BaseLink { id: 0 }));
}

#[test]
fn builder_builds_nothing_on_a_node_that_is_gone() {
    let mut head = store();
    let a: BaseNode = Node::new('a', &mut head);
    let b: BaseNode = Node::new('b', &mut head);
    b.release(&mut head);
    assert_eq!(
        BaseLinkBuilder::new().set_alpha_weak(a).set_omega_strong(b).build(&mut head),
        None
    );
    assert_eq!(
        BaseLinkBuilder::new().set_alpha_weak(b).set_omega_weak(a).build(&mut head),
        None
    );
    assert_eq!(BaseLinkBuilder::new().set_omega_weak(b).build(&mut head), None);
    assert!(BaseLinkBuilder::new().set_omega_weak(a).build(&mut head).is_some());
}

#[test]
fn link_finds_the_node_across_whatever_the_direction() {
    let mut head = store();
    let a: BaseNode = Node::new('a', &mut head);
    let b: BaseNode = Node::new('b', &mut head);
    let c: BaseNode = Node::new('c', &mut head);
    let arrow: BaseEdge = EdgeArrow::new_arrow(a, b, &mut head);
    let link = BaseLink::of(arrow);
    assert_eq!(link.try_node(a.get_id(), &head), Some(b));
    assert_eq!(link.try_node(b.get_id(), &head), Some(a));
    assert_eq!(link.try_node(c.get_id(), &head), None);
    assert_eq!(link.try_node(50, &head), None);
}

#[test]
fn link_tells_owned_from_observed() {
    let mut head = store();
    let a: BaseNode = Node::new('a', &mut head);
    let b: BaseNode = Node::new('b', &mut head);
    let arrow = BaseLink::of(EdgeArrow::new_arrow(a, b, &mut head));
    let link = BaseLink::of(EdgeLink::new_link(a, b, &mut head));
    assert_eq!(arrow.try_strong_node(a.get_id(), &head), Some(b));
    assert_eq!(arrow.try_weak_node(a.get_id(), &head), None);
    assert_eq!(arrow.try_strong_node(b.get_id(), &head), None);
    assert_eq!(arrow.try_weak_node(b.get_id(), &head), Some(a));
    assert_eq!(link.try_strong_node(a.get_id(), &head), None);
    assert_eq!(link.try_strong_node(b.get_id(), &head), None);
    assert_eq!(link.try_weak_node(a.get_id(), &head), Some(b));
    assert_eq!(link.try_weak_node(b.get_id(), &head), Some(a));
}

#[test]
fn a_loop_has_nothing_across() {
    let mut head = store();
    let a: BaseNode = Node::new('a', &mut head);
    let edge = BaseLink::of(EdgeLoop::new_loop(a, &mut head));
    assert_eq!(edge.try_node(a.get_id(), &head), None);
    assert_eq!(edge.try_strong_node(a.get_id(), &head), None);
    assert_eq!(edge.try_weak_node(a.get_id(), &head), None);
}

#[test]
fn link_loses_sight_of_a_node_that_is_gone() {
    let mut head = store();
    let a: BaseNode = Node::new('a', &mut head);
    let b: BaseNode = Node::new('b', &mut head);
    let link = BaseLink::of(EdgeLink::new_link(a, b, &mut head));
    b.release(&mut head);
    assert_eq!(link.try_node(a.get_id(), &head), None);
    assert_eq!(link.try_weak_node(a.get_id(), &head), None);
    assert_eq!(link.try_node(b.get_id(), &head), None);
    link.as_edge().release(&mut head);
    assert_eq!(link.get_self(&head), None);
    assert_eq!(link.try_node(a.get_id(), &head), None);
}

#[test]
fn link_and_edge_share_identity_and_weight() {
    let mut head = store();
    let a: BaseNode = Node::new('a', &mut head);
    let b: BaseNode = Node::new('b', &mut head);
    let edge: BaseEdge = EdgeArrow::new_arrow(a, b, &mut head);
    let link = BaseLink::of(edge);
    assert_eq!(link.get_id(), edge.get_id());
    assert_eq!(link.as_edge(), edge);
    assert_eq!(link.get_self(&head), Some(link));
    *link.get_weight_mut(&mut head) = 9;
    assert_eq!(*edge.get_weight(&head), 9);
    assert_eq!(*edge.set_weight(11, &mut head), 11);
    assert_eq!(*link.get_weight(&head), 11);
}

#[test]
fn ends_tell_how_they_hold_their_node() {
    let mut head = store();
    let a: BaseNode = Node::new('a', &mut head);
    assert_eq!(EdgeEnd::Owning(a).strong_node(&head), Some(a));
    assert_eq!(EdgeEnd::Owning(a).weak_node(&head), None);
    assert_eq!(EdgeEnd::NonOwning(a).weak_node(&head), Some(a));
    assert_eq!(EdgeEnd::NonOwning(a).strong_node(&head), None);
    assert_eq!(EdgeEnd::Absent.weak_node(&head), None);
    assert_eq!(EdgeEnd::Absent.strong_node(&head), None);
    a.release(&mut head);
    assert_eq!(EdgeEnd::NonOwning(a).weak_node(&head), None);
}

#[test]
fn links_are_registered_and_walked_like_edges() {
    let mut head = store();
    let a: BaseNode = Node::new('a', &mut head);
    let b: BaseNode = Node::new('b', &mut head);
    let first = BaseLinkBuilder::new()
        .set_alpha_weak(a)
        .set_omega_strong(b)
        .build(&mut head)
        .unwrap();
    let second = BaseLinkBuilder::new()
        .set_alpha_weak(b)
        .set_omega_weak(a)
        .build(&mut head)
        .unwrap();
    assert_eq!(a.add_link(first, &mut head), first);
    a.add_link(second, &mut head);
    assert_eq!(a.len_links(&head), 2);
    assert_eq!(a.len_edges(&head), 2);
    assert_eq!(a.get_link(0, &head), Some(first));
    assert_eq!(a.get_link(1, &head), Some(second));
    assert_eq!(a.get_link(2, &head), None);
    let mut walk = IterLinks::new(a);
    assert_eq!(walk.size_hint(&head), (0, Some(2)));
    assert_eq!(walk.len(&head), 2);
    assert_eq!(walk.next(&head), Some(first));
    assert_eq!(walk.next(&head), Some(second));
    assert_eq!(walk.next(&head), None);
    a.add_link(first, &mut head);
    assert_eq!(walk.next(&head), None);
    assert_eq!(a.iter_heads().collect(&head), vec![b, b, b]);
}
