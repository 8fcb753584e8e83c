use graph_core::basehead::BaseHead;
use graph_core::graph::{BaseEdge, BaseNode, EdgeEnd, EdgePos, EdgeType};
use graph_core::traits::{Edge, EdgeArrow, EdgeLink, EdgeLoop, EdgeWeighted, Head, Node};

fn store() -> BaseHead<&'static str, u32> {
    BaseHead::new()
}

#[test]
fn arrow_answers_for_its_tail_with_its_head() {
    let mut head = store();
    let t: BaseNode = Node::new("t", &mut head);
    let h: BaseNode = Node::new("h", &mut head);
    let arrow: BaseEdge = EdgeArrow::new_arrow(t, h, &mut head);
    assert_eq!(arrow.try_head_node(t.get_id(), &head), Some(h));
    assert_eq!(arrow.try_head_node(h.get_id(), &head), None);
    assert_eq!(arrow.try_tail_node(h.get_id(), &head), Some(t));
    assert_eq!(arrow.try_tail_node(t.get_id(), &head), None);
    assert_eq!(arrow.try_head_node(99, &head), None);
    assert_eq!(arrow.try_tail_node(99, &head), None);
}

#[test]
fn arrow_from_a_node_to_itself_answers_both_ways() {
    let mut head = store();
    let x: BaseNode = Node::new("x", &mut head);
    let arrow: BaseEdge = EdgeArrow::new_arrow(x, x, &mut head);
    assert_eq!(arrow.try_head_node(x.get_id(), &head), Some(x));
    assert_eq!(arrow.try_tail_node(x.get_id(), &head), Some(x));
}

#[test]
fn link_answers_for_either_end_with_the_other() {
    let mut head = store();
    let l: BaseNode = Node::new("l", &mut head);
    let r: BaseNode = Node::new("r", &mut head);
    let link: BaseEdge = EdgeLink::new_link(l, r, &mut head);
    assert_eq!(link.try_head_node(l.get_id(), &head), Some(r));
    assert_eq!(link.try_head_node(r.get_id(), &head), Some(l));
    assert_eq!(link.try_tail_node(l.get_id(), &head), Some(r));
    assert_eq!(link.try_tail_node(r.get_id(), &head), Some(l));
    assert_eq!(link.try_head_node(5, &head), None);
    assert_eq!(link.try_tail_node(5, &head), None);
}

#[test]
fn link_of_a_node_with_itself() {
    let mut head = store();
    let x: BaseNode = Node::new("x", &mut head);
    let link: BaseEdge = EdgeLink::new_link(x, x, &mut head);
    assert_eq!(link.try_head_node(x.get_id(), &head), Some(x));
    assert_eq!(link.try_tail_node(x.get_id(), &head), Some(x));
}

#[test]
fn loop_answers_for_its_node_only() {
    let mut head = store();
    let x: BaseNode = Node::new("x", &mut head);
    let y: BaseNode = Node::new("y", &mut head);
    let edge: BaseEdge = EdgeLoop::new_loop(x, &mut head);
    assert_eq!(edge.try_head_node(x.get_id(), &head), Some(x));
    assert_eq!(edge.try_tail_node(x.get_id(), &head), Some(x));
    assert_eq!(edge.try_head_node(y.get_id(), &head), None);
    assert_eq!(edge.try_tail_node(y.get_id(), &head), None);
    assert_eq!(edge.try_head_node(42, &head), None);
}

#[test]
fn shape_is_fixed_by_the_constructor() {
    let mut head = store();
    let a: BaseNode = Node::new("a", &mut head);
    let b: BaseNode = Node::new("b", &mut head);
    let arrow: BaseEdge = EdgeArrow::new_arrow(a, b, &mut head);
    let link: BaseEdge = EdgeLink::new_link(a, b, &mut head);
    let edge: BaseEdge = EdgeLoop::new_loop(a, &mut head);
    assert_eq!(arrow.get_edge_type(&head), EdgeType::Arrow);
    assert_eq!(link.get_edge_type(&head), EdgeType::Link);
    assert_eq!(edge.get_edge_type(&head), EdgeType::Loop);
}

#[test]
fn direct_accessors_answer_on_their_own_shape_only() {
    let mut head = store();
    let a: BaseNode = Node::new("a", &mut head);
    let b: BaseNode = Node::new("b", &mut head);
    let arrow: BaseEdge = EdgeArrow::new_arrow(a, b, &mut head);
    let link: BaseEdge = EdgeLink::new_link(a, b, &mut head);
    let edge: BaseEdge = EdgeLoop::new_loop(b, &mut head);

    assert_eq!(arrow.tail_node(&head), Some(a));
    assert_eq!(arrow.head_node(&head), Some(b));
    assert_eq!(arrow.left_node(&head), None);
    assert_eq!(arrow.right_node(&head), None);
    assert_eq!(arrow.loop_node(&head), None);

    assert_eq!(link.left_node(&head), Some(a));
    assert_eq!(link.right_node(&head), Some(b));
    assert_eq!(link.head_node(&head), None);
    assert_eq!(link.tail_node(&head), None);
    assert_eq!(link.loop_node(&head), None);

    assert_eq!(edge.loop_node(&head), Some(b));
    assert_eq!(edge.head_node(&head), None);
    assert_eq!(edge.tail_node(&head), None);
    assert_eq!(edge.left_node(&head), None);
    assert_eq!(edge.right_node(&head), None);
}

#[test]
fn accessors_of_an_edge_that_is_gone_answer_nothing() {
    let mut head = store();
    let a: BaseNode = Node::new("a", &mut head);
    let b: BaseNode = Node::new("b", &mut head);
    let arrow: BaseEdge = EdgeArrow::new_arrow(a, b, &mut head);
    arrow.release(&mut head);
    assert!(!head.has_edge(arrow));
    assert_eq!(arrow.head_node(&head), None);
    assert_eq!(arrow.tail_node(&head), None);
    assert_eq!(arrow.try_head_node(a.get_id(), &head), None);
    assert_eq!(arrow.try_tail_node(b.get_id(), &head), None);
    assert_eq!(arrow.edge_end(a.get_id(), &head), EdgePos::Outside);
    let never = BaseEdge { id: 1000 };
    assert_eq!(never.try_head_node(0, &head), None);
    assert_eq!(never.loop_node(&head), None);
}

#[test]
fn position_of_a_node_in_an_edge() {
    let mut head = store();
    let a: BaseNode = Node::new("a", &mut head);
    let b: BaseNode = Node::new("b", &mut head);
    let c: BaseNode = Node::new("c", &mut head);
    let arrow: BaseEdge = EdgeArrow::new_arrow(a, b, &mut head);
    let link: BaseEdge = EdgeLink::new_link(a, b, &mut head);
    let edge: BaseEdge = EdgeLoop::new_loop(a, &mut head);
    assert_eq!(arrow.edge_end(a.get_id(), &head), EdgePos::Tail);
    assert_eq!(arrow.edge_end(b.get_id(), &head), EdgePos::Head);
    assert_eq!(arrow.edge_end(c.get_id(), &head), EdgePos::Outside);
    assert_eq!(link.edge_end(a.get_id(), &head), EdgePos::Link);
    assert_eq!(link.edge_end(b.get_id(), &head), EdgePos::Link);
    assert_eq!(link.edge_end(c.get_id(), &head), EdgePos::Outside);
    assert_eq!(edge.edge_end(a.get_id(), &head), EdgePos::Loop);
    assert_eq!(edge.edge_end(b.get_id(), &head), EdgePos::Outside);
}

#[test]
fn ends_resolve_to_living_nodes_only() {
    let mut head = store();
    let a: BaseNode = Node::new("a", &mut head);
    assert_eq!(EdgeEnd::Absent.try_node(&head), None);
    assert_eq!(EdgeEnd::NonOwning(a).try_node(&head), Some(a));
    assert_eq!(EdgeEnd::Owning(a).try_node(&head), Some(a));
    assert!(EdgeEnd::NonOwning(a).leads_to(a.get_id(), &head));
    assert!(!EdgeEnd::NonOwning(a).leads_to(a.get_id() + 1, &head));
    assert!(!EdgeEnd::Absent.leads_to(a.get_id(), &head));
    a.release(&mut head);
    assert_eq!(EdgeEnd::NonOwning(a).try_node(&head), None);
    assert_eq!(EdgeEnd::Owning(a).try_node(&head), None);
    assert!(!EdgeEnd::NonOwning(a).leads_to(a.get_id(), &head));
}

#[test]
fn weight_starts_at_its_default() {
    let mut head = store();
    let a: BaseNode = Node::new("a", &mut head);
    let b: BaseNode = Node::new("b", &mut head);
    let arrow: BaseEdge = EdgeArrow::new_arrow(a, b, &mut head);
    let link: BaseEdge = EdgeLink::new_link(a, b, &mut head);
    let edge: BaseEdge = EdgeLoop::new_loop(a, &mut head);
    assert_eq!(*arrow.get_weight(&head), 0);
    assert_eq!(*link.get_weight(&head), 0);
    assert_eq!(*edge.get_weight(&head), 0);
}

#[test]
fn weight_of_another_type_starts_at_its_default() {
    let mut head: BaseHead<u8, String> = BaseHead::new();
    let a: BaseNode = Node::new(1, &mut head);
    let edge: BaseEdge = EdgeLoop::new_loop(a, &mut head);
    assert_eq!(*edge.get_weight(&head), String::new());
    edge.get_weight_mut(&mut head).push_str("heavy");
    assert_eq!(*edge.get_weight(&head), "heavy");
}

#[test]
fn weight_is_changed_in_place() {
    let mut head = store();
    let a: BaseNode = Node::new("a", &mut head);
    let b: BaseNode = Node::new("b", &mut head);
    let arrow: BaseEdge = EdgeArrow::new_arrow(a, b, &mut head);
    let link: BaseEdge = EdgeLink::new_link(a, b, &mut head);
    *arrow.get_weight_mut(&mut head) = 12;
    *link.get_weight_mut(&mut head) += 3;
    assert_eq!(*arrow.get_weight(&head), 12);
    assert_eq!(*link.get_weight(&head), 3);
    assert_eq!(arrow.get_edge_type(&head), EdgeType::Arrow);
    assert_eq!(arrow.try_head_node(a.get_id(), &head), Some(b));
}

#[test]
fn try_arrow_builds_between_living_nodes_only() {
    let mut head = store();
    let a: BaseNode = Node::new("a", &mut head);
    let b: BaseNode = Node::new("b", &mut head);
    let gone: BaseNode = Node::new("gone", &mut head);
    gone.release(&mut head);
    let made: Option<BaseEdge> = EdgeArrow::try_arrow(a, b, &mut head);
    assert_eq!(made, Some(BaseEdge { id: 0 }));
    assert_eq!(made.unwrap().head_node(&head), Some(b));
    let none: Option<BaseEdge> = EdgeArrow::try_arrow(a, gone, &mut head);
    assert_eq!(none, None);
    let none: Option<BaseEdge> = EdgeArrow::try_arrow(BaseNode { id: 77 }, b, &mut head);
    assert_eq!(none, None);
    assert_eq!(head.last_edge_id(), 0);
    let next: BaseEdge = EdgeLoop::new_loop(a, &mut head);
    assert_eq!(next.get_id(), 1);
}

#[test]
fn try_link_builds_between_living_nodes_only() {
    let mut head = store();
    let a: BaseNode = Node::new("a", &mut head);
    let b: BaseNode = Node::new("b", &mut head);
    let made: Option<BaseEdge> = EdgeLink::try_link(a, b, &mut head);
    assert_eq!(made, Some(BaseEdge { id: 0 }));
    assert_eq!(made.unwrap().get_edge_type(&head), EdgeType::Link);
    assert_eq!(made.unwrap().left_node(&head), Some(a));
    assert_eq!(made.unwrap().right_node(&head), Some(b));
    b.release(&mut head);
    let none: Option<BaseEdge> = EdgeLink::try_link(a, b, &mut head);
    assert_eq!(none, None);
}
