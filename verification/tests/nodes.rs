use graph_core::basehead::BaseHead;
use graph_core::graph::{BaseEdge, BaseNode};
use graph_core::iterators::{IterEdges, IterNodes};
use graph_core::traits::{Edge, EdgeArrow, EdgeLink, EdgeLoop, Head, Node};

fn store() -> BaseHead<String, u32> {
    BaseHead::new()
}

#[test]
fn new_node_has_its_value_and_no_edges() {
    let mut head = store();
    let a: BaseNode = Node::new(String::from("a"), &mut head);
    assert_eq!(*a.get_value(&head), "a");
    assert_eq!(a.len_edges(&head), 0);
    assert_eq!(a.get_edge(0, &head), None);
    assert_eq!(a.get_edge_by_id(0, &head), None);
    assert_eq!(a.iter_edges().collect(&head), vec![]);
}

#[test]
fn value_is_changed_in_place() {
    let mut head = store();
    let a: BaseNode = Node::new(String::from("a"), &mut head);
    let b: BaseNode = Node::new(String::from("b"), &mut head);
    a.get_value_mut(&mut head).push_str("bc");
    *b.get_value_mut(&mut head) = String::from("z");
    assert_eq!(*a.get_value(&head), "abc");
    assert_eq!(*b.get_value(&head), "z");
    assert_eq!(a.get_id(), 0);
}

#[test]
fn add_edge_hands_the_edge_back() {
    let mut head = store();
    let a: BaseNode = Node::new(String::from("a"), &mut head);
    let edge: BaseEdge = EdgeLoop::new_loop(a, &mut head);
    assert_eq!(a.add_edge(edge, &mut head), edge);
    assert_eq!(a.len_edges(&head), 1);
}

#[test]
fn edges_are_counted_and_kept_in_registration_order() {
    let mut head = store();
    let a: BaseNode = Node::new(String::from("a"), &mut head);
    let b: BaseNode = Node::new(String::from("b"), &mut head);
    let before = a.len_edges(&head);
    let mut added: Vec<BaseEdge> = Vec::new();
    for k in 0..7 {
        let edge: BaseEdge = if k % 2 == 0 {
            EdgeArrow::new_arrow(a, b, &mut head)
        } else {
            EdgeLink::new_link(b, a, &mut head)
        };
        a.add_edge(edge, &mut head);
        added.push(edge);
        assert_eq!(a.len_edges(&head), before + k + 1);
    }
    assert_eq!(a.len_edges(&head), before + 7);
    assert_eq!(a.iter_edges().collect(&head), added);
    for (k, edge) in added.iter().enumerate() {
        assert_eq!(a.get_edge(k, &head), Some(*edge));
        assert_eq!(a.get_edge_by_id(edge.get_id(), &head), Some(*edge));
    }
    assert_eq!(a.get_edge(7, &head), None);
    assert_eq!(b.len_edges(&head), 0);
}

#[test]
fn an_edge_may_be_registered_twice() {
    let mut head = store();
    let a: BaseNode = Node::new(String::from("a"), &mut head);
    let b: BaseNode = Node::new(String::from("b"), &mut head);
    let arrow: BaseEdge = EdgeArrow::new_arrow(a, b, &mut head);
    a.add_edge(arrow, &mut head);
    a.add_edge(arrow, &mut head);
    assert_eq!(a.len_edges(&head), 2);
    assert_eq!(a.iter_edges().collect(&head), vec![arrow, arrow]);
    assert_eq!(a.iter_heads().collect(&head), vec![b, b]);
}

#[test]
fn lookup_by_id_finds_registered_edges_only() {
    let mut head = store();
    let a: BaseNode = Node::new(String::from("a"), &mut head);
    let b: BaseNode = Node::new(String::from("b"), &mut head);
    let e0: BaseEdge = EdgeArrow::new_arrow(a, b, &mut head);
    let e1: BaseEdge = EdgeArrow::new_arrow(a, b, &mut head);
    let e2: BaseEdge = EdgeArrow::new_arrow(a, b, &mut head);
    a.add_edge(e2, &mut head);
    a.add_edge(e0, &mut head);
    assert_eq!(a.get_edge_by_id(0, &head), Some(e0));
    assert_eq!(a.get_edge_by_id(1, &head), None);
    assert_eq!(a.get_edge_by_id(2, &head), Some(e2));
    assert_eq!(a.get_edge_by_id(3, &head), None);
    assert_eq!(b.get_edge_by_id(0, &head), None);
    assert_eq!(a.get_edge(0, &head), Some(e2));
    assert_eq!(a.get_edge(1, &head), Some(e0));
    assert_eq!(e1.get_id(), 1);
}

#[test]
fn arrow_registered_on_its_tail() {
    let mut head = store();
    let a: BaseNode = Node::new(String::from("A"), &mut head);
    let b: BaseNode = Node::new(String::from("B"), &mut head);
    assert_eq!(a.get_id(), 0);
    assert_eq!(b.get_id(), 1);
    let arrow: BaseEdge = EdgeArrow::new_arrow(a, b, &mut head);
    assert_eq!(arrow.get_id(), 0);
    a.add_edge(arrow, &mut head);
    assert_eq!(a.iter_heads().collect(&head), vec![b]);
    assert_eq!(a.iter_tails().collect(&head), vec![]);
    assert_eq!(b.iter_heads().collect(&head), vec![]);
    assert_eq!(arrow.try_head_node(0, &head), Some(b));
}

#[test]
fn arrow_registered_on_both_ends() {
    let mut head = store();
    let a: BaseNode = Node::new(String::from("a"), &mut head);
    let b: BaseNode = Node::new(String::from("b"), &mut head);
    let arrow: BaseEdge = EdgeArrow::new_arrow(a, b, &mut head);
    a.add_edge(arrow, &mut head);
    b.add_edge(arrow, &mut head);
    assert_eq!(a.iter_heads().collect(&head), vec![b]);
    assert_eq!(a.iter_tails().collect(&head), vec![]);
    assert_eq!(b.iter_heads().collect(&head), vec![]);
    assert_eq!(b.iter_tails().collect(&head), vec![a]);
}

#[test]
fn neighbours_come_in_registration_order_and_skip_silent_edges() {
    let mut head = store();
    let a: BaseNode = Node::new(String::from("a"), &mut head);
    let b: BaseNode = Node::new(String::from("b"), &mut head);
    let c: BaseNode = Node::new(String::from("c"), &mut head);
    let to_b: BaseEdge = EdgeArrow::new_arrow(a, b, &mut head);
    let from_c: BaseEdge = EdgeArrow::new_arrow(c, a, &mut head);
    let with_c: BaseEdge = EdgeLink::new_link(c, a, &mut head);
    let on_a: BaseEdge = EdgeLoop::new_loop(a, &mut head);
    let elsewhere: BaseEdge = EdgeArrow::new_arrow(b, c, &mut head);
    for edge in [to_b, from_c, with_c, on_a, elsewhere] {
        a.add_edge(edge, &mut head);
    }
    assert_eq!(a.iter_heads().collect(&head), vec![b, c, a]);
    assert_eq!(a.iter_tails().collect(&head), vec![c, c, a]);
    assert_eq!(a.len_edges(&head), 5);
}

#[test]
fn walk_steps_one_edge_at_a_time() {
    let mut head = store();
    let a: BaseNode = Node::new(String::from("a"), &mut head);
    let b: BaseNode = Node::new(String::from("b"), &mut head);
    let e0: BaseEdge = EdgeArrow::new_arrow(a, b, &mut head);
    let e1: BaseEdge = EdgeLink::new_link(a, b, &mut head);
    a.add_edge(e0, &mut head);
    a.add_edge(e1, &mut head);
    let mut walk = IterEdges::new(a);
    assert_eq!(walk.size_hint(&head), (0, Some(2)));
    assert_eq!(walk.len(&head), 2);
    assert_eq!(walk.next(&head), Some(e0));
    assert_eq!(walk.next(&head), Some(e1));
    assert_eq!(walk.next(&head), None);
    assert_eq!(walk.next(&head), None);
    assert_eq!(walk.size_hint(&head), (0, Some(2)));
}

#[test]
fn walk_meets_edges_registered_on_the_way() {
    let mut head = store();
    let a: BaseNode = Node::new(String::from("a"), &mut head);
    let b: BaseNode = Node::new(String::from("b"), &mut head);
    let e0: BaseEdge = EdgeArrow::new_arrow(a, b, &mut head);
    let e1: BaseEdge = EdgeLink::new_link(a, b, &mut head);
    a.add_edge(e0, &mut head);
    let mut walk = a.iter_edges();
    assert_eq!(walk.next(&head), Some(e0));
    a.add_edge(e1, &mut head);
    assert_eq!(walk.next(&head), Some(e1));
    assert_eq!(walk.next(&head), None);
}

#[test]
fn walk_that_is_over_stays_over() {
    let mut head = store();
    let a: BaseNode = Node::new(String::from("a"), &mut head);
    let b: BaseNode = Node::new(String::from("b"), &mut head);
    let e0: BaseEdge = EdgeArrow::new_arrow(a, b, &mut head);
    let e1: BaseEdge = EdgeLink::new_link(a, b, &mut head);
    a.add_edge(e0, &mut head);
    let mut edges = a.iter_edges();
    let mut heads = a.iter_heads();
    assert_eq!(edges.next(&head), Some(e0));
    assert_eq!(edges.next(&head), None);
    assert_eq!(heads.next(&head), Some(b));
    assert_eq!(heads.next(&head), None);
    a.add_edge(e1, &mut head);
    a.add_edge(e0, &mut head);
    assert_eq!(a.len_edges(&head), 3);
    for _ in 0..5 {
        assert_eq!(edges.next(&head), None);
        assert_eq!(heads.next(&head), None);
    }
    assert_eq!(edges.collect(&head), vec![]);
    assert_eq!(heads.collect(&head), vec![]);
    assert_eq!(a.iter_edges().collect(&head), vec![e0, e1, e0]);
}

#[test]
fn walk_over_an_empty_node_is_over_at_once() {
    let mut head = store();
    let a: BaseNode = Node::new(String::from("a"), &mut head);
    let b: BaseNode = Node::new(String::from("b"), &mut head);
    let mut walk = a.iter_edges();
    assert_eq!(walk.next(&head), None);
    let e: BaseEdge = EdgeArrow::new_arrow(a, b, &mut head);
    a.add_edge(e, &mut head);
    assert_eq!(walk.next(&head), None);
}

#[test]
fn collect_takes_up_where_the_walk_stands() {
    let mut head = store();
    let a: BaseNode = Node::new(String::from("a"), &mut head);
    let b: BaseNode = Node::new(String::from("b"), &mut head);
    let c: BaseNode = Node::new(String::from("c"), &mut head);
    let e0: BaseEdge = EdgeArrow::new_arrow(a, b, &mut head);
    let e1: BaseEdge = EdgeArrow::new_arrow(a, c, &mut head);
    let e2: BaseEdge = EdgeLink::new_link(a, b, &mut head);
    for edge in [e0, e1, e2] {
        a.add_edge(edge, &mut head);
    }
    let mut edges = a.iter_edges();
    assert_eq!(edges.next(&head), Some(e0));
    assert_eq!(edges.collect(&head), vec![e1, e2]);
    assert_eq!(edges.next(&head), None);
    let mut heads = IterNodes::new(a, true);
    assert_eq!(heads.next(&head), Some(b));
    assert_eq!(heads.collect(&head), vec![c, b]);
    assert_eq!(heads.next(&head), None);
}

#[test]
fn walk_over_a_node_that_is_gone_yields_nothing() {
    let mut head = store();
    let a: BaseNode = Node::new(String::from("a"), &mut head);
    let e: BaseEdge = EdgeLoop::new_loop(a, &mut head);
    a.add_edge(e, &mut head);
    e.release(&mut head);
    assert_eq!(a.len_edges(&head), 1);
    a.release(&mut head);
    assert!(!head.has_node(a));
    assert_eq!(a.len_edges(&head), 0);
    assert_eq!(a.get_edge(0, &head), None);
    assert_eq!(a.iter_edges().collect(&head), vec![]);
    assert_eq!(a.iter_heads().collect(&head), vec![]);
}
