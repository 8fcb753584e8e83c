use graph_core::basehead::BaseHead;
use graph_core::graph::{BaseEdge, BaseNode};
use graph_core::traits::{
    Edge, EdgeArrow, EdgeCache, EdgeLink, EdgeLoop, Head, HeadEdgeCache, HeadNodeCache, Node,
    NodeCache, NodeEdgeCache,
};

fn store() -> BaseHead<u64, u32> {
    BaseHead::new()
}

#[test]
fn node_goes_with_its_last_hold() {
    let mut head = store();
    let a: BaseNode = Node::new(1, &mut head);
    assert!(head.has_node(a));
    assert!(head.node_is_kept(a));
    a.release(&mut head);
    assert!(!head.has_node(a));
}

#[test]
fn every_hold_counts() {
    let mut head = store();
    let a: BaseNode = Node::new(1, &mut head);
    assert!(a.retain(&mut head));
    assert!(a.retain(&mut head));
    a.release(&mut head);
    assert!(head.has_node(a));
    a.release(&mut head);
    assert!(head.has_node(a));
    a.release(&mut head);
    assert!(!head.has_node(a));
    assert!(!a.retain(&mut head));
    assert!(!head.has_node(a));
}

#[test]
fn edge_holds_count_too() {
    let mut head = store();
    let a: BaseNode = Node::new(1, &mut head);
    let e: BaseEdge = EdgeLoop::new_loop(a, &mut head);
    assert!(e.retain(&mut head));
    e.release(&mut head);
    assert!(head.has_edge(e));
    e.release(&mut head);
    assert!(!head.has_edge(e));
    assert!(!e.retain(&mut head));
    assert!(head.has_node(a));
}

#[test]
fn release_without_a_hold_changes_nothing() {
    let mut head = store();
    let a: BaseNode = Node::new(1, &mut head);
    head.cache_node(a);
    a.release(&mut head);
    a.release(&mut head);
    a.release(&mut head);
    assert!(head.has_node(a));
    BaseNode { id: 9 }.release(&mut head);
    BaseEdge { id: 9 }.release(&mut head);
    assert!(head.has_node(a));
    assert_eq!(*a.get_value(&head), 1);
}

#[test]
fn cached_node_outlives_every_hold() {
    let mut head = store();
    let a: BaseNode = Node::new(5, &mut head);
    let b: BaseNode = Node::new(6, &mut head);
    let link: BaseEdge = EdgeLink::new_link(a, b, &mut head);
    head.cache_node(b);
    b.release(&mut head);
    assert!(head.has_node(b));
    assert_eq!(*b.get_value(&head), 6);
    assert_eq!(head.get_node_cache(), &vec![b]);
    assert_eq!(link.try_head_node(a.get_id(), &head), Some(b));
    a.release(&mut head);
    link.release(&mut head);
    assert!(head.has_node(b));
    assert!(head.node_is_cached(b));
    assert!(!head.has_node(a));
}

#[test]
fn cached_edge_outlives_every_hold() {
    let mut head = store();
    let a: BaseNode = Node::new(5, &mut head);
    let b: BaseNode = Node::new(6, &mut head);
    let arrow: BaseEdge = EdgeArrow::new_arrow(a, b, &mut head);
    head.cache_edge(arrow);
    arrow.release(&mut head);
    b.release(&mut head);
    assert!(head.has_edge(arrow));
    assert!(head.edge_is_cached(arrow));
    assert!(head.has_node(b));
    assert!(head.node_is_owned(b));
    assert_eq!(head.get_edge_cache(), &vec![arrow]);
}

#[test]
fn arrow_keeps_its_head_alive_and_not_its_tail() {
    let mut head = store();
    let t: BaseNode = Node::new(1, &mut head);
    let h: BaseNode = Node::new(2, &mut head);
    let arrow: BaseEdge = EdgeArrow::new_arrow(t, h, &mut head);
    h.release(&mut head);
    assert!(head.has_node(h));
    assert_eq!(arrow.head_node(&head), Some(h));
    t.release(&mut head);
    assert!(!head.has_node(t));
    assert_eq!(arrow.tail_node(&head), None);
    assert_eq!(arrow.head_node(&head), Some(h));
    assert_eq!(arrow.try_head_node(t.get_id(), &head), None);
    assert_eq!(arrow.try_tail_node(h.get_id(), &head), None);
}

#[test]
fn head_goes_when_the_arrow_that_owned_it_goes() {
    let mut head = store();
    let t: BaseNode = Node::new(1, &mut head);
    let h: BaseNode = Node::new(2, &mut head);
    let arrow: BaseEdge = EdgeArrow::new_arrow(t, h, &mut head);
    let link: BaseEdge = EdgeLink::new_link(t, h, &mut head);
    let back: BaseEdge = EdgeArrow::new_arrow(h, t, &mut head);
    h.release(&mut head);
    assert!(head.has_node(h));
    assert_eq!(link.try_head_node(t.get_id(), &head), Some(h));
    assert_eq!(back.try_tail_node(t.get_id(), &head), Some(h));
    arrow.release(&mut head);
    assert!(!head.has_edge(arrow));
    assert!(!head.has_node(h));
    assert_eq!(link.try_head_node(t.get_id(), &head), None);
    assert_eq!(link.try_tail_node(t.get_id(), &head), None);
    assert_eq!(link.try_head_node(h.get_id(), &head), None);
    assert_eq!(link.right_node(&head), None);
    assert_eq!(link.left_node(&head), Some(t));
    assert_eq!(back.try_tail_node(t.get_id(), &head), None);
    assert_eq!(back.tail_node(&head), None);
    assert!(head.has_node(t));
}

#[test]
fn link_keeps_neither_end_alive() {
    let mut head = store();
    let l: BaseNode = Node::new(1, &mut head);
    let r: BaseNode = Node::new(2, &mut head);
    let link: BaseEdge = EdgeLink::new_link(l, r, &mut head);
    r.release(&mut head);
    assert!(!head.has_node(r));
    assert_eq!(link.try_head_node(l.get_id(), &head), None);
    assert_eq!(link.try_head_node(r.get_id(), &head), None);
    assert_eq!(link.left_node(&head), Some(l));
    assert_eq!(link.right_node(&head), None);
    l.release(&mut head);
    assert_eq!(link.left_node(&head), None);
    assert!(head.has_edge(link));
}

#[test]
fn loop_does_not_keep_its_node_alive() {
    let mut head = store();
    let x: BaseNode = Node::new(1, &mut head);
    let edge: BaseEdge = EdgeLoop::new_loop(x, &mut head);
    x.release(&mut head);
    assert!(!head.has_node(x));
    assert_eq!(edge.loop_node(&head), None);
    assert_eq!(edge.try_head_node(x.get_id(), &head), None);
}

#[test]
fn registered_edge_lives_as_long_as_its_node() {
    let mut head = store();
    let a: BaseNode = Node::new(1, &mut head);
    let b: BaseNode = Node::new(2, &mut head);
    let arrow: BaseEdge = EdgeArrow::new_arrow(a, b, &mut head);
    a.add_edge(arrow, &mut head);
    arrow.release(&mut head);
    b.release(&mut head);
    assert!(head.has_edge(arrow));
    assert!(head.edge_is_listed(arrow));
    assert!(head.edge_is_kept(arrow));
    assert!(head.has_node(b));
    assert_eq!(a.iter_heads().collect(&head), vec![b]);
    a.release(&mut head);
    assert!(!head.has_node(a));
    assert!(!head.has_edge(arrow));
    assert!(!head.has_node(b));
}

#[test]
fn a_chain_of_arrows_goes_with_its_first_node() {
    let mut head = store();
    let mut nodes: Vec<BaseNode> = Vec::new();
    let mut arrows: Vec<BaseEdge> = Vec::new();
    for k in 0..6 {
        nodes.push(Node::new(k, &mut head));
    }
    for k in 0..5 {
        let arrow: BaseEdge = EdgeArrow::new_arrow(nodes[k], nodes[k + 1], &mut head);
        nodes[k].add_edge(arrow, &mut head);
        arrow.release(&mut head);
        arrows.push(arrow);
    }
    for k in 1..6 {
        nodes[k].release(&mut head);
    }
    for k in 0..6 {
        assert!(head.has_node(nodes[k]));
    }
    assert!(nodes[3].retain(&mut head));
    nodes[0].release(&mut head);
    for k in 0..3 {
        assert!(!head.has_node(nodes[k]));
        assert!(!head.has_edge(arrows[k]));
    }
    for k in 3..6 {
        assert!(head.has_node(nodes[k]));
    }
    assert!(head.has_edge(arrows[3]));
    assert!(head.has_edge(arrows[4]));
    nodes[3].release(&mut head);
    for k in 0..6 {
        assert!(!head.has_node(nodes[k]));
    }
    for k in 0..5 {
        assert!(!head.has_edge(arrows[k]));
    }
}

#[test]
fn a_ring_of_owners_is_left_standing() {
    let mut head = store();
    let a: BaseNode = Node::new(1, &mut head);
    let b: BaseNode = Node::new(2, &mut head);
    let ab: BaseEdge = EdgeArrow::new_arrow(a, b, &mut head);
    let ba: BaseEdge = EdgeArrow::new_arrow(b, a, &mut head);
    a.add_edge(ab, &mut head);
    b.add_edge(ba, &mut head);
    ab.release(&mut head);
    ba.release(&mut head);
    a.release(&mut head);
    b.release(&mut head);
    assert!(head.has_node(a));
    assert!(head.has_node(b));
    assert!(head.has_edge(ab));
    assert!(head.has_edge(ba));
    assert_eq!(a.iter_heads().collect(&head), vec![b]);
    assert_eq!(b.iter_heads().collect(&head), vec![a]);
}

#[test]
fn an_arrow_registered_on_its_head_holds_itself() {
    let mut head = store();
    let t: BaseNode = Node::new(1, &mut head);
    let h: BaseNode = Node::new(2, &mut head);
    let arrow: BaseEdge = EdgeArrow::new_arrow(t, h, &mut head);
    h.add_edge(arrow, &mut head);
    arrow.release(&mut head);
    h.release(&mut head);
    t.release(&mut head);
    assert!(head.has_node(h));
    assert!(head.has_edge(arrow));
    assert!(!head.has_node(t));
    assert_eq!(h.iter_tails().collect(&head), vec![]);
}

#[test]
fn an_edge_registered_twice_goes_once() {
    let mut head = store();
    let a: BaseNode = Node::new(1, &mut head);
    let b: BaseNode = Node::new(2, &mut head);
    let arrow: BaseEdge = EdgeArrow::new_arrow(a, b, &mut head);
    a.add_edge(arrow, &mut head);
    a.add_edge(arrow, &mut head);
    arrow.release(&mut head);
    b.release(&mut head);
    a.release(&mut head);
    assert!(!head.has_node(a));
    assert!(!head.has_edge(arrow));
    assert!(!head.has_node(b));
}

#[test]
fn an_edge_shared_by_two_nodes_outlives_one_of_them() {
    let mut head = store();
    let a: BaseNode = Node::new(1, &mut head);
    let b: BaseNode = Node::new(2, &mut head);
    let link: BaseEdge = EdgeLink::new_link(a, b, &mut head);
    a.add_edge(link, &mut head);
    b.add_edge(link, &mut head);
    link.release(&mut head);
    a.release(&mut head);
    assert!(!head.has_node(a));
    assert!(head.has_edge(link));
    assert_eq!(b.iter_heads().collect(&head), vec![]);
    assert_eq!(b.iter_edges().collect(&head), vec![link]);
    b.release(&mut head);
    assert!(!head.has_edge(link));
}

#[test]
fn holders_are_told_apart() {
    let mut head = store();
    let a: BaseNode = Node::new(1, &mut head);
    let b: BaseNode = Node::new(2, &mut head);
    let arrow: BaseEdge = EdgeArrow::new_arrow(a, b, &mut head);
    assert!(!head.node_is_cached(a));
    assert!(!head.node_is_owned(a));
    assert!(head.node_is_owned(b));
    assert!(!head.edge_is_listed(arrow));
    assert!(!head.edge_is_cached(arrow));
    assert!(head.edge_is_kept(arrow));
    a.add_edge(arrow, &mut head);
    assert!(head.edge_is_listed(arrow));
    head.cache_node(a);
    assert!(head.node_is_cached(a));
    assert!(!head.node_is_cached(b));
}

#[test]
fn rosters_keep_the_order_of_entry_and_double_entries() {
    let mut head = store();
    let a: BaseNode = Node::new(1, &mut head);
    let b: BaseNode = Node::new(2, &mut head);
    let e: BaseEdge = EdgeLink::new_link(a, b, &mut head);
    let f: BaseEdge = EdgeLoop::new_loop(a, &mut head);
    assert_eq!(head.get_node_cache(), &vec![]);
    assert_eq!(head.get_edge_cache(), &vec![]);
    head.cache_node(b);
    head.cache_node(a);
    head.cache_node(b);
    head.cache_edge(f);
    head.cache_edge(e);
    assert_eq!(head.get_node_cache(), &vec![b, a, b]);
    assert_eq!(head.get_edge_cache(), &vec![f, e]);
    assert_eq!(*b.get_value(&head), 2);
    assert_eq!(a.len_edges(&head), 0);
}

#[test]
fn entities_enter_the_rosters_themselves() {
    let mut head = store();
    let a: BaseNode = Node::new(1, &mut head);
    let b: BaseNode = Node::new(2, &mut head);
    let e: BaseEdge = EdgeLink::new_link(a, b, &mut head);
    NodeCache::cache_node(&a, &mut head);
    EdgeCache::cache_edge(&e, &mut head);
    assert_eq!(NodeCache::get_node_cache(&b, &head), &vec![a]);
    assert_eq!(EdgeCache::get_edge_cache(&e, &head), &vec![e]);
    assert_eq!(NodeEdgeCache::get_edge_cache(&b, &head), &vec![e]);
    a.release(&mut head);
    e.release(&mut head);
    assert!(head.has_node(a));
    assert!(head.has_edge(e));
}

#[test]
fn a_store_that_caches_nothing_shows_empty_rosters() {
    let mut head = store();
    let a: BaseNode = Node::new(1, &mut head);
    let _e: BaseEdge = EdgeLoop::new_loop(a, &mut head);
    assert!(head.get_node_cache().is_empty());
    assert!(head.get_edge_cache().is_empty());
}
