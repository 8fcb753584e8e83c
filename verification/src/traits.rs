//! The interfaces of the store, of node handles and of edge handles.

use crate::basehead::BaseHead;
use crate::graph::{BaseEdge, BaseNode, EdgeEnd, EdgePos, EdgeType, GraphView};
use crate::iterators::{IterEdges, IterNodes, IterState};
use vstd::prelude::*;

verus! {

/// What to do with an identifier counter.
#[derive(Debug, Clone, Copy, PartialEq, Eq, Structural)]
pub enum HeadUniqueIDAction {
    /// Read the most recently issued identifier.
    Load,
    /// Issue the next identifier.
    Increment,
}

/// The context of one graph: it issues the identifiers of its nodes
/// and edges. The two counters are independent, and neither ever hands
/// out the same identifier twice.
pub trait Head<V, W>: Sized {
    /// The store as contracts see it.
    spec fn graph(&self) -> GraphView<V, W>;

    /// A context that has issued nothing yet.
    fn new() -> (head: Self)
        ensures
            head.graph() == GraphView::<V, W>::empty(),
            head.graph().wf(),
    ;

    /// Issues the next node identifier.
    fn new_node_id(&mut self) -> (id: usize)
        requires
            old(self).graph().wf(),
        ensures
            id == old(self).graph().nodes.len(),
            final(self).graph() == old(self).graph().reserve_node(),
            final(self).graph().wf(),
    ;

    /// The most recently issued node identifier (0 before the first).
    /// Nothing is issued.
    fn last_node_id(&self) -> (id: usize)
        ensures
            id == self.graph().last_node_id(),
    ;

    /// Issues the next edge identifier.
    fn new_edge_id(&mut self) -> (id: usize)
        requires
            old(self).graph().wf(),
        ensures
            id == old(self).graph().edges.len(),
            final(self).graph() == old(self).graph().reserve_edge(),
            final(self).graph().wf(),
    ;

    /// The most recently issued edge identifier (0 before the first).
    /// Nothing is issued.
    fn last_edge_id(&self) -> (id: usize)
        ensures
            id == self.graph().last_edge_id(),
    ;

    /// Reads or advances the counter of node identifiers.
    fn unique_node_id(&mut self, action: HeadUniqueIDAction) -> (id: usize)
        requires
            old(self).graph().wf(),
        ensures
            action == HeadUniqueIDAction::Load ==> id == old(self).graph().last_node_id()
                && final(self).graph() == old(self).graph(),
            action == HeadUniqueIDAction::Increment ==> id == old(self).graph().nodes.len()
                && final(self).graph() == old(self).graph().reserve_node(),
            final(self).graph().wf(),
    ;

    /// Reads or advances the counter of edge identifiers.
    fn unique_edge_id(&mut self, action: HeadUniqueIDAction) -> (id: usize)
        requires
            old(self).graph().wf(),
        ensures
            action == HeadUniqueIDAction::Load ==> id == old(self).graph().last_edge_id()
                && final(self).graph() == old(self).graph(),
            action == HeadUniqueIDAction::Increment ==> id == old(self).graph().edges.len()
                && final(self).graph() == old(self).graph().reserve_edge(),
            final(self).graph().wf(),
    ;
}

/// A context that can retain nodes. A retained node stays alive for as
/// long as the context does.
pub trait HeadNodeCache<V, W>: Head<V, W> {
    /// Enters `node` in the roster. Entering it again adds a second
    /// entry and changes nothing else.
    fn cache_node(&mut self, node: BaseNode)
        requires
            old(self).graph().wf(),
            old(self).graph().has_node(node),
        ensures
            final(self).graph() == old(self).graph().cache_node(node),
            final(self).graph().wf(),
    ;

    /// The roster, in the order of entry.
    fn get_node_cache(&self) -> (roster: &Vec<BaseNode>)
        ensures
            roster@ == self.graph().node_cache,
    ;
}

/// A context that can retain edges as well. A retained edge stays
/// alive for as long as the context does.
pub trait HeadEdgeCache<V, W>: HeadNodeCache<V, W> {
    /// Enters `edge` in the roster. Entering it again adds a second
    /// entry and changes nothing else.
    fn cache_edge(&mut self, edge: BaseEdge)
        requires
            old(self).graph().wf(),
            old(self).graph().has_edge(edge),
        ensures
            final(self).graph() == old(self).graph().cache_edge(edge),
            final(self).graph().wf(),
    ;

    /// The roster, in the order of entry.
    fn get_edge_cache(&self) -> (roster: &Vec<BaseEdge>)
        ensures
            roster@ == self.graph().edge_cache,
    ;
}

/// An edge of the store, whatever its shape.
pub trait Edge: Sized {
    /// The edge that this value stands for.
    spec fn edge(&self) -> BaseEdge;

    /// The stable identifier of the edge.
    fn get_id(&self) -> (id: usize)
        ensures
            id == self.edge().id,
    ;

    /// A handle on the edge itself, while it is alive.
    fn get_self<V, W>(&self, head: &BaseHead<V, W>) -> (me: Option<Self>)
        ensures
            me is Some <==> head@.has_edge(self.edge()),
            me matches Some(s) ==> s.edge() == self.edge(),
    ;

    /// The shape of the edge.
    fn get_edge_type<V, W>(&self, head: &BaseHead<V, W>) -> (shape: EdgeType)
        requires
            head@.has_edge(self.edge()),
        ensures
            shape == head@.edge(self.edge()).edge_type,
    ;

    /// The node that the edge points to when seen from the node
    /// `node_id`: see [`GraphView::head_of`]. Absent if `node_id` is
    /// not in that position or a node in question is gone.
    fn try_head_node<V, W>(&self, node_id: usize, head: &BaseHead<V, W>) -> (node: Option<
        BaseNode,
    >)
        ensures
            node == head@.head_of(self.edge(), node_id),
    ;

    /// The node that the edge comes from when seen from the node
    /// `node_id`: see [`GraphView::tail_of`]. Absent if `node_id` is
    /// not in that position or a node in question is gone.
    fn try_tail_node<V, W>(&self, node_id: usize, head: &BaseHead<V, W>) -> (node: Option<
        BaseNode,
    >)
        ensures
            node == head@.tail_of(self.edge(), node_id),
    ;

    /// The position of the node `node_id` in the edge.
    fn edge_end<V, W>(&self, node_id: usize, head: &BaseHead<V, W>) -> (pos: EdgePos)
        ensures
            pos == head@.pos_of(self.edge(), node_id),
    ;
}

/// A directed edge. It keeps its head alive and observes its tail.
pub trait EdgeArrow: Edge {
    /// Builds an arrow from `tail` to `head_node` on the next edge
    /// identifier. The maker has one hold on it; it is registered on
    /// no node.
    fn new_arrow<V, W: Default>(
        tail: BaseNode,
        head_node: BaseNode,
        head: &mut BaseHead<V, W>,
    ) -> (arrow: Self)
        requires
            old(head)@.wf(),
            old(head)@.has_node(tail),
            old(head)@.has_node(head_node),
        ensures
            arrow.edge().id == old(head)@.edges.len(),
            final(head)@.has_edge(arrow.edge()),
            W::default.ensures((), final(head)@.edge(arrow.edge()).weight),
            final(head)@ == old(head)@.create_edge(
                EdgeType::Arrow,
                EdgeEnd::NonOwning(tail),
                EdgeEnd::Owning(head_node),
                final(head)@.edge(arrow.edge()).weight,
            ),
            final(head)@.wf(),
    ;

    /// Builds an arrow as [`Self::new_arrow`] does if both nodes are
    /// alive in the store; else builds nothing and changes nothing.
    fn try_arrow<V, W: Default>(
        tail: BaseNode,
        head_node: BaseNode,
        head: &mut BaseHead<V, W>,
    ) -> (arrow: Option<Self>)
        requires
            old(head)@.wf(),
        ensures
            arrow is Some <==> old(head)@.has_node(tail) && old(head)@.has_node(head_node),
            arrow is None ==> final(head)@ == old(head)@,
            arrow matches Some(a) ==> {
                &&& a.edge().id == old(head)@.edges.len()
                &&& final(head)@.has_edge(a.edge())
                &&& W::default.ensures((), final(head)@.edge(a.edge()).weight)
                &&& final(head)@ == old(head)@.create_edge(
                    EdgeType::Arrow,
                    EdgeEnd::NonOwning(tail),
                    EdgeEnd::Owning(head_node),
                    final(head)@.edge(a.edge()).weight,
                )
            },
            final(head)@.wf(),
    {
        if head.has_node(tail) && head.has_node(head_node) {
            Some(Self::new_arrow(tail, head_node, head))
        } else {
            None
        }
    }

    /// The head of an arrow; absent on other shapes.
    fn head_node<V, W>(&self, head: &BaseHead<V, W>) -> (node: Option<BaseNode>)
        ensures
            node == head@.end_of_shape(self.edge(), EdgeType::Arrow, false),
    ;

    /// The tail of an arrow, while it is alive; absent on other shapes.
    fn tail_node<V, W>(&self, head: &BaseHead<V, W>) -> (node: Option<BaseNode>)
        ensures
            node == head@.end_of_shape(self.edge(), EdgeType::Arrow, true),
    ;
}

/// An undirected edge. It observes both ends and keeps neither alive.
pub trait EdgeLink: Edge {
    /// Builds a link between `left` and `right` on the next edge
    /// identifier. The maker has one hold on it; it is registered on
    /// no node.
    fn new_link<V, W: Default>(left: BaseNode, right: BaseNode, head: &mut BaseHead<V, W>) -> (link:
        Self)
        requires
            old(head)@.wf(),
            old(head)@.has_node(left),
            old(head)@.has_node(right),
        ensures
            link.edge().id == old(head)@.edges.len(),
            final(head)@.has_edge(link.edge()),
            W::default.ensures((), final(head)@.edge(link.edge()).weight),
            final(head)@ == old(head)@.create_edge(
                EdgeType::Link,
                EdgeEnd::NonOwning(left),
                EdgeEnd::NonOwning(right),
                final(head)@.edge(link.edge()).weight,
            ),
            final(head)@.wf(),
    ;

    /// Builds a link as [`Self::new_link`] does if both nodes are
    /// alive in the store; else builds nothing and changes nothing.
    fn try_link<V, W: Default>(left: BaseNode, right: BaseNode, head: &mut BaseHead<V, W>) -> (link:
        Option<Self>)
        requires
            old(head)@.wf(),
        ensures
            link is Some <==> old(head)@.has_node(left) && old(head)@.has_node(right),
            link is None ==> final(head)@ == old(head)@,
            link matches Some(l) ==> {
                &&& l.edge().id == old(head)@.edges.len()
                &&& final(head)@.has_edge(l.edge())
                &&& W::default.ensures((), final(head)@.edge(l.edge()).weight)
                &&& final(head)@ == old(head)@.create_edge(
                    EdgeType::Link,
                    EdgeEnd::NonOwning(left),
                    EdgeEnd::NonOwning(right),
                    final(head)@.edge(l.edge()).weight,
                )
            },
            final(head)@.wf(),
    {
        if head.has_node(left) && head.has_node(right) {
            Some(Self::new_link(left, right, head))
        } else {
            None
        }
    }

    /// The left end of a link, while it is alive; absent on other
    /// shapes.
    fn left_node<V, W>(&self, head: &BaseHead<V, W>) -> (node: Option<BaseNode>)
        ensures
            node == head@.end_of_shape(self.edge(), EdgeType::Link, true),
    ;

    /// The right end of a link, while it is alive; absent on other
    /// shapes.
    fn right_node<V, W>(&self, head: &BaseHead<V, W>) -> (node: Option<BaseNode>)
        ensures
            node == head@.end_of_shape(self.edge(), EdgeType::Link, false),
    ;
}

/// An edge from a node to itself. It observes the node.
pub trait EdgeLoop: Edge {
    /// Builds a loop on `node` on the next edge identifier. The maker
    /// has one hold on it; it is registered on no node.
    fn new_loop<V, W: Default>(node: BaseNode, head: &mut BaseHead<V, W>) -> (edge: Self)
        requires
            old(head)@.wf(),
            old(head)@.has_node(node),
        ensures
            edge.edge().id == old(head)@.edges.len(),
            final(head)@.has_edge(edge.edge()),
            W::default.ensures((), final(head)@.edge(edge.edge()).weight),
            final(head)@ == old(head)@.create_edge(
                EdgeType::Loop,
                EdgeEnd::Absent,
                EdgeEnd::NonOwning(node),
                final(head)@.edge(edge.edge()).weight,
            ),
            final(head)@.wf(),
    ;

    /// The node of a loop, while it is alive; absent on other shapes.
    fn loop_node<V, W>(&self, head: &BaseHead<V, W>) -> (node: Option<BaseNode>)
        ensures
            node == head@.end_of_shape(self.edge(), EdgeType::Loop, false),
    ;
}

/// An edge that carries a weight.
pub trait EdgeWeighted: Edge {
    /// The weight of the edge.
    fn get_weight<'a, V, W>(&self, head: &'a BaseHead<V, W>) -> (weight: &'a W)
        requires
            head@.has_edge(self.edge()),
        ensures
            *weight == head@.edge(self.edge()).weight,
    ;

    /// Replaces the weight of the edge and shows the new one.
    fn set_weight<'a, V, W>(&self, value: W, head: &'a mut BaseHead<V, W>) -> (weight: &'a W)
        requires
            old(head)@.wf(),
            old(head)@.has_edge(self.edge()),
        ensures
            *weight == value,
            final(head)@ == old(head)@.set_weight(self.edge(), value),
            final(head)@.wf(),
    ;

    /// The weight of the edge, to be changed in place.
    fn get_weight_mut<'a, V, W>(&self, head: &'a mut BaseHead<V, W>) -> (weight: &'a mut W)
        requires
            old(head)@.wf(),
            old(head)@.has_edge(self.edge()),
        ensures
            *weight == old(head)@.edge(self.edge()).weight,
            final(head)@ == old(head)@.set_weight(self.edge(), *final(weight)),
            final(head)@.wf(),
    ;
}

/// A node of the store.
pub trait Node: Sized {
    /// The node that this value stands for.
    spec fn node(&self) -> BaseNode;

    /// Starts a graph: a new store and, in it, a first node with
    /// `value`, built as [`Self::new`] builds it.
    fn alpha_node<V, W>(value: V) -> (made: (BaseHead<V, W>, Self))
        ensures
            made.1.node().id == 0,
            made.0@ == GraphView::<V, W>::empty().create_node(value),
            made.0@.wf(),
    ;

    /// Builds a node with `value` on the next node identifier. The
    /// maker has one hold on it; no edge is registered on it.
    fn new<V, W>(value: V, head: &mut BaseHead<V, W>) -> (node: Self)
        requires
            old(head)@.wf(),
        ensures
            node.node().id == old(head)@.nodes.len(),
            final(head)@ == old(head)@.create_node(value),
            final(head)@.wf(),
    ;

    /// The value of the node.
    fn get_value<'a, V, W>(&self, head: &'a BaseHead<V, W>) -> (value: &'a V)
        requires
            head@.has_node(self.node()),
        ensures
            *value == head@.node(self.node()).value,
    ;

    /// The value of the node, to be changed in place.
    fn get_value_mut<'a, V, W>(&self, head: &'a mut BaseHead<V, W>) -> (value: &'a mut V)
        requires
            old(head)@.wf(),
            old(head)@.has_node(self.node()),
        ensures
            *value == old(head)@.node(self.node()).value,
            final(head)@ == old(head)@.set_value(self.node(), *final(value)),
            final(head)@.wf(),
    ;

    /// The stable identifier of the node.
    fn get_id(&self) -> (id: usize)
        ensures
            id == self.node().id,
    ;

    /// A handle on the node itself, while it is alive.
    fn get_self<V, W>(&self, head: &BaseHead<V, W>) -> (me: Option<Self>)
        ensures
            me is Some <==> head@.has_node(self.node()),
            me matches Some(s) ==> s.node() == self.node(),
    ;

    /// Registers `edge` on the node, after the edges already there,
    /// and hands it back. The node keeps the edge alive from now on.
    /// An edge may be registered more than once.
    fn add_edge<V, W>(&self, edge: BaseEdge, head: &mut BaseHead<V, W>) -> (same: BaseEdge)
        requires
            old(head)@.wf(),
            old(head)@.has_node(self.node()),
            old(head)@.has_edge(edge),
        ensures
            same == edge,
            final(head)@ == old(head)@.add_edge(self.node(), edge),
            final(head)@.wf(),
    ;

    /// The number of edges registered on the node.
    fn len_edges<V, W>(&self, head: &BaseHead<V, W>) -> (len: usize)
        ensures
            len == head@.edges_of(self.node()).len(),
    ;

    /// The edge registered at position `index`, if there is one.
    fn get_edge<V, W>(&self, index: usize, head: &BaseHead<V, W>) -> (edge: Option<BaseEdge>)
        ensures
            edge == head@.edge_at(self.node(), index as int),
    ;

    /// The edge with identifier `id`, if it is registered on the node.
    fn get_edge_by_id<V, W>(&self, id: usize, head: &BaseHead<V, W>) -> (edge: Option<BaseEdge>)
        ensures
            edge == if head@.edges_of(self.node()).contains(BaseEdge { id }) {
                Some(BaseEdge { id })
            } else {
                None
            },
    ;

    /// A walk over the edges registered on the node, from the first.
    fn iter_edges(&self) -> (walk: IterEdges)
        ensures
            walk@ == IterState::fresh(self.node()),
    ;

    /// A walk over the nodes that the registered edges point to from
    /// this node.
    fn iter_heads(&self) -> (walk: IterNodes)
        ensures
            walk@ == IterState::fresh(self.node()),
            walk.towards_head(),
    ;

    /// A walk over the nodes that the registered edges come from
    /// towards this node.
    fn iter_tails(&self) -> (walk: IterNodes)
        ensures
            walk@ == IterState::fresh(self.node()),
            !walk.towards_head(),
    ;
}

/// A node that can enter itself in the roster of its store.
pub trait NodeCache: Node {
    /// Enters the node in the roster of nodes.
    fn cache_node<V, W>(&self, head: &mut BaseHead<V, W>)
        requires
            old(head)@.wf(),
            old(head)@.has_node(self.node()),
        ensures
            final(head)@ == old(head)@.cache_node(self.node()),
            final(head)@.wf(),
    ;

    /// The roster of nodes, in the order of entry.
    fn get_node_cache<'a, V, W>(&self, head: &'a BaseHead<V, W>) -> (roster: &'a Vec<BaseNode>)
        ensures
            roster@ == head@.node_cache,
    ;
}

/// An edge that can enter itself in the roster of its store.
pub trait EdgeCache: Edge {
    /// Enters the edge in the roster of edges.
    fn cache_edge<V, W>(&self, head: &mut BaseHead<V, W>)
        requires
            old(head)@.wf(),
            old(head)@.has_edge(self.edge()),
        ensures
            final(head)@ == old(head)@.cache_edge(self.edge()),
            final(head)@.wf(),
    ;

    /// The roster of edges, in the order of entry.
    fn get_edge_cache<'a, V, W>(&self, head: &'a BaseHead<V, W>) -> (roster: &'a Vec<BaseEdge>)
        ensures
            roster@ == head@.edge_cache,
    ;
}

/// A node that can show the roster of edges of its store.
pub trait NodeEdgeCache: NodeCache {
    /// The roster of edges, in the order of entry.
    fn get_edge_cache<'a, V, W>(&self, head: &'a BaseHead<V, W>) -> (roster: &'a Vec<BaseEdge>)
        ensures
            roster@ == head@.edge_cache,
    ;
}

} // verus!
