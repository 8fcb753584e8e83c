//! The store: the context that issues identifiers, keeps the records
//! of all living nodes and edges, and holds the two rosters.

use crate::graph::{
    shape_of, BaseEdge, BaseNode, EdgeEnd, EdgeType, EdgeView, GraphView, NodeView,
};
use crate::traits::{Head, HeadEdgeCache, HeadNodeCache, HeadUniqueIDAction};
use vstd::prelude::*;

verus! {

/// The record of a living node.
pub(crate) struct NodeSlot<V> {
    pub(crate) value: V,
    pub(crate) edges: Vec<BaseEdge>,
    pub(crate) holds: usize,
}

/// The record of a living edge.
pub(crate) struct EdgeSlot<W> {
    pub(crate) edge_type: EdgeType,
    pub(crate) alpha: EdgeEnd,
    pub(crate) omega: EdgeEnd,
    pub(crate) weight: W,
    pub(crate) holds: usize,
}

/// What contracts see of a node slot.
pub(crate) open spec fn node_view<V>(slot: Option<NodeSlot<V>>) -> Option<NodeView<V>> {
    match slot {
        Some(s) => Some(NodeView { value: s.value, edges: s.edges@, holds: s.holds as nat }),
        None => None,
    }
}

/// What contracts see of an edge slot.
pub(crate) open spec fn edge_view<W>(slot: Option<EdgeSlot<W>>) -> Option<EdgeView<W>> {
    match slot {
        Some(s) => Some(
            EdgeView {
                edge_type: s.edge_type,
                alpha: s.alpha,
                omega: s.omega,
                weight: s.weight,
                holds: s.holds as nat,
            },
        ),
        None => None,
    }
}

/// The context of one graph and the store of its entities.
///
/// Slot `i` holds the node (or edge) with identifier `i`, so the number
/// of slots is the number of identifiers issued.
pub struct BaseHead<V, W> {
    pub(crate) nodes: Vec<Option<NodeSlot<V>>>,
    pub(crate) edges: Vec<Option<EdgeSlot<W>>>,
    pub(crate) node_cache: Vec<BaseNode>,
    pub(crate) edge_cache: Vec<BaseEdge>,
}

impl<V, W> View for BaseHead<V, W> {
    type V = GraphView<V, W>;

    open(crate) spec fn view(&self) -> GraphView<V, W> {
        GraphView {
            nodes: self.nodes@.map_values(|s: Option<NodeSlot<V>>| node_view(s)),
            edges: self.edges@.map_values(|s: Option<EdgeSlot<W>>| edge_view(s)),
            node_cache: self.node_cache@,
            edge_cache: self.edge_cache@,
        }
    }
}

impl<V, W> Head<V, W> for BaseHead<V, W> {
    open spec fn graph(&self) -> GraphView<V, W> {
        self@
    }

    fn new() -> (head: Self) {
        let head = BaseHead {
            nodes: Vec::new(),
            edges: Vec::new(),
            node_cache: Vec::new(),
            edge_cache: Vec::new(),
        };
        proof {
            let g = GraphView::<V, W>::empty();
            assert(head@.nodes =~= g.nodes);
            assert(head@.edges =~= g.edges);
        }
        head
    }

    fn new_node_id(&mut self) -> (id: usize) {
        self.unique_node_id(HeadUniqueIDAction::Increment)
    }

    fn last_node_id(&self) -> (id: usize) {
        let issued: usize = self.nodes.len();
        if issued == 0 {
            0
        } else {
            issued - 1
        }
    }

    fn new_edge_id(&mut self) -> (id: usize) {
        self.unique_edge_id(HeadUniqueIDAction::Increment)
    }

    fn last_edge_id(&self) -> (id: usize) {
        let issued: usize = self.edges.len();
        if issued == 0 {
            0
        } else {
            issued - 1
        }
    }

    fn unique_node_id(&mut self, action: HeadUniqueIDAction) -> (id: usize) {
        match action {
            HeadUniqueIDAction::Load => self.last_node_id(),
            HeadUniqueIDAction::Increment => {
                let id: usize = self.nodes.len();
                self.nodes.push(None);
                let issued: usize = self.nodes.len();
                proof {
                    assert(id < issued);
                    assert(self@.nodes =~= old(self)@.nodes.push(None));
                    old(self)@.lemma_reserve_node_wf();
                }
                id
            },
        }
    }

    fn unique_edge_id(&mut self, action: HeadUniqueIDAction) -> (id: usize) {
        match action {
            HeadUniqueIDAction::Load => self.last_edge_id(),
            HeadUniqueIDAction::Increment => {
                let id: usize = self.edges.len();
                self.edges.push(None);
                let issued: usize = self.edges.len();
                proof {
                    assert(id < issued);
                    assert(self@.edges =~= old(self)@.edges.push(None));
                    old(self)@.lemma_reserve_edge_wf();
                }
                id
            },
        }
    }
}

impl<V, W> HeadNodeCache<V, W> for BaseHead<V, W> {
    fn cache_node(&mut self, node: BaseNode) {
        self.node_cache.push(node);
        proof {
            old(self)@.lemma_cache_node_wf(node);
        }
    }

    fn get_node_cache(&self) -> (roster: &Vec<BaseNode>) {
        &self.node_cache
    }
}

impl<V, W> HeadEdgeCache<V, W> for BaseHead<V, W> {
    fn cache_edge(&mut self, edge: BaseEdge) {
        self.edge_cache.push(edge);
        proof {
            old(self)@.lemma_cache_edge_wf(edge);
        }
    }

    fn get_edge_cache(&self) -> (roster: &Vec<BaseEdge>) {
        &self.edge_cache
    }
}

impl<V, W> BaseHead<V, W> {
    /// Whether the node is alive.
    pub fn has_node(&self, node: BaseNode) -> (alive: bool)
        ensures
            alive == self@.has_node(node),
    {
        node.id < self.nodes.len() && self.nodes[node.id].is_some()
    }

    /// Whether the edge is alive.
    pub fn has_edge(&self, edge: BaseEdge) -> (alive: bool)
        ensures
            alive == self@.has_edge(edge),
    {
        edge.id < self.edges.len() && self.edges[edge.id].is_some()
    }

    /// `after` is this store with another weight in the living edge
    /// `e` and nothing else changed.
    pub(crate) open spec fn differs_in_weight(self, after: Self, e: BaseEdge) -> bool {
        &&& self@.has_edge(e)
        &&& after.nodes == self.nodes
        &&& after.node_cache == self.node_cache
        &&& after.edge_cache == self.edge_cache
        &&& after.edges@.len() == self.edges@.len()
        &&& forall|j: int|
            0 <= j < self.edges@.len() && j != e.id ==> after.edges@[j] == self.edges@[j]
        &&& after.edges@[e.id as int] is Some
        &&& after.edges@[e.id as int]->0.edge_type == self.edges@[e.id as int]->0.edge_type
        &&& after.edges@[e.id as int]->0.alpha == self.edges@[e.id as int]->0.alpha
        &&& after.edges@[e.id as int]->0.omega == self.edges@[e.id as int]->0.omega
        &&& after.edges@[e.id as int]->0.holds == self.edges@[e.id as int]->0.holds
    }

    /// A store that differs in one weight is that store with the weight
    /// set, and as consistent.
    pub(crate) proof fn lemma_weight_changed(self, after: Self, e: BaseEdge)
        requires
            self@.wf(),
            self.differs_in_weight(after, e),
        ensures
            after@ == self@.set_weight(e, after.edges@[e.id as int]->0.weight),
            after@.wf(),
    {
        let w = after.edges@[e.id as int]->0.weight;
        assert(after@.edges =~= self@.set_weight(e, w).edges);
        self@.lemma_set_weight_wf(e, w);
    }

    /// `after` is this store with another value in the living node
    /// `n` and nothing else changed.
    pub(crate) open spec fn differs_in_value(self, after: Self, n: BaseNode) -> bool {
        &&& self@.has_node(n)
        &&& after.edges == self.edges
        &&& after.node_cache == self.node_cache
        &&& after.edge_cache == self.edge_cache
        &&& after.nodes@.len() == self.nodes@.len()
        &&& forall|j: int|
            0 <= j < self.nodes@.len() && j != n.id ==> after.nodes@[j] == self.nodes@[j]
        &&& after.nodes@[n.id as int] is Some
        &&& after.nodes@[n.id as int]->0.edges == self.nodes@[n.id as int]->0.edges
        &&& after.nodes@[n.id as int]->0.holds == self.nodes@[n.id as int]->0.holds
    }

    /// A store that differs in one value is that store with the value
    /// set, and as consistent.
    pub(crate) proof fn lemma_value_changed(self, after: Self, n: BaseNode)
        requires
            self@.wf(),
            self.differs_in_value(after, n),
        ensures
            after@ == self@.set_value(n, after.nodes@[n.id as int]->0.value),
            after@.wf(),
    {
        let v = after.nodes@[n.id as int]->0.value;
        assert(after@.nodes =~= self@.set_value(n, v).nodes);
        self@.lemma_set_value_wf(n, v);
    }

    /// Builds a node on the next node identifier. Its maker has one
    /// hold on it.
    pub(crate) fn push_node(&mut self, value: V) -> (node: BaseNode)
        requires
            old(self)@.wf(),
        ensures
            node.id == old(self)@.nodes.len(),
            final(self)@ == old(self)@.create_node(value),
            final(self)@.wf(),
    {
        let id: usize = self.nodes.len();
        self.nodes.push(Some(NodeSlot { value, edges: Vec::new(), holds: 1 }));
        let issued: usize = self.nodes.len();
        proof {
            assert(id < issued);
            assert(self@.nodes =~= old(self)@.create_node(value).nodes);
            old(self)@.lemma_create_node_wf(value);
        }
        BaseNode { id }
    }

    /// Builds an edge on the next edge identifier. Its maker has one
    /// hold on it.
    pub(crate) fn push_edge(
        &mut self,
        edge_type: EdgeType,
        alpha: EdgeEnd,
        omega: EdgeEnd,
        weight: W,
    ) -> (edge: BaseEdge)
        requires
            old(self)@.wf(),
            shape_of(alpha, omega) == Some(edge_type),
            forall|n: BaseNode|
                alpha == EdgeEnd::Owning(n) || omega == EdgeEnd::Owning(n) ==> old(self)@.has_node(
                    n,
                ),
        ensures
            edge.id == old(self)@.edges.len(),
            final(self)@.has_edge(edge),
            final(self)@ == old(self)@.create_edge(edge_type, alpha, omega, weight),
            final(self)@.wf(),
    {
        let id: usize = self.edges.len();
        self.edges.push(Some(EdgeSlot { edge_type, alpha, omega, weight, holds: 1 }));
        let issued: usize = self.edges.len();
        proof {
            assert(id < issued);
            assert(self@.edges =~= old(self)@.create_edge(edge_type, alpha, omega, weight).edges);
            old(self)@.lemma_create_edge_wf(edge_type, alpha, omega, weight);
        }
        BaseEdge { id }
    }
}

} // verus!
