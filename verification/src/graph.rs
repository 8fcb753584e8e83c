//! The mathematical picture of a graph store.
//!
//! Nodes and edges live in numbered slots. A slot is filled while its
//! entity is alive and empty once the entity is gone (or while an
//! identifier has been issued without an entity built on it). Every
//! contract of the crate is phrased over this picture.

use vstd::prelude::*;

verus! {

/// The three shapes an edge can take. The shape is fixed when the edge
/// is built.
#[derive(Debug, Clone, Copy, PartialEq, Eq, Structural)]
pub enum EdgeType {
    /// Directed: from a tail to a head.
    Arrow,
    /// Undirected: two interchangeable ends.
    Link,
    /// One node connected to itself.
    Loop,
}

/// A handle on a node: its stable identifier.
///
/// A handle observes; it does not keep the node alive. What keeps a
/// node alive is counted in the store (see [`GraphView::node_kept`]).
#[derive(Debug, Clone, Copy, PartialEq, Eq, Structural)]
pub struct BaseNode {
    pub id: usize,
}

/// A handle on an edge: its stable identifier.
#[derive(Debug, Clone, Copy, PartialEq, Eq, Structural)]
pub struct BaseEdge {
    pub id: usize,
}

/// One end of an edge.
#[derive(Debug, Clone, Copy, PartialEq, Eq, Structural)]
pub enum EdgeEnd {
    /// The shape has no node at this end.
    Absent,
    /// The end observes the node without keeping it alive.
    NonOwning(BaseNode),
    /// The end keeps the node alive for as long as the edge lives.
    Owning(BaseNode),
}

/// Where a node sits in an edge.
#[derive(Debug, Clone, Copy, PartialEq, Eq, Structural)]
pub enum EdgePos {
    /// At the tail of an arrow: the edge points away from the node.
    Tail,
    /// At the head of an arrow: the edge points at the node.
    Head,
    /// At either end of a link.
    Link,
    /// On a loop.
    Loop,
    /// Not on the edge (or no longer resolvable there).
    Outside,
}

/// What the store holds for a living node.
pub struct NodeView<V> {
    pub value: V,
    /// The edges registered on the node, in registration order. Each
    /// entry keeps its edge alive.
    pub edges: Seq<BaseEdge>,
    /// How many holds callers have on the node.
    pub holds: nat,
}

/// What the store holds for a living edge.
pub struct EdgeView<W> {
    pub edge_type: EdgeType,
    pub alpha: EdgeEnd,
    pub omega: EdgeEnd,
    pub weight: W,
    /// How many holds callers have on the edge.
    pub holds: nat,
}

/// The shape that two ends make up, if they make up one: an arrow
/// observes its tail and owns its head, a link observes both ends, a
/// loop has no first end and observes its one node.
pub open spec fn shape_of(alpha: EdgeEnd, omega: EdgeEnd) -> Option<EdgeType> {
    match (alpha, omega) {
        (EdgeEnd::NonOwning(_), EdgeEnd::Owning(_)) => Some(EdgeType::Arrow),
        (EdgeEnd::NonOwning(_), EdgeEnd::NonOwning(_)) => Some(EdgeType::Link),
        (EdgeEnd::Absent, EdgeEnd::NonOwning(_)) => Some(EdgeType::Loop),
        _ => None,
    }
}

impl<W> EdgeView<W> {
    /// The edge keeps `n` alive through one of its ends.
    pub open spec fn owns(self, n: BaseNode) -> bool {
        self.alpha == EdgeEnd::Owning(n) || self.omega == EdgeEnd::Owning(n)
    }

    /// The ends are those that the shape prescribes.
    pub open spec fn shape_ok(self) -> bool {
        shape_of(self.alpha, self.omega) == Some(self.edge_type)
    }
}

/// The whole store: node slots, edge slots and the two rosters.
///
/// Slot `i` of `nodes` belongs to the node with identifier `i`; the
/// number of slots is the number of identifiers issued so far.
pub struct GraphView<V, W> {
    pub nodes: Seq<Option<NodeView<V>>>,
    pub edges: Seq<Option<EdgeView<W>>>,
    pub node_cache: Seq<BaseNode>,
    pub edge_cache: Seq<BaseEdge>,
}

impl<V, W> GraphView<V, W> {
    /// A store in which no identifier has been issued.
    pub open spec fn empty() -> Self {
        GraphView {
            nodes: Seq::empty(),
            edges: Seq::empty(),
            node_cache: Seq::empty(),
            edge_cache: Seq::empty(),
        }
    }

    /// The node is alive.
    #[verifier::inline]
    pub open spec fn has_node(self, n: BaseNode) -> bool {
        n.id < self.nodes.len() && self.nodes[n.id as int] is Some
    }

    /// The edge is alive.
    #[verifier::inline]
    pub open spec fn has_edge(self, e: BaseEdge) -> bool {
        e.id < self.edges.len() && self.edges[e.id as int] is Some
    }

    /// The record of a living node.
    #[verifier::inline]
    pub open spec fn node(self, n: BaseNode) -> NodeView<V>
        recommends
            self.has_node(n),
    {
        self.nodes[n.id as int]->0
    }

    /// The record of a living edge.
    #[verifier::inline]
    pub open spec fn edge(self, e: BaseEdge) -> EdgeView<W>
        recommends
            self.has_edge(e),
    {
        self.edges[e.id as int]->0
    }

    /// The edges registered on `n`; none once the node is gone.
    pub open spec fn edges_of(self, n: BaseNode) -> Seq<BaseEdge> {
        if self.has_node(n) {
            self.node(n).edges
        } else {
            Seq::empty()
        }
    }

    /// The edge registered on `n` at position `index`, if there is one.
    pub open spec fn edge_at(self, n: BaseNode, index: int) -> Option<BaseEdge> {
        if 0 <= index < self.edges_of(n).len() {
            Some(self.edges_of(n)[index])
        } else {
            None
        }
    }

    /// The most recently issued node identifier; 0 before the first.
    pub open spec fn last_node_id(self) -> nat {
        if self.nodes.len() == 0 {
            0
        } else {
            (self.nodes.len() - 1) as nat
        }
    }

    /// The most recently issued edge identifier; 0 before the first.
    pub open spec fn last_edge_id(self) -> nat {
        if self.edges.len() == 0 {
            0
        } else {
            (self.edges.len() - 1) as nat
        }
    }

    // ----- resolution ------------------------------------------------

    /// The node that an end leads to, if it is still alive.
    pub open spec fn resolve(self, end: EdgeEnd) -> Option<BaseNode> {
        match end {
            EdgeEnd::Absent => None,
            EdgeEnd::NonOwning(n) => if self.has_node(n) {
                Some(n)
            } else {
                None
            },
            EdgeEnd::Owning(n) => if self.has_node(n) {
                Some(n)
            } else {
                None
            },
        }
    }

    /// The end leads to the living node with identifier `node_id`.
    pub open spec fn leads_to(self, end: EdgeEnd, node_id: usize) -> bool {
        self.resolve(end) == Some(BaseNode { id: node_id })
    }

    /// The node that `e` points to when seen from the node `node_id`.
    ///
    /// An arrow answers for its tail with its head. A link answers for
    /// either end with the other one. A loop answers for its node with
    /// that same node.
    pub open spec fn head_of(self, e: BaseEdge, node_id: usize) -> Option<BaseNode> {
        if !self.has_edge(e) {
            None
        } else {
            let alpha = self.edge(e).alpha;
            let omega = self.edge(e).omega;
            match self.edge(e).edge_type {
                EdgeType::Arrow => if self.leads_to(alpha, node_id) {
                    self.resolve(omega)
                } else {
                    None
                },
                EdgeType::Link => if self.leads_to(alpha, node_id) {
                    self.resolve(omega)
                } else if self.leads_to(omega, node_id) {
                    self.resolve(alpha)
                } else {
                    None
                },
                EdgeType::Loop => if self.leads_to(omega, node_id) {
                    self.resolve(omega)
                } else {
                    None
                },
            }
        }
    }

    /// The node that `e` comes from when seen from the node `node_id`.
    ///
    /// An arrow answers for its head with its tail. Links and loops
    /// answer as in [`Self::head_of`].
    pub open spec fn tail_of(self, e: BaseEdge, node_id: usize) -> Option<BaseNode> {
        if !self.has_edge(e) {
            None
        } else {
            let alpha = self.edge(e).alpha;
            let omega = self.edge(e).omega;
            match self.edge(e).edge_type {
                EdgeType::Arrow => if self.leads_to(omega, node_id) {
                    self.resolve(alpha)
                } else {
                    None
                },
                _ => self.head_of(e, node_id),
            }
        }
    }

    /// The node at one end of `e` (the first end if `first`, else the
    /// second), provided that `e` has the shape `shape`.
    pub open spec fn end_of_shape(self, e: BaseEdge, shape: EdgeType, first: bool) -> Option<
        BaseNode,
    > {
        if self.has_edge(e) && self.edge(e).edge_type == shape {
            if first {
                self.resolve(self.edge(e).alpha)
            } else {
                self.resolve(self.edge(e).omega)
            }
        } else {
            None
        }
    }

    /// The end of `e` opposite to the one that leads to the node
    /// `node_id`, whatever the shape of `e`. The first end is asked
    /// first.
    pub open spec fn across(self, e: BaseEdge, node_id: usize) -> Option<EdgeEnd> {
        if !self.has_edge(e) {
            None
        } else if self.leads_to(self.edge(e).alpha, node_id) {
            Some(self.edge(e).omega)
        } else if self.leads_to(self.edge(e).omega, node_id) {
            Some(self.edge(e).alpha)
        } else {
            None
        }
    }

    /// The node across `e` from the node `node_id`.
    pub open spec fn node_across(self, e: BaseEdge, node_id: usize) -> Option<BaseNode> {
        match self.across(e, node_id) {
            Some(end) => self.resolve(end),
            None => None,
        }
    }

    /// The node across `e` from the node `node_id`, if `e` owns it.
    pub open spec fn owned_across(self, e: BaseEdge, node_id: usize) -> Option<BaseNode> {
        match self.across(e, node_id) {
            Some(EdgeEnd::Owning(n)) => self.resolve(EdgeEnd::Owning(n)),
            _ => None,
        }
    }

    /// The node across `e` from the node `node_id`, if `e` only
    /// observes it.
    pub open spec fn observed_across(self, e: BaseEdge, node_id: usize) -> Option<BaseNode> {
        match self.across(e, node_id) {
            Some(EdgeEnd::NonOwning(n)) => self.resolve(EdgeEnd::NonOwning(n)),
            _ => None,
        }
    }

    /// The end is absent or leads to a living node.
    pub open spec fn end_alive(self, end: EdgeEnd) -> bool {
        end is Absent || self.resolve(end) is Some
    }

    /// The position of the node `node_id` in `e`.
    pub open spec fn pos_of(self, e: BaseEdge, node_id: usize) -> EdgePos {
        if !self.has_edge(e) {
            EdgePos::Outside
        } else {
            let alpha = self.edge(e).alpha;
            let omega = self.edge(e).omega;
            match self.edge(e).edge_type {
                EdgeType::Arrow => if self.leads_to(alpha, node_id) {
                    EdgePos::Tail
                } else if self.leads_to(omega, node_id) {
                    EdgePos::Head
                } else {
                    EdgePos::Outside
                },
                EdgeType::Link => if self.leads_to(alpha, node_id) || self.leads_to(
                    omega,
                    node_id,
                ) {
                    EdgePos::Link
                } else {
                    EdgePos::Outside
                },
                EdgeType::Loop => if self.leads_to(omega, node_id) {
                    EdgePos::Loop
                } else {
                    EdgePos::Outside
                },
            }
        }
    }

    /// The neighbours found by walking `edges` in order and asking each
    /// edge for its head (`towards_head`) or its tail as seen from
    /// `node_id`; edges that do not answer contribute nothing.
    pub open spec fn neighbours(
        self,
        edges: Seq<BaseEdge>,
        node_id: usize,
        towards_head: bool,
    ) -> Seq<BaseNode>
        decreases edges.len(),
    {
        if edges.len() == 0 {
            Seq::empty()
        } else {
            let rest = self.neighbours(edges.drop_first(), node_id, towards_head);
            match self.neighbour(edges[0], node_id, towards_head) {
                Some(n) => seq![n] + rest,
                None => rest,
            }
        }
    }

    /// One edge's answer: its head or its tail as seen from `node_id`.
    pub open spec fn neighbour(self, e: BaseEdge, node_id: usize, towards_head: bool) -> Option<
        BaseNode,
    > {
        if towards_head {
            self.head_of(e, node_id)
        } else {
            self.tail_of(e, node_id)
        }
    }

    // ----- what keeps an entity alive --------------------------------

    /// The roster of nodes holds `n`.
    pub open spec fn node_cached(self, n: BaseNode) -> bool {
        self.node_cache.contains(n)
    }

    /// The roster of edges holds `e`.
    pub open spec fn edge_cached(self, e: BaseEdge) -> bool {
        self.edge_cache.contains(e)
    }

    /// Some living edge owns `n`.
    pub open spec fn node_owned(self, n: BaseNode) -> bool {
        exists|i: int|
            0 <= i < self.edges.len() && self.edges[i] is Some && #[trigger] self.edges[i]->0.owns(
                n,
            )
    }

    /// Some living node has `e` registered.
    pub open spec fn edge_listed(self, e: BaseEdge) -> bool {
        exists|i: int|
            0 <= i < self.nodes.len() && self.nodes[i] is Some
                && #[trigger] self.nodes[i]->0.edges.contains(e)
    }

    /// The node has a holder: a caller's hold, the roster, or an owning
    /// end of a living edge.
    pub open spec fn node_kept(self, n: BaseNode) -> bool
        recommends
            self.has_node(n),
    {
        self.node(n).holds > 0 || self.node_cached(n) || self.node_owned(n)
    }

    /// The edge has a holder: a caller's hold, the roster, or a living
    /// node that has it registered.
    pub open spec fn edge_kept(self, e: BaseEdge) -> bool
        recommends
            self.has_edge(e),
    {
        self.edge(e).holds > 0 || self.edge_cached(e) || self.edge_listed(e)
    }

    /// Nothing that is alive refers through an owning reference to
    /// something that is gone, every edge has the ends of its shape,
    /// and every slot can be named by an identifier.
    pub open spec fn sound(self) -> bool {
        &&& self.nodes.len() <= usize::MAX
        &&& self.edges.len() <= usize::MAX
        &&& forall|i: int|
            0 <= i < self.edges.len() && self.edges[i] is Some ==> (
            #[trigger] self.edges[i])->0.shape_ok()
        &&& forall|i: int, n: BaseNode|
            0 <= i < self.edges.len() && self.edges[i] is Some
                && #[trigger] self.edges[i]->0.owns(n) ==> self.has_node(n)
        &&& forall|i: int, e: BaseEdge|
            0 <= i < self.nodes.len() && self.nodes[i] is Some
                && #[trigger] self.nodes[i]->0.edges.contains(e) ==> self.has_edge(e)
        &&& forall|n: BaseNode| #[trigger] self.node_cache.contains(n) ==> self.has_node(n)
        &&& forall|e: BaseEdge| #[trigger] self.edge_cache.contains(e) ==> self.has_edge(e)
    }

    /// The store is consistent: it is sound, and whatever is alive has
    /// a holder. Together: an entity is alive exactly as long as
    /// something holds it.
    pub open spec fn wf(self) -> bool {
        &&& self.sound()
        &&& forall|i: int|
            0 <= i < self.nodes.len() && (#[trigger] self.nodes[i]) is Some ==> self.node_kept(
                BaseNode { id: i as usize },
            )
        &&& forall|i: int|
            0 <= i < self.edges.len() && (#[trigger] self.edges[i]) is Some ==> self.edge_kept(
                BaseEdge { id: i as usize },
            )
    }

    // ----- the store after an operation ------------------------------

    /// A node identifier is issued and no node built on it.
    pub open spec fn reserve_node(self) -> Self {
        GraphView { nodes: self.nodes.push(None), ..self }
    }

    /// An edge identifier is issued and no edge built on it.
    pub open spec fn reserve_edge(self) -> Self {
        GraphView { edges: self.edges.push(None), ..self }
    }

    /// A node is built on the next identifier. Its maker has one hold
    /// on it.
    pub open spec fn create_node(self, value: V) -> Self {
        GraphView {
            nodes: self.nodes.push(Some(NodeView { value, edges: Seq::empty(), holds: 1 })),
            ..self
        }
    }

    /// An edge is built on the next identifier. Its maker has one hold
    /// on it.
    pub open spec fn create_edge(
        self,
        edge_type: EdgeType,
        alpha: EdgeEnd,
        omega: EdgeEnd,
        weight: W,
    ) -> Self {
        GraphView {
            edges: self.edges.push(Some(EdgeView { edge_type, alpha, omega, weight, holds: 1 })),
            ..self
        }
    }

    /// The record of `n` is replaced.
    pub open spec fn put_node(self, n: BaseNode, record: NodeView<V>) -> Self {
        GraphView { nodes: self.nodes.update(n.id as int, Some(record)), ..self }
    }

    /// The record of `e` is replaced.
    pub open spec fn put_edge(self, e: BaseEdge, record: EdgeView<W>) -> Self {
        GraphView { edges: self.edges.update(e.id as int, Some(record)), ..self }
    }

    /// `e` is registered on `n`, after the edges already there.
    pub open spec fn add_edge(self, n: BaseNode, e: BaseEdge) -> Self {
        self.put_node(n, NodeView { edges: self.node(n).edges.push(e), ..self.node(n) })
    }

    /// The value of `n` is replaced.
    pub open spec fn set_value(self, n: BaseNode, value: V) -> Self {
        self.put_node(n, NodeView { value, ..self.node(n) })
    }

    /// The weight of `e` is replaced.
    pub open spec fn set_weight(self, e: BaseEdge, weight: W) -> Self {
        self.put_edge(e, EdgeView { weight, ..self.edge(e) })
    }

    /// `n` is entered in the roster of nodes.
    pub open spec fn cache_node(self, n: BaseNode) -> Self {
        GraphView { node_cache: self.node_cache.push(n), ..self }
    }

    /// `e` is entered in the roster of edges.
    pub open spec fn cache_edge(self, e: BaseEdge) -> Self {
        GraphView { edge_cache: self.edge_cache.push(e), ..self }
    }

    /// A caller takes one more hold on `n`.
    pub open spec fn retain_node(self, n: BaseNode) -> Self {
        self.put_node(n, NodeView { holds: self.node(n).holds + 1, ..self.node(n) })
    }

    /// A caller takes one more hold on `e`.
    pub open spec fn retain_edge(self, e: BaseEdge) -> Self {
        self.put_edge(e, EdgeView { holds: self.edge(e).holds + 1, ..self.edge(e) })
    }

    /// A caller gives up one hold on `n`, if it has one. Nothing is
    /// destroyed yet: see [`Self::sweep`].
    pub open spec fn unhold_node(self, n: BaseNode) -> Self {
        if self.has_node(n) && self.node(n).holds > 0 {
            self.put_node(n, NodeView { holds: (self.node(n).holds - 1) as nat, ..self.node(n) })
        } else {
            self
        }
    }

    /// A caller gives up one hold on `e`, if it has one. Nothing is
    /// destroyed yet: see [`Self::sweep`].
    pub open spec fn unhold_edge(self, e: BaseEdge) -> Self {
        if self.has_edge(e) && self.edge(e).holds > 0 {
            self.put_edge(e, EdgeView { holds: (self.edge(e).holds - 1) as nat, ..self.edge(e) })
        } else {
            self
        }
    }

    // ----- destruction -----------------------------------------------

    /// Every member of `ns` and `es` is alive and has a holder that
    /// does not depend on anything outside `ns` and `es`: a caller's
    /// hold, a roster, or a member of the other set.
    pub open spec fn sustains(self, ns: Set<BaseNode>, es: Set<BaseEdge>) -> bool {
        &&& forall|n: BaseNode| #[trigger]
            ns.contains(n) ==> self.has_node(n) && (self.node(n).holds > 0 || self.node_cached(n)
                || self.node_owned_within(n, es))
        &&& forall|e: BaseEdge| #[trigger]
            es.contains(e) ==> self.has_edge(e) && (self.edge(e).holds > 0 || self.edge_cached(e)
                || self.edge_listed_within(e, ns))
    }

    /// Some living edge among `es` owns `n`.
    pub open spec fn node_owned_within(self, n: BaseNode, es: Set<BaseEdge>) -> bool {
        exists|i: int|
            0 <= i < self.edges.len() && self.edges[i] is Some && es.contains(
                BaseEdge { id: i as usize },
            ) && #[trigger] self.edges[i]->0.owns(n)
    }

    /// Some living node among `ns` has `e` registered.
    pub open spec fn edge_listed_within(self, e: BaseEdge, ns: Set<BaseNode>) -> bool {
        exists|i: int|
            0 <= i < self.nodes.len() && self.nodes[i] is Some && ns.contains(
                BaseNode { id: i as usize },
            ) && #[trigger] self.nodes[i]->0.edges.contains(e)
    }

    /// `n` belongs to some part of the store that sustains itself.
    pub open spec fn node_survives(self, n: BaseNode) -> bool {
        exists|ns: Set<BaseNode>, es: Set<BaseEdge>| #[trigger]
            self.sustains(ns, es) && ns.contains(n)
    }

    /// `e` belongs to some part of the store that sustains itself.
    pub open spec fn edge_survives(self, e: BaseEdge) -> bool {
        exists|ns: Set<BaseNode>, es: Set<BaseEdge>| #[trigger]
            self.sustains(ns, es) && es.contains(e)
    }

    /// The store once everything without a holder is destroyed, along
    /// with everything that loses its last holder thereby.
    ///
    /// What is left is the largest part of the store that sustains
    /// itself. A ring of entities that hold each other, with no holder
    /// from outside, sustains itself and is therefore left standing.
    pub open spec fn sweep(self) -> Self {
        GraphView {
            nodes: Seq::new(
                self.nodes.len(),
                |i: int|
                    if self.node_survives(BaseNode { id: i as usize }) {
                        self.nodes[i]
                    } else {
                        None
                    },
            ),
            edges: Seq::new(
                self.edges.len(),
                |i: int|
                    if self.edge_survives(BaseEdge { id: i as usize }) {
                        self.edges[i]
                    } else {
                        None
                    },
            ),
            ..self
        }
    }
}

} // verus!
