//! Walks over the edges registered on a node, and over its neighbours.
//!
//! A walk keeps a position, not a copy of the edges: an edge that is
//! registered while the walk is under way is met when the walk gets
//! there. Once a step has found nothing, the walk is over for good.

use crate::basehead::BaseHead;
use crate::baselink::BaseLink;
use crate::graph::{BaseEdge, BaseNode, GraphView};
use crate::traits::{Edge, Node};
use vstd::prelude::*;

verus! {

/// How far a walk has come.
pub struct IterState {
    /// The node whose edges are walked over.
    pub node: BaseNode,
    /// The position of the edge that the next step looks at.
    pub position: nat,
    /// A step has found nothing: the walk is over.
    pub finished: bool,
}

impl IterState {
    /// A walk that has not taken a step.
    pub open spec fn fresh(node: BaseNode) -> Self {
        IterState { node, position: 0, finished: false }
    }

    /// What the next step yields in the store `g`.
    pub open spec fn item<V, W>(self, g: GraphView<V, W>) -> Option<BaseEdge> {
        if self.finished {
            None
        } else {
            g.edge_at(self.node, self.position as int)
        }
    }

    /// The walk after its next step in the store `g`: one position
    /// further if the step yields an edge, over if it does not.
    pub open spec fn step<V, W>(self, g: GraphView<V, W>) -> Self {
        if self.item(g) is Some {
            IterState { position: self.position + 1, ..self }
        } else {
            IterState { finished: true, ..self }
        }
    }

    /// The edges that the walk has still to yield if the store stays
    /// as it is.
    pub open spec fn remaining<V, W>(self, g: GraphView<V, W>) -> Seq<BaseEdge> {
        if self.finished || self.position > g.edges_of(self.node).len() {
            Seq::empty()
        } else {
            g.edges_of(self.node).skip(self.position as int)
        }
    }

    /// The walk once it has been taken to its end in the store `g`.
    pub open spec fn drained<V, W>(self, g: GraphView<V, W>) -> Self {
        IterState {
            node: self.node,
            position: self.position + self.remaining(g).len(),
            finished: true,
        }
    }

    /// The number of steps that can still yield an edge.
    pub open spec fn steps_left<V, W>(self, g: GraphView<V, W>) -> nat {
        self.remaining(g).len()
    }

    /// The walk after the steps that it takes to find the next
    /// neighbour, and that neighbour. Edges that do not answer are
    /// passed over.
    pub open spec fn seek<V, W>(self, g: GraphView<V, W>, towards_head: bool) -> (Self, Option<
        BaseNode,
    >)
        decreases self.steps_left(g),
    {
        match self.item(g) {
            None => (self.step(g), None),
            Some(e) => match g.neighbour(e, self.node.id, towards_head) {
                Some(n) => (self.step(g), Some(n)),
                None => self.step(g).seek(g, towards_head),
            },
        }
    }
}

/// A walk over the edges registered on a node, in registration order.
pub struct IterEdges {
    node: BaseNode,
    edge_index: usize,
    finished: bool,
}

impl View for IterEdges {
    type V = IterState;

    closed spec fn view(&self) -> IterState {
        IterState { node: self.node, position: self.edge_index as nat, finished: self.finished }
    }
}

impl IterEdges {
    /// A walk over the edges of `node`, from the first.
    pub fn new(node: BaseNode) -> (walk: Self)
        ensures
            walk@ == IterState::fresh(node),
    {
        IterEdges { node, edge_index: 0, finished: false }
    }

    /// Takes one step: yields the edge at the position of the walk and
    /// moves on, or ends the walk if there is none.
    pub fn next<V, W>(&mut self, head: &BaseHead<V, W>) -> (edge: Option<BaseEdge>)
        ensures
            edge == old(self)@.item(head@),
            final(self)@ == old(self)@.step(head@),
    {
        if self.finished {
            return None;
        }
        match self.node.get_edge(self.edge_index, head) {
            Some(edge) => {
                proof {
                    let slot = head.nodes@[self.node.id as int]->0;
                    assert(slot.edges@.len() == slot.edges.len());
                }
                self.edge_index += 1;
                Some(edge)
            },
            None => {
                self.finished = true;
                None
            },
        }
    }

    /// The bounds on the number of edges still to come: none
    /// guaranteed, at most as many as are registered on the node.
    pub fn size_hint<V, W>(&self, head: &BaseHead<V, W>) -> (bounds: (usize, Option<usize>))
        ensures
            bounds == (0usize, Some(head@.edges_of(self@.node).len() as usize)),
    {
        (0, Some(self.node.len_edges(head)))
    }

    /// The number of edges registered on the node of the walk.
    pub fn len<V, W>(&self, head: &BaseHead<V, W>) -> (len: usize)
        ensures
            len == head@.edges_of(self@.node).len(),
    {
        self.node.len_edges(head)
    }

    /// Walks to the end and returns the edges met on the way.
    pub fn collect<V, W>(&mut self, head: &BaseHead<V, W>) -> (edges: Vec<BaseEdge>)
        ensures
            edges@ == old(self)@.remaining(head@),
            final(self)@ == old(self)@.drained(head@),
    {
        let mut edges: Vec<BaseEdge> = Vec::new();
        let ghost start = self@;
        loop
            invariant
                self@.node == start.node,
                start.remaining(head@) == edges@ + self@.remaining(head@),
                self@.position + self@.remaining(head@).len() == start.position
                    + start.remaining(head@).len(),
            ensures
                edges@ == start.remaining(head@),
                self@ == start.drained(head@),
            decreases self@.steps_left(head@),
        {
            let ghost before = self@;
            match self.next(head) {
                Some(edge) => {
                    edges.push(edge);
                    proof {
                        assert(before.remaining(head@) =~= seq![edge] + self@.remaining(head@));
                        assert(edges@ + self@.remaining(head@) =~= (edges@.drop_last()
                            + before.remaining(head@)));
                    }
                },
                None => {
                    proof {
                        assert(before.remaining(head@) =~= Seq::empty());
                        assert(edges@ + Seq::<BaseEdge>::empty() =~= edges@);
                    }
                    break ;
                },
            }
        }
        edges
    }
}

/// A walk over the neighbours of a node: the nodes that its registered
/// edges point to from it, or come from towards it.
pub struct IterNodes {
    edges: IterEdges,
    heads: bool,
}

impl View for IterNodes {
    type V = IterState;

    closed spec fn view(&self) -> IterState {
        self.edges@
    }
}

impl IterNodes {
    /// Whether the walk asks each edge for its head (else for its
    /// tail).
    pub closed spec fn towards_head(&self) -> bool {
        self.heads
    }

    /// A walk over the neighbours of `node`, from its first edge.
    pub fn new(node: BaseNode, towards_head: bool) -> (walk: Self)
        ensures
            walk@ == IterState::fresh(node),
            walk.towards_head() == towards_head,
    {
        IterNodes { edges: IterEdges::new(node), heads: towards_head }
    }

    /// Steps on to the next edge that answers and yields its answer,
    /// or ends the walk if no edge is left.
    pub fn next<V, W>(&mut self, head: &BaseHead<V, W>) -> (node: Option<BaseNode>)
        ensures
            (final(self)@, node) == old(self)@.seek(head@, old(self).towards_head()),
            final(self).towards_head() == old(self).towards_head(),
    {
        let ghost start = self@;
        let ghost heads = self.heads;
        loop
            invariant
                start == old(self)@,
                heads == old(self).heads,
                self.heads == heads,
                self@.seek(head@, heads) == start.seek(head@, heads),
            decreases self@.steps_left(head@),
        {
            let ghost before = self@;
            match self.edges.next(head) {
                None => {
                    assert(before.seek(head@, heads) == (self@, None::<BaseNode>));
                    return None;
                },
                Some(edge) => {
                    let found = if self.heads {
                        edge.try_head_node(self.edges.node.id, head)
                    } else {
                        edge.try_tail_node(self.edges.node.id, head)
                    };
                    assert(found == head@.neighbour(edge, before.node.id, heads));
                    if let Some(node) = found {
                        assert(before.seek(head@, heads) == (self@, Some(node)));
                        return Some(node);
                    }
                    proof {
                        assert(before.seek(head@, heads) == self@.seek(head@, heads));
                        assert(self@.steps_left(head@) < before.steps_left(head@));
                    }
                },
            }
        }
    }

    /// Walks to the end and returns the neighbours met on the way.
    pub fn collect<V, W>(&mut self, head: &BaseHead<V, W>) -> (nodes: Vec<BaseNode>)
        ensures
            nodes@ == head@.neighbours(
                old(self)@.remaining(head@),
                old(self)@.node.id,
                old(self).towards_head(),
            ),
            final(self)@ == old(self)@.drained(head@),
            final(self).towards_head() == old(self).towards_head(),
    {
        let mut nodes: Vec<BaseNode> = Vec::new();
        let ghost start = self@;
        let ghost heads = self.heads;
        loop
            invariant
                self.heads == heads,
                self@.node == start.node,
                head@.neighbours(start.remaining(head@), start.node.id, heads) == nodes@
                    + head@.neighbours(self@.remaining(head@), start.node.id, heads),
                self@.position + self@.remaining(head@).len() == start.position
                    + start.remaining(head@).len(),
            ensures
                self.heads == heads,
                self@ == start.drained(head@),
                nodes@ == head@.neighbours(start.remaining(head@), start.node.id, heads),
            decreases self@.steps_left(head@),
        {
            let ghost before = self@;
            match self.edges.next(head) {
                None => {
                    proof {
                        assert(before.remaining(head@) =~= Seq::empty());
                        assert(self@.remaining(head@) =~= Seq::empty());
                        assert(nodes@ + Seq::<BaseNode>::empty() =~= nodes@);
                    }
                    break ;
                },
                Some(edge) => {
                    let found = if self.heads {
                        edge.try_head_node(self.edges.node.id, head)
                    } else {
                        edge.try_tail_node(self.edges.node.id, head)
                    };
                    proof {
                        let rest = before.remaining(head@);
                        assert(rest[0] == edge);
                        assert(rest.drop_first() =~= self@.remaining(head@));
                    }
                    let ghost earlier = nodes@;
                    if let Some(node) = found {
                        nodes.push(node);
                        proof {
                            let tail = head@.neighbours(
                                self@.remaining(head@),
                                start.node.id,
                                heads,
                            );
                            assert(nodes@ + tail =~= earlier + (seq![node] + tail));
                        }
                    }
                },
            }
        }
        nodes
    }
}

/// A walk over the edges registered on a node that yields them as
/// links.
pub struct IterLinks {
    edges: IterEdges,
}

impl View for IterLinks {
    type V = IterState;

    closed spec fn view(&self) -> IterState {
        self.edges@
    }
}

impl IterLinks {
    /// A walk over the links of `node`, from the first.
    pub fn new(node: BaseNode) -> (walk: Self)
        ensures
            walk@ == IterState::fresh(node),
    {
        IterLinks { edges: IterEdges::new(node) }
    }

    /// Takes one step: yields the link at the position of the walk and
    /// moves on, or ends the walk if there is none.
    pub fn next<V, W>(&mut self, head: &BaseHead<V, W>) -> (link: Option<BaseLink>)
        ensures
            link is Some <==> old(self)@.item(head@) is Some,
            link matches Some(l) ==> Some(l.edge()) == old(self)@.item(head@),
            final(self)@ == old(self)@.step(head@),
    {
        if self.edges.finished {
            return None;
        }
        match self.edges.node.get_link(self.edges.edge_index, head) {
            Some(link) => {
                proof {
                    let slot = head.nodes@[self.edges.node.id as int]->0;
                    assert(slot.edges@.len() == slot.edges.len());
                }
                self.edges.edge_index += 1;
                Some(link)
            },
            None => {
                self.edges.finished = true;
                None
            },
        }
    }

    /// The bounds on the number of links still to come: none
    /// guaranteed, at most as many as are registered on the node.
    pub fn size_hint<V, W>(&self, head: &BaseHead<V, W>) -> (bounds: (usize, Option<usize>))
        ensures
            bounds == (0usize, Some(head@.edges_of(self@.node).len() as usize)),
    {
        self.edges.size_hint(head)
    }

    /// The number of links registered on the node of the walk.
    pub fn len<V, W>(&self, head: &BaseHead<V, W>) -> (len: usize)
        ensures
            len == head@.edges_of(self@.node).len(),
    {
        self.edges.len(head)
    }
}

} // verus!
