//! Links: an edge seen from its ends, whatever its shape, and a
//! builder that puts an edge together end by end.

use crate::basehead::BaseHead;
use crate::graph::{shape_of, BaseEdge, BaseNode, EdgeEnd, EdgeType, GraphView};
use crate::traits::{Edge, EdgeWeighted, Node};
use vstd::prelude::*;

verus! {

/// A handle on an edge that asks for the node at the other end
/// without regard to direction, and for the way that node is held.
#[derive(Debug, Clone, Copy, PartialEq, Eq, Structural)]
pub struct BaseLink {
    pub id: usize,
}

impl BaseLink {
    /// The edge that the link is a handle on.
    pub open spec fn edge(&self) -> BaseEdge {
        BaseEdge { id: self.id }
    }

    /// The link on `edge`.
    pub fn of(edge: BaseEdge) -> (link: Self)
        ensures
            link.edge() == edge,
    {
        BaseLink { id: edge.id }
    }

    /// The edge that the link is a handle on.
    pub fn as_edge(&self) -> (edge: BaseEdge)
        ensures
            edge == self.edge(),
    {
        BaseEdge { id: self.id }
    }

    /// The stable identifier of the edge.
    pub fn get_id(&self) -> (id: usize)
        ensures
            id == self.id,
    {
        self.id
    }

    /// A handle on the link itself, while its edge is alive.
    pub fn get_self<V, W>(&self, head: &BaseHead<V, W>) -> (me: Option<Self>)
        ensures
            me == if head@.has_edge(self.edge()) {
                Some(*self)
            } else {
                None
            },
    {
        if head.has_edge(self.as_edge()) {
            Some(*self)
        } else {
            None
        }
    }

    /// The end opposite to the one that leads to the node `node_id`.
    fn across<V, W>(&self, node_id: usize, head: &BaseHead<V, W>) -> (end: Option<EdgeEnd>)
        ensures
            end == head@.across(self.edge(), node_id),
    {
        if !head.has_edge(self.as_edge()) {
            return None;
        }
        let slot = head.edges[self.id].as_ref().unwrap();
        if slot.alpha.leads_to(node_id, head) {
            return Some(slot.omega);
        }
        if slot.omega.leads_to(node_id, head) {
            return Some(slot.alpha);
        }
        None
    }

    /// The node at the other end, seen from the node `node_id`, if
    /// `node_id` is at an end and the other node is alive.
    pub fn try_node<V, W>(&self, node_id: usize, head: &BaseHead<V, W>) -> (node: Option<BaseNode>)
        ensures
            node == head@.node_across(self.edge(), node_id),
    {
        match self.across(node_id, head) {
            Some(end) => end.try_node(head),
            None => None,
        }
    }

    /// The node at the other end, seen from the node `node_id`, if the
    /// edge owns that node.
    pub fn try_strong_node<V, W>(&self, node_id: usize, head: &BaseHead<V, W>) -> (node: Option<
        BaseNode,
    >)
        ensures
            node == head@.owned_across(self.edge(), node_id),
    {
        match self.across(node_id, head) {
            Some(end) => end.strong_node(head),
            None => None,
        }
    }

    /// The node at the other end, seen from the node `node_id`, if the
    /// edge only observes that node and it is alive.
    pub fn try_weak_node<V, W>(&self, node_id: usize, head: &BaseHead<V, W>) -> (node: Option<
        BaseNode,
    >)
        ensures
            node == head@.observed_across(self.edge(), node_id),
    {
        match self.across(node_id, head) {
            Some(end) => end.weak_node(head),
            None => None,
        }
    }

    /// The weight of the edge.
    pub fn get_weight<'a, V, W>(&self, head: &'a BaseHead<V, W>) -> (weight: &'a W)
        requires
            head@.has_edge(self.edge()),
        ensures
            *weight == head@.edge(self.edge()).weight,
    {
        self.as_edge().get_weight(head)
    }

    /// The weight of the edge, to be changed in place.
    pub fn get_weight_mut<'a, V, W>(&self, head: &'a mut BaseHead<V, W>) -> (weight: &'a mut W)
        requires
            old(head)@.wf(),
            old(head)@.has_edge(self.edge()),
        ensures
            *weight == old(head)@.edge(self.edge()).weight,
            final(head)@ == old(head)@.set_weight(self.edge(), *final(weight)),
            final(head)@.wf(),
    {
        self.as_edge().get_weight_mut(head)
    }
}

impl BaseNode {
    /// Registers `link` on the node, after the edges already there,
    /// and hands it back: see [`Node::add_edge`].
    pub fn add_link<V, W>(&self, link: BaseLink, head: &mut BaseHead<V, W>) -> (same: BaseLink)
        requires
            old(head)@.wf(),
            old(head)@.has_node(*self),
            old(head)@.has_edge(link.edge()),
        ensures
            same == link,
            final(head)@ == old(head)@.add_edge(*self, link.edge()),
            final(head)@.wf(),
    {
        self.add_edge(link.as_edge(), head);
        link
    }

    /// The number of links registered on the node.
    pub fn len_links<V, W>(&self, head: &BaseHead<V, W>) -> (len: usize)
        ensures
            len == head@.edges_of(*self).len(),
    {
        self.len_edges(head)
    }

    /// The link registered at position `index`, if there is one.
    pub fn get_link<V, W>(&self, index: usize, head: &BaseHead<V, W>) -> (link: Option<BaseLink>)
        ensures
            link is Some <==> head@.edge_at(*self, index as int) is Some,
            link matches Some(l) ==> Some(l.edge()) == head@.edge_at(*self, index as int),
    {
        match self.get_edge(index, head) {
            Some(edge) => Some(BaseLink::of(edge)),
            None => None,
        }
    }
}

/// The exec form of [`shape_of`].
fn shape_of_ends(alpha: &EdgeEnd, omega: &EdgeEnd) -> (shape: Option<EdgeType>)
    ensures
        shape == shape_of(*alpha, *omega),
{
    match (alpha, omega) {
        (EdgeEnd::NonOwning(_), EdgeEnd::Owning(_)) => Some(EdgeType::Arrow),
        (EdgeEnd::NonOwning(_), EdgeEnd::NonOwning(_)) => Some(EdgeType::Link),
        (EdgeEnd::Absent, EdgeEnd::NonOwning(_)) => Some(EdgeType::Loop),
        _ => None,
    }
}

/// Whether the end is absent or leads to a living node.
fn end_is_alive<V, W>(end: &EdgeEnd, head: &BaseHead<V, W>) -> (alive: bool)
    ensures
        alive == head@.end_alive(*end),
{
    match end {
        EdgeEnd::Absent => true,
        _ => end.try_node(head).is_some(),
    }
}

/// An edge in the making: two ends and maybe a weight, set one by one.
pub struct BaseLinkBuilder<W> {
    weight: Option<W>,
    alpha: EdgeEnd,
    omega: EdgeEnd,
}

impl<W> BaseLinkBuilder<W> {
    /// The first end as set so far.
    pub closed spec fn alpha(&self) -> EdgeEnd {
        self.alpha
    }

    /// The second end as set so far.
    pub closed spec fn omega(&self) -> EdgeEnd {
        self.omega
    }

    /// The weight, if one has been set.
    pub closed spec fn weight(&self) -> Option<W> {
        self.weight
    }

    /// A builder with no end and no weight set.
    pub fn new() -> (builder: Self)
        ensures
            builder.alpha() == EdgeEnd::Absent,
            builder.omega() == EdgeEnd::Absent,
            builder.weight() == None::<W>,
    {
        BaseLinkBuilder { weight: None, alpha: EdgeEnd::Absent, omega: EdgeEnd::Absent }
    }

    /// The first end is to own `node`.
    pub fn set_alpha_strong(self, node: BaseNode) -> (builder: Self)
        ensures
            builder.alpha() == EdgeEnd::Owning(node),
            builder.omega() == self.omega(),
            builder.weight() == self.weight(),
    {
        let mut builder = self;
        builder.alpha = EdgeEnd::Owning(node);
        builder
    }

    /// The first end is to observe `node`.
    pub fn set_alpha_weak(self, node: BaseNode) -> (builder: Self)
        ensures
            builder.alpha() == EdgeEnd::NonOwning(node),
            builder.omega() == self.omega(),
            builder.weight() == self.weight(),
    {
        let mut builder = self;
        builder.alpha = EdgeEnd::NonOwning(node);
        builder
    }

    /// The second end is to own `node`.
    pub fn set_omega_strong(self, node: BaseNode) -> (builder: Self)
        ensures
            builder.alpha() == self.alpha(),
            builder.omega() == EdgeEnd::Owning(node),
            builder.weight() == self.weight(),
    {
        let mut builder = self;
        builder.omega = EdgeEnd::Owning(node);
        builder
    }

    /// The second end is to observe `node`.
    pub fn set_omega_weak(self, node: BaseNode) -> (builder: Self)
        ensures
            builder.alpha() == self.alpha(),
            builder.omega() == EdgeEnd::NonOwning(node),
            builder.weight() == self.weight(),
    {
        let mut builder = self;
        builder.omega = EdgeEnd::NonOwning(node);
        builder
    }

    /// The edge is to have `weight`.
    pub fn set_weight(self, weight: W) -> (builder: Self)
        ensures
            builder.alpha() == self.alpha(),
            builder.omega() == self.omega(),
            builder.weight() == Some(weight),
    {
        let mut builder = self;
        builder.weight = Some(weight);
        builder
    }

    /// Whether the ends as set make up an edge of the store `g`: they
    /// make up one of the three shapes, and the nodes at the ends are
    /// alive.
    pub open spec fn buildable<V>(&self, g: GraphView<V, W>) -> bool {
        &&& shape_of(self.alpha(), self.omega()) is Some
        &&& g.end_alive(self.alpha())
        &&& g.end_alive(self.omega())
    }

    /// Builds the edge on the next edge identifier, with the weight
    /// that was set or else the default weight. The maker has one hold
    /// on it; it is registered on no node.
    ///
    /// Builds nothing, and changes nothing, if the ends do not make up
    /// an edge: see [`Self::buildable`].
    pub fn build<V>(self, head: &mut BaseHead<V, W>) -> (link: Option<BaseLink>) where W: Default
        requires
            old(head)@.wf(),
        ensures
            link is Some <==> self.buildable(old(head)@),
            link is None ==> final(head)@ == old(head)@,
            link matches Some(l) ==> {
                &&& l.id == old(head)@.edges.len()
                &&& final(head)@.has_edge(l.edge())
                &&& match self.weight() {
                    Some(w) => final(head)@.edge(l.edge()).weight == w,
                    None => W::default.ensures((), final(head)@.edge(l.edge()).weight),
                }
                &&& final(head)@ == old(head)@.create_edge(
                    shape_of(self.alpha(), self.omega())->0,
                    self.alpha(),
                    self.omega(),
                    final(head)@.edge(l.edge()).weight,
                )
            },
            final(head)@.wf(),
    {
        let shape = shape_of_ends(&self.alpha, &self.omega);
        if shape.is_none() || !end_is_alive(&self.alpha, head) || !end_is_alive(&self.omega, head) {
            return None;
        }
        let weight = match self.weight {
            Some(w) => w,
            None => W::default(),
        };
        let edge = head.push_edge(shape.unwrap(), self.alpha, self.omega, weight);
        Some(BaseLink::of(edge))
    }
}

} // verus!
