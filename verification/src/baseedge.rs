//! Edges: the three shapes, how their ends resolve, and their weight.

use crate::basehead::BaseHead;
use crate::graph::{BaseEdge, BaseNode, EdgeEnd, EdgePos, EdgeType};
use crate::traits::{
    Edge, EdgeArrow, EdgeCache, EdgeLink, EdgeLoop, EdgeWeighted, HeadEdgeCache,
};
use vstd::prelude::*;

verus! {

impl EdgeEnd {
    /// The node that the end leads to, if it is still alive.
    pub fn try_node<V, W>(&self, head: &BaseHead<V, W>) -> (node: Option<BaseNode>)
        ensures
            node == head@.resolve(*self),
    {
        match self {
            EdgeEnd::Absent => None,
            EdgeEnd::NonOwning(target) => if head.has_node(*target) {
                Some(*target)
            } else {
                None
            },
            EdgeEnd::Owning(target) => if head.has_node(*target) {
                Some(*target)
            } else {
                None
            },
        }
    }

    /// The node that the end leads to, if the end observes it and it
    /// is still alive.
    pub fn weak_node<V, W>(&self, head: &BaseHead<V, W>) -> (node: Option<BaseNode>)
        ensures
            node == if *self is NonOwning {
                head@.resolve(*self)
            } else {
                None
            },
    {
        match self {
            EdgeEnd::NonOwning(_) => self.try_node(head),
            _ => None,
        }
    }

    /// The node that the end leads to, if the end owns it.
    pub fn strong_node<V, W>(&self, head: &BaseHead<V, W>) -> (node: Option<BaseNode>)
        ensures
            node == if *self is Owning {
                head@.resolve(*self)
            } else {
                None
            },
    {
        match self {
            EdgeEnd::Owning(_) => self.try_node(head),
            _ => None,
        }
    }

    /// Whether the end leads to the living node with identifier
    /// `node_id`.
    pub fn leads_to<V, W>(&self, node_id: usize, head: &BaseHead<V, W>) -> (hit: bool)
        ensures
            hit == head@.leads_to(*self, node_id),
    {
        match self.try_node(head) {
            Some(node) => node.id == node_id,
            None => false,
        }
    }
}

impl Edge for BaseEdge {
    open spec fn edge(&self) -> BaseEdge {
        *self
    }

    fn get_id(&self) -> (id: usize) {
        self.id
    }

    fn get_self<V, W>(&self, head: &BaseHead<V, W>) -> (me: Option<Self>) {
        if head.has_edge(*self) {
            Some(*self)
        } else {
            None
        }
    }

    fn get_edge_type<V, W>(&self, head: &BaseHead<V, W>) -> (shape: EdgeType) {
        head.edges[self.id].as_ref().unwrap().edge_type
    }

    fn try_head_node<V, W>(&self, node_id: usize, head: &BaseHead<V, W>) -> (node: Option<
        BaseNode,
    >) {
        if !head.has_edge(*self) {
            return None;
        }
        let slot = head.edges[self.id].as_ref().unwrap();
        match slot.edge_type {
            EdgeType::Arrow => {
                if slot.alpha.leads_to(node_id, head) {
                    return slot.omega.try_node(head);
                }
            },
            EdgeType::Link => {
                if slot.alpha.leads_to(node_id, head) {
                    return slot.omega.try_node(head);
                }
                if slot.omega.leads_to(node_id, head) {
                    return slot.alpha.try_node(head);
                }
            },
            EdgeType::Loop => {
                if slot.omega.leads_to(node_id, head) {
                    return slot.omega.try_node(head);
                }
            },
        }
        None
    }

    fn try_tail_node<V, W>(&self, node_id: usize, head: &BaseHead<V, W>) -> (node: Option<
        BaseNode,
    >) {
        if !head.has_edge(*self) {
            return None;
        }
        let slot = head.edges[self.id].as_ref().unwrap();
        match slot.edge_type {
            EdgeType::Arrow => {
                if slot.omega.leads_to(node_id, head) {
                    return slot.alpha.try_node(head);
                }
            },
            EdgeType::Link => {
                if slot.alpha.leads_to(node_id, head) {
                    return slot.omega.try_node(head);
                }
                if slot.omega.leads_to(node_id, head) {
                    return slot.alpha.try_node(head);
                }
            },
            EdgeType::Loop => {
                if slot.omega.leads_to(node_id, head) {
                    return slot.omega.try_node(head);
                }
            },
        }
        None
    }

    fn edge_end<V, W>(&self, node_id: usize, head: &BaseHead<V, W>) -> (pos: EdgePos) {
        if !head.has_edge(*self) {
            return EdgePos::Outside;
        }
        let slot = head.edges[self.id].as_ref().unwrap();
        match slot.edge_type {
            EdgeType::Arrow => {
                if slot.alpha.leads_to(node_id, head) {
                    EdgePos::Tail
                } else if slot.omega.leads_to(node_id, head) {
                    EdgePos::Head
                } else {
                    EdgePos::Outside
                }
            },
            EdgeType::Link => {
                if slot.alpha.leads_to(node_id, head) || slot.omega.leads_to(node_id, head) {
                    EdgePos::Link
                } else {
                    EdgePos::Outside
                }
            },
            EdgeType::Loop => {
                if slot.omega.leads_to(node_id, head) {
                    EdgePos::Loop
                } else {
                    EdgePos::Outside
                }
            },
        }
    }
}

impl EdgeArrow for BaseEdge {
    fn new_arrow<V, W: Default>(
        tail: BaseNode,
        head_node: BaseNode,
        head: &mut BaseHead<V, W>,
    ) -> (arrow: Self) {
        let weight = W::default();
        head.push_edge(EdgeType::Arrow, EdgeEnd::NonOwning(tail), EdgeEnd::Owning(head_node), weight)
    }

    fn head_node<V, W>(&self, head: &BaseHead<V, W>) -> (node: Option<BaseNode>) {
        if !head.has_edge(*self) {
            return None;
        }
        let slot = head.edges[self.id].as_ref().unwrap();
        match slot.edge_type {
            EdgeType::Arrow => slot.omega.try_node(head),
            _ => None,
        }
    }

    fn tail_node<V, W>(&self, head: &BaseHead<V, W>) -> (node: Option<BaseNode>) {
        if !head.has_edge(*self) {
            return None;
        }
        let slot = head.edges[self.id].as_ref().unwrap();
        match slot.edge_type {
            EdgeType::Arrow => slot.alpha.try_node(head),
            _ => None,
        }
    }
}

impl EdgeLink for BaseEdge {
    fn new_link<V, W: Default>(left: BaseNode, right: BaseNode, head: &mut BaseHead<V, W>) -> (link:
        Self) {
        let weight = W::default();
        head.push_edge(EdgeType::Link, EdgeEnd::NonOwning(left), EdgeEnd::NonOwning(right), weight)
    }

    fn left_node<V, W>(&self, head: &BaseHead<V, W>) -> (node: Option<BaseNode>) {
        if !head.has_edge(*self) {
            return None;
        }
        let slot = head.edges[self.id].as_ref().unwrap();
        match slot.edge_type {
            EdgeType::Link => slot.alpha.try_node(head),
            _ => None,
        }
    }

    fn right_node<V, W>(&self, head: &BaseHead<V, W>) -> (node: Option<BaseNode>) {
        if !head.has_edge(*self) {
            return None;
        }
        let slot = head.edges[self.id].as_ref().unwrap();
        match slot.edge_type {
            EdgeType::Link => slot.omega.try_node(head),
            _ => None,
        }
    }
}

impl EdgeLoop for BaseEdge {
    fn new_loop<V, W: Default>(node: BaseNode, head: &mut BaseHead<V, W>) -> (edge: Self) {
        let weight = W::default();
        head.push_edge(EdgeType::Loop, EdgeEnd::Absent, EdgeEnd::NonOwning(node), weight)
    }

    fn loop_node<V, W>(&self, head: &BaseHead<V, W>) -> (node: Option<BaseNode>) {
        if !head.has_edge(*self) {
            return None;
        }
        let slot = head.edges[self.id].as_ref().unwrap();
        match slot.edge_type {
            EdgeType::Loop => slot.omega.try_node(head),
            _ => None,
        }
    }
}

impl EdgeWeighted for BaseEdge {
    fn get_weight<'a, V, W>(&self, head: &'a BaseHead<V, W>) -> (weight: &'a W) {
        &head.edges[self.id].as_ref().unwrap().weight
    }

    fn set_weight<'a, V, W>(&self, value: W, head: &'a mut BaseHead<V, W>) -> (weight: &'a W) {
        let slot = head.edges[self.id].as_mut().unwrap();
        slot.weight = value;
        proof {
            assert(head@.edges =~= old(head)@.set_weight(*self, value).edges);
            old(head)@.lemma_set_weight_wf(*self, value);
        }
        &head.edges[self.id].as_ref().unwrap().weight
    }

    fn get_weight_mut<'a, V, W>(&self, head: &'a mut BaseHead<V, W>) -> (weight: &'a mut W) {
        proof {
            assert forall|after: BaseHead<V, W>| head.differs_in_weight(after, *self) implies {
                &&& #[trigger] after@ == head@.set_weight(
                    *self,
                    after.edges@[self.id as int]->0.weight,
                )
                &&& after@.wf()
            } by {
                head.lemma_weight_changed(after, *self);
            }
        }
        &mut head.edges[self.id].as_mut().unwrap().weight
    }
}

impl EdgeCache for BaseEdge {
    fn cache_edge<V, W>(&self, head: &mut BaseHead<V, W>) {
        head.cache_edge(*self);
    }

    fn get_edge_cache<'a, V, W>(&self, head: &'a BaseHead<V, W>) -> (roster: &'a Vec<BaseEdge>) {
        head.get_edge_cache()
    }
}

} // verus!
