//! Nodes: their value and the edges registered on them.

use crate::basehead::BaseHead;
use crate::graph::{BaseEdge, BaseNode};
use crate::iterators::{IterEdges, IterNodes};
use crate::traits::{Head, HeadEdgeCache, HeadNodeCache, Node, NodeCache, NodeEdgeCache};
use vstd::prelude::*;

verus! {

impl Node for BaseNode {
    open spec fn node(&self) -> BaseNode {
        *self
    }

    fn alpha_node<V, W>(value: V) -> (made: (BaseHead<V, W>, Self)) {
        let mut head: BaseHead<V, W> = BaseHead::new();
        let node = head.push_node(value);
        (head, node)
    }

    fn new<V, W>(value: V, head: &mut BaseHead<V, W>) -> (node: Self) {
        head.push_node(value)
    }

    fn get_value<'a, V, W>(&self, head: &'a BaseHead<V, W>) -> (value: &'a V) {
        &head.nodes[self.id].as_ref().unwrap().value
    }

    fn get_value_mut<'a, V, W>(&self, head: &'a mut BaseHead<V, W>) -> (value: &'a mut V) {
        proof {
            assert forall|after: BaseHead<V, W>| head.differs_in_value(after, *self) implies {
                &&& #[trigger] after@ == head@.set_value(
                    *self,
                    after.nodes@[self.id as int]->0.value,
                )
                &&& after@.wf()
            } by {
                head.lemma_value_changed(after, *self);
            }
        }
        &mut head.nodes[self.id].as_mut().unwrap().value
    }

    fn get_id(&self) -> (id: usize) {
        self.id
    }

    fn get_self<V, W>(&self, head: &BaseHead<V, W>) -> (me: Option<Self>) {
        if head.has_node(*self) {
            Some(*self)
        } else {
            None
        }
    }

    fn add_edge<V, W>(&self, edge: BaseEdge, head: &mut BaseHead<V, W>) -> (same: BaseEdge) {
        let slot = head.nodes[self.id].as_mut().unwrap();
        slot.edges.push(edge);
        proof {
            assert(head@.nodes =~= old(head)@.add_edge(*self, edge).nodes);
            old(head)@.lemma_add_edge_wf(*self, edge);
        }
        edge
    }

    fn len_edges<V, W>(&self, head: &BaseHead<V, W>) -> (len: usize) {
        if head.has_node(*self) {
            head.nodes[self.id].as_ref().unwrap().edges.len()
        } else {
            0
        }
    }

    fn get_edge<V, W>(&self, index: usize, head: &BaseHead<V, W>) -> (edge: Option<BaseEdge>) {
        if !head.has_node(*self) {
            return None;
        }
        let slot = head.nodes[self.id].as_ref().unwrap();
        if index < slot.edges.len() {
            Some(slot.edges[index])
        } else {
            None
        }
    }

    fn get_edge_by_id<V, W>(&self, id: usize, head: &BaseHead<V, W>) -> (edge: Option<BaseEdge>) {
        let mut walk = self.iter_edges();
        let ghost all = head@.edges_of(*self);
        loop
            invariant
                walk@.node == *self,
                !walk@.finished,
                walk@.position <= all.len(),
                all == head@.edges_of(*self),
                forall|j: int| 0 <= j < walk@.position ==> all[j] != (BaseEdge { id }),
            decreases all.len() - walk@.position,
        {
            match walk.next(head) {
                Some(e) => {
                    if e.id == id {
                        assert(all[walk@.position - 1] == e);
                        return Some(e);
                    }
                },
                None => {
                    return None;
                },
            }
        }
    }

    fn iter_edges(&self) -> (walk: IterEdges) {
        IterEdges::new(*self)
    }

    fn iter_heads(&self) -> (walk: IterNodes) {
        IterNodes::new(*self, true)
    }

    fn iter_tails(&self) -> (walk: IterNodes) {
        IterNodes::new(*self, false)
    }
}

impl NodeCache for BaseNode {
    fn cache_node<V, W>(&self, head: &mut BaseHead<V, W>) {
        head.cache_node(*self);
    }

    fn get_node_cache<'a, V, W>(&self, head: &'a BaseHead<V, W>) -> (roster: &'a Vec<BaseNode>) {
        head.get_node_cache()
    }
}

impl NodeEdgeCache for BaseNode {
    fn get_edge_cache<'a, V, W>(&self, head: &'a BaseHead<V, W>) -> (roster: &'a Vec<BaseEdge>) {
        head.get_edge_cache()
    }
}

} // verus!
