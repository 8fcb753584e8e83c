//! Holds: taking one, giving one up, and the walk that destroys what
//! is left without a holder.

use crate::basehead::BaseHead;
use crate::graph::{BaseEdge, BaseNode, EdgeEnd, GraphView};
use vstd::prelude::*;

verus! {

/// Whether `list` has an entry for `edge`.
fn list_has(list: &Vec<BaseEdge>, edge: BaseEdge) -> (found: bool)
    ensures
        found == list@.contains(edge),
{
    let mut k: usize = 0;
    while k < list.len()
        invariant
            k <= list.len(),
            forall|j: int| 0 <= j < k ==> list@[j] != edge,
        decreases list.len() - k,
    {
        if list[k].id == edge.id {
            return true;
        }
        k += 1;
    }
    false
}

/// Whether the end keeps `node` alive.
fn end_owns(end: &EdgeEnd, node: BaseNode) -> (owns: bool)
    ensures
        owns == (*end == EdgeEnd::Owning(node)),
{
    match end {
        EdgeEnd::Owning(target) => target.id == node.id,
        _ => false,
    }
}

impl<V, W> BaseHead<V, W> {
    /// Whether the roster of nodes holds `node`.
    pub fn node_is_cached(&self, node: BaseNode) -> (cached: bool)
        ensures
            cached == self@.node_cached(node),
    {
        let mut k: usize = 0;
        while k < self.node_cache.len()
            invariant
                k <= self.node_cache.len(),
                forall|j: int| 0 <= j < k ==> self.node_cache@[j] != node,
            decreases self.node_cache.len() - k,
        {
            if self.node_cache[k].id == node.id {
                return true;
            }
            k += 1;
        }
        false
    }

    /// Whether the roster of edges holds `edge`.
    pub fn edge_is_cached(&self, edge: BaseEdge) -> (cached: bool)
        ensures
            cached == self@.edge_cached(edge),
    {
        list_has(&self.edge_cache, edge)
    }

    /// Whether some living edge owns `node`.
    pub fn node_is_owned(&self, node: BaseNode) -> (owned: bool)
        ensures
            owned == self@.node_owned(node),
    {
        let mut k: usize = 0;
        while k < self.edges.len()
            invariant
                k <= self.edges.len(),
                forall|j: int|
                    0 <= j < k && self@.edges[j] is Some ==> !(#[trigger] self@.edges[j]->0.owns(
                        node,
                    )),
            decreases self.edges.len() - k,
        {
            if let Some(slot) = &self.edges[k] {
                if end_owns(&slot.alpha, node) || end_owns(&slot.omega, node) {
                    assert(self@.edges[k as int]->0.owns(node));
                    return true;
                }
            }
            k += 1;
        }
        false
    }

    /// Whether some living node has `edge` registered.
    pub fn edge_is_listed(&self, edge: BaseEdge) -> (listed: bool)
        ensures
            listed == self@.edge_listed(edge),
    {
        let mut k: usize = 0;
        while k < self.nodes.len()
            invariant
                k <= self.nodes.len(),
                forall|j: int|
                    0 <= j < k && self@.nodes[j] is Some ==> !(
                    #[trigger] self@.nodes[j]->0.edges.contains(edge)),
            decreases self.nodes.len() - k,
        {
            if let Some(slot) = &self.nodes[k] {
                if list_has(&slot.edges, edge) {
                    assert(self@.nodes[k as int]->0.edges.contains(edge));
                    return true;
                }
            }
            k += 1;
        }
        false
    }

    /// Whether the living node has a holder.
    pub fn node_is_kept(&self, node: BaseNode) -> (kept: bool)
        requires
            self@.has_node(node),
        ensures
            kept == self@.node_kept(node),
    {
        self.nodes[node.id].as_ref().unwrap().holds > 0 || self.node_is_cached(node)
            || self.node_is_owned(node)
    }

    /// Whether the living edge has a holder.
    pub fn edge_is_kept(&self, edge: BaseEdge) -> (kept: bool)
        requires
            self@.has_edge(edge),
        ensures
            kept == self@.edge_kept(edge),
    {
        self.edges[edge.id].as_ref().unwrap().holds > 0 || self.edge_is_cached(edge)
            || self.edge_is_listed(edge)
    }
}

impl<V, W> BaseHead<V, W> {
    /// Destroys whatever is left without a holder, starting from the
    /// entities in `nodes` and `edges`, which alone may lack one.
    ///
    /// For each entity that it looks at, the walk searches the store
    /// for a holder, so a step takes time in proportion to the size of
    /// the store.
    pub(crate) fn sweep(&mut self, nodes: Vec<BaseNode>, edges: Vec<BaseEdge>)
        requires
            old(self)@.sweeping(old(self)@, nodes@, edges@),
        ensures
            final(self)@ == old(self)@.sweep(),
            final(self)@.wf(),
    {
        let mut nodes = nodes;
        let mut edges = edges;
        let ghost from = self@;
        loop
            invariant
                self@.sweeping(from, nodes@, edges@),
            ensures
                self@.sweeping(from, Seq::empty(), Seq::empty()),
            decreases self@.population(), nodes@.len() + edges@.len(),
        {
            let ghost before = self@;
            let ghost nodes_before = nodes@;
            let ghost edges_before = edges@;
            if edges.len() > 0 {
                let popped = edges.pop();
                let edge = popped.unwrap();
                proof {
                    assert forall|x: BaseEdge| edges_before.contains(x) && x != edge implies edges@.contains(
                        x,
                    ) by {
                        let k = choose|k: int| 0 <= k < edges_before.len() && edges_before[k] == x;
                        assert(edges@[k] == x);
                    }
                }
                if self.has_edge(edge) && !self.edge_is_kept(edge) {
                    let slot = self.edges[edge.id].as_ref().unwrap();
                    if let EdgeEnd::Owning(node) = slot.alpha {
                        nodes.push(node);
                    }
                    let ghost nodes_mid = nodes@;
                    if let EdgeEnd::Owning(node) = slot.omega {
                        nodes.push(node);
                    }
                    proof {
                        assert forall|m: BaseNode| nodes_before.contains(m) implies nodes@.contains(
                            m,
                        ) by {
                            let k = choose|k: int|
                                0 <= k < nodes_before.len() && nodes_before[k] == m;
                            assert(nodes_mid[k] == m);
                            assert(nodes@[k] == m);
                        }
                        assert forall|m: BaseNode| before.edge(edge).owns(m) implies nodes@.contains(
                            m,
                        ) by {
                            if before.edge(edge).omega == EdgeEnd::Owning(m) {
                                assert(nodes@[nodes@.len() - 1] == m);
                            } else {
                                assert(nodes_mid[nodes_mid.len() - 1] == m);
                                assert(nodes@[nodes_mid.len() - 1] == m);
                            }
                        }
                        before.lemma_sweep_drop_edge(
                            from,
                            edge,
                            nodes_before,
                            nodes@,
                            edges_before,
                            edges@,
                        );
                    }
                    self.edges[edge.id] = None;
                    assert(self@.edges =~= before.drop_edge(edge).edges);
                } else {
                    proof {
                        before.lemma_sweep_skip_edge(from, edge, nodes_before, edges_before, edges@);
                    }
                }
            } else if nodes.len() > 0 {
                let popped = nodes.pop();
                let node = popped.unwrap();
                proof {
                    assert forall|m: BaseNode| nodes_before.contains(m) && m != node implies nodes@.contains(
                        m,
                    ) by {
                        let k = choose|k: int| 0 <= k < nodes_before.len() && nodes_before[k] == m;
                        assert(nodes@[k] == m);
                    }
                }
                if self.has_node(node) && !self.node_is_kept(node) {
                    let slot = self.nodes[node.id].as_ref().unwrap();
                    let mut k: usize = 0;
                    while k < slot.edges.len()
                        invariant
                            k <= slot.edges.len(),
                            forall|x: BaseEdge| edges_before.contains(x) ==> edges@.contains(x),
                            forall|j: int| 0 <= j < k ==> edges@.contains(slot.edges@[j]),
                        decreases slot.edges.len() - k,
                    {
                        let ghost so_far = edges@;
                        edges.push(slot.edges[k]);
                        proof {
                            assert forall|x: BaseEdge| so_far.contains(x) implies edges@.contains(
                                x,
                            ) by {
                                let j = choose|j: int| 0 <= j < so_far.len() && so_far[j] == x;
                                assert(edges@[j] == x);
                            }
                            assert(edges@[so_far.len() as int] == slot.edges@[k as int]);
                        }
                        k += 1;
                    }
                    proof {
                        before.lemma_sweep_drop_node(
                            from,
                            node,
                            nodes_before,
                            nodes@,
                            edges_before,
                            edges@,
                        );
                    }
                    self.nodes[node.id] = None;
                    assert(self@.nodes =~= before.drop_node(node).nodes);
                } else {
                    proof {
                        before.lemma_sweep_skip_node(from, node, nodes_before, nodes@, edges_before);
                    }
                }
            } else {
                proof {
                    assert(nodes@ =~= Seq::empty());
                    assert(edges@ =~= Seq::empty());
                }
                break ;
            }
        }
        proof {
            self@.lemma_sweep_done(from);
        }
    }
}

impl BaseNode {
    /// Takes one more hold on the node.
    ///
    /// Returns `false`, and changes nothing, if the node is gone or
    /// the number of holds cannot grow.
    pub fn retain<V, W>(&self, head: &mut BaseHead<V, W>) -> (taken: bool)
        requires
            old(head)@.wf(),
        ensures
            taken == (old(head)@.has_node(*self) && old(head)@.node(*self).holds < usize::MAX),
            taken ==> final(head)@ == old(head)@.retain_node(*self),
            !taken ==> final(head)@ == old(head)@,
            final(head)@.wf(),
    {
        if !head.has_node(*self) {
            return false;
        }
        if head.nodes[self.id].as_ref().unwrap().holds == usize::MAX {
            return false;
        }
        let slot = head.nodes[self.id].as_mut().unwrap();
        slot.holds = slot.holds + 1;
        proof {
            assert(head@.nodes =~= old(head)@.retain_node(*self).nodes);
            old(head)@.lemma_retain_node_wf(*self);
        }
        true
    }

    /// Gives up one hold on the node, if there is one to give up.
    ///
    /// If that was the last holder, the node is destroyed, and so is
    /// whatever had its last holder in something destroyed: see
    /// [`GraphView::sweep`].
    pub fn release<V, W>(&self, head: &mut BaseHead<V, W>)
        requires
            old(head)@.wf(),
        ensures
            final(head)@ == old(head)@.unhold_node(*self).sweep(),
            final(head)@.wf(),
    {
        if head.has_node(*self) {
            let slot = head.nodes[self.id].as_mut().unwrap();
            if slot.holds > 0 {
                slot.holds = slot.holds - 1;
            }
        }
        proof {
            assert(head@.nodes =~= old(head)@.unhold_node(*self).nodes);
            assert(head@.edges =~= old(head)@.unhold_node(*self).edges);
            old(head)@.lemma_sweep_from_node(*self);
        }
        let mut nodes: Vec<BaseNode> = Vec::new();
        nodes.push(*self);
        assert(nodes@ =~= seq![*self]);
        head.sweep(nodes, Vec::new());
    }
}

impl BaseEdge {
    /// Takes one more hold on the edge.
    ///
    /// Returns `false`, and changes nothing, if the edge is gone or
    /// the number of holds cannot grow.
    pub fn retain<V, W>(&self, head: &mut BaseHead<V, W>) -> (taken: bool)
        requires
            old(head)@.wf(),
        ensures
            taken == (old(head)@.has_edge(*self) && old(head)@.edge(*self).holds < usize::MAX),
            taken ==> final(head)@ == old(head)@.retain_edge(*self),
            !taken ==> final(head)@ == old(head)@,
            final(head)@.wf(),
    {
        if !head.has_edge(*self) {
            return false;
        }
        if head.edges[self.id].as_ref().unwrap().holds == usize::MAX {
            return false;
        }
        let slot = head.edges[self.id].as_mut().unwrap();
        slot.holds = slot.holds + 1;
        proof {
            assert(head@.edges =~= old(head)@.retain_edge(*self).edges);
            old(head)@.lemma_retain_edge_wf(*self);
        }
        true
    }

    /// Gives up one hold on the edge, if there is one to give up.
    ///
    /// If that was the last holder, the edge is destroyed, and so is
    /// whatever had its last holder in something destroyed: see
    /// [`GraphView::sweep`].
    pub fn release<V, W>(&self, head: &mut BaseHead<V, W>)
        requires
            old(head)@.wf(),
        ensures
            final(head)@ == old(head)@.unhold_edge(*self).sweep(),
            final(head)@.wf(),
    {
        if head.has_edge(*self) {
            let slot = head.edges[self.id].as_mut().unwrap();
            if slot.holds > 0 {
                slot.holds = slot.holds - 1;
            }
        }
        proof {
            assert(head@.nodes =~= old(head)@.unhold_edge(*self).nodes);
            assert(head@.edges =~= old(head)@.unhold_edge(*self).edges);
            old(head)@.lemma_sweep_from_edge(*self);
        }
        let mut edges: Vec<BaseEdge> = Vec::new();
        edges.push(*self);
        assert(edges@ =~= seq![*self]);
        head.sweep(Vec::new(), edges);
    }
}

} // verus!
