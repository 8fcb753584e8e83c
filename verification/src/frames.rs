//! Each operation on the store leaves a consistent store consistent.

use crate::graph::{shape_of, BaseEdge, BaseNode, EdgeEnd, EdgeType, GraphView};
use vstd::prelude::*;

verus! {

impl<V, W> GraphView<V, W> {
    /// `g` has everything that holds anything in `self`: the same
    /// living entities and maybe more, each with at least the holds,
    /// the registered edges and the ends it has in `self`, and rosters
    /// that have lost no entry.
    pub open spec fn grows_to(self, g: Self) -> bool {
        &&& self.nodes.len() <= g.nodes.len()
        &&& self.edges.len() <= g.edges.len()
        &&& forall|i: int|
            0 <= i < self.nodes.len() && (#[trigger] self.nodes[i]) is Some ==> g.nodes[i] is Some
                && g.nodes[i]->0.holds >= self.nodes[i]->0.holds
        &&& forall|i: int, e: BaseEdge|
            0 <= i < self.nodes.len() && self.nodes[i] is Some
                && #[trigger] self.nodes[i]->0.edges.contains(e)
                ==> g.nodes[i]->0.edges.contains(e)
        &&& forall|i: int|
            0 <= i < self.edges.len() && (#[trigger] self.edges[i]) is Some ==> g.edges[i] is Some
                && g.edges[i]->0.holds >= self.edges[i]->0.holds && g.edges[i]->0.alpha
                == self.edges[i]->0.alpha && g.edges[i]->0.omega == self.edges[i]->0.omega
        &&& forall|n: BaseNode| #[trigger]
            self.node_cache.contains(n) ==> g.node_cache.contains(n)
        &&& forall|e: BaseEdge| #[trigger]
            self.edge_cache.contains(e) ==> g.edge_cache.contains(e)
    }

    /// What has a holder keeps it when the store grows.
    pub proof fn lemma_grows_keeps(self, g: Self)
        requires
            self.grows_to(g),
        ensures
            forall|n: BaseNode|
                self.has_node(n) && #[trigger] self.node_kept(n) ==> g.node_kept(n),
            forall|e: BaseEdge|
                self.has_edge(e) && #[trigger] self.edge_kept(e) ==> g.edge_kept(e),
    {
        assert forall|n: BaseNode| self.has_node(n) && #[trigger] self.node_kept(n) implies g.node_kept(
            n,
        ) by {
            if self.node_owned(n) {
                let i = choose|i: int|
                    0 <= i < self.edges.len() && self.edges[i] is Some
                        && #[trigger] self.edges[i]->0.owns(n);
                assert(g.edges[i]->0.owns(n));
            }
        }
        assert forall|e: BaseEdge| self.has_edge(e) && #[trigger] self.edge_kept(e) implies g.edge_kept(
            e,
        ) by {
            if self.edge_listed(e) {
                let i = choose|i: int|
                    0 <= i < self.nodes.len() && self.nodes[i] is Some
                        && #[trigger] self.nodes[i]->0.edges.contains(e);
                assert(g.nodes[i]->0.edges.contains(e));
            }
        }
    }

    /// What is kept in a consistent store is kept, and so is all of
    /// the grown store if whatever is new in it has a holder.
    pub proof fn lemma_grows_wf(self, g: Self)
        requires
            self.wf(),
            self.grows_to(g),
            g.sound(),
            forall|i: int|
                0 <= i < g.nodes.len() && (#[trigger] g.nodes[i]) is Some && !(i < self.nodes.len()
                    && self.nodes[i] is Some) ==> g.node_kept(BaseNode { id: i as usize }),
            forall|i: int|
                0 <= i < g.edges.len() && (#[trigger] g.edges[i]) is Some && !(i < self.edges.len()
                    && self.edges[i] is Some) ==> g.edge_kept(BaseEdge { id: i as usize }),
        ensures
            g.wf(),
    {
        self.lemma_grows_keeps(g);
        assert forall|i: int| 0 <= i < g.nodes.len() && (#[trigger] g.nodes[i]) is Some implies g.node_kept(
            BaseNode { id: i as usize },
        ) by {
            if i < self.nodes.len() && self.nodes[i] is Some {
                assert(self.node_kept(BaseNode { id: i as usize }));
            }
        }
        assert forall|i: int| 0 <= i < g.edges.len() && (#[trigger] g.edges[i]) is Some implies g.edge_kept(
            BaseEdge { id: i as usize },
        ) by {
            if i < self.edges.len() && self.edges[i] is Some {
                assert(self.edge_kept(BaseEdge { id: i as usize }));
            }
        }
    }

    /// Issuing a node identifier leaves a consistent store consistent.
    pub proof fn lemma_reserve_node_wf(self)
        requires
            self.wf(),
            self.nodes.len() < usize::MAX,
        ensures
            self.reserve_node().wf(),
    {
        self.lemma_grows_wf(self.reserve_node());
    }

    /// Issuing an edge identifier leaves a consistent store consistent.
    pub proof fn lemma_reserve_edge_wf(self)
        requires
            self.wf(),
            self.edges.len() < usize::MAX,
        ensures
            self.reserve_edge().wf(),
    {
        self.lemma_grows_wf(self.reserve_edge());
    }

    /// A new node, held by its maker, fits into a consistent store.
    pub proof fn lemma_create_node_wf(self, value: V)
        requires
            self.wf(),
            self.nodes.len() < usize::MAX,
        ensures
            self.create_node(value).wf(),
    {
        let g = self.create_node(value);
        assert forall|i: int, e: BaseEdge|
            0 <= i < g.nodes.len() && g.nodes[i] is Some
                && #[trigger] g.nodes[i]->0.edges.contains(e) implies g.has_edge(e) by {
            if i < self.nodes.len() {
                assert(self.nodes[i]->0.edges.contains(e));
            }
        }
        self.lemma_grows_wf(g);
    }

    /// A new edge, held by its maker, fits into a consistent store if
    /// its ends suit its shape and the node that it owns is alive.
    pub proof fn lemma_create_edge_wf(
        self,
        edge_type: EdgeType,
        alpha: EdgeEnd,
        omega: EdgeEnd,
        weight: W,
    )
        requires
            self.wf(),
            self.edges.len() < usize::MAX,
            shape_of(alpha, omega) == Some(edge_type),
            forall|n: BaseNode|
                alpha == EdgeEnd::Owning(n) || omega == EdgeEnd::Owning(n) ==> self.has_node(n),
        ensures
            self.create_edge(edge_type, alpha, omega, weight).wf(),
    {
        let g = self.create_edge(edge_type, alpha, omega, weight);
        assert forall|i: int, n: BaseNode|
            0 <= i < g.edges.len() && g.edges[i] is Some && #[trigger] g.edges[i]->0.owns(
                n,
            ) implies g.has_node(n) by {
            if i < self.edges.len() {
                assert(self.edges[i]->0.owns(n));
            }
        }
        self.lemma_grows_wf(g);
    }

    /// Registering a living edge on a living node leaves a consistent
    /// store consistent.
    pub proof fn lemma_add_edge_wf(self, n: BaseNode, e: BaseEdge)
        requires
            self.wf(),
            self.has_node(n),
            self.has_edge(e),
        ensures
            self.add_edge(n, e).wf(),
    {
        let g = self.add_edge(n, e);
        let old_edges = self.node(n).edges;
        assert forall|i: int, x: BaseEdge|
            0 <= i < g.nodes.len() && g.nodes[i] is Some
                && #[trigger] g.nodes[i]->0.edges.contains(x) implies g.has_edge(x) by {
            if i == n.id {
                let k = choose|k: int| 0 <= k < old_edges.push(e).len() && old_edges.push(e)[k] == x;
                if k < old_edges.len() {
                    assert(old_edges[k] == x);
                    assert(self.nodes[i]->0.edges.contains(x));
                }
            } else {
                assert(self.nodes[i]->0.edges.contains(x));
            }
        }
        assert forall|i: int, x: BaseEdge|
            0 <= i < self.nodes.len() && self.nodes[i] is Some
                && #[trigger] self.nodes[i]->0.edges.contains(x) implies g.nodes[i]->0.edges.contains(
            x,
        ) by {
            if i == n.id {
                let k = choose|k: int| 0 <= k < old_edges.len() && old_edges[k] == x;
                assert(old_edges.push(e)[k] == x);
            }
        }
        self.lemma_grows_wf(g);
    }

    /// Entering a living node in the roster leaves a consistent store
    /// consistent.
    pub proof fn lemma_cache_node_wf(self, n: BaseNode)
        requires
            self.wf(),
            self.has_node(n),
        ensures
            self.cache_node(n).wf(),
    {
        let g = self.cache_node(n);
        assert forall|m: BaseNode| #[trigger] g.node_cache.contains(m) implies g.has_node(m) by {
            let k = choose|k: int| 0 <= k < g.node_cache.len() && g.node_cache[k] == m;
            if k < self.node_cache.len() {
                assert(self.node_cache[k] == m);
                assert(self.node_cache.contains(m));
            }
        }
        assert forall|m: BaseNode| #[trigger] self.node_cache.contains(m) implies g.node_cache.contains(
            m,
        ) by {
            let k = choose|k: int| 0 <= k < self.node_cache.len() && self.node_cache[k] == m;
            assert(g.node_cache[k] == m);
        }
        self.lemma_grows_wf(g);
    }

    /// Entering a living edge in the roster leaves a consistent store
    /// consistent.
    pub proof fn lemma_cache_edge_wf(self, e: BaseEdge)
        requires
            self.wf(),
            self.has_edge(e),
        ensures
            self.cache_edge(e).wf(),
    {
        let g = self.cache_edge(e);
        assert forall|x: BaseEdge| #[trigger] g.edge_cache.contains(x) implies g.has_edge(x) by {
            let k = choose|k: int| 0 <= k < g.edge_cache.len() && g.edge_cache[k] == x;
            if k < self.edge_cache.len() {
                assert(self.edge_cache[k] == x);
                assert(self.edge_cache.contains(x));
            }
        }
        assert forall|x: BaseEdge| #[trigger] self.edge_cache.contains(x) implies g.edge_cache.contains(
            x,
        ) by {
            let k = choose|k: int| 0 <= k < self.edge_cache.len() && self.edge_cache[k] == x;
            assert(g.edge_cache[k] == x);
        }
        self.lemma_grows_wf(g);
    }

    /// One more hold on a living node leaves a consistent store
    /// consistent.
    pub proof fn lemma_retain_node_wf(self, n: BaseNode)
        requires
            self.wf(),
            self.has_node(n),
        ensures
            self.retain_node(n).wf(),
    {
        let g = self.retain_node(n);
        assert forall|i: int, x: BaseEdge|
            0 <= i < g.nodes.len() && g.nodes[i] is Some
                && #[trigger] g.nodes[i]->0.edges.contains(x) implies g.has_edge(x) by {
            assert(self.nodes[i]->0.edges.contains(x));
        }
        self.lemma_grows_wf(g);
    }

    /// One more hold on a living edge leaves a consistent store
    /// consistent.
    pub proof fn lemma_retain_edge_wf(self, e: BaseEdge)
        requires
            self.wf(),
            self.has_edge(e),
        ensures
            self.retain_edge(e).wf(),
    {
        let g = self.retain_edge(e);
        assert forall|i: int, n: BaseNode|
            0 <= i < g.edges.len() && g.edges[i] is Some && #[trigger] g.edges[i]->0.owns(
                n,
            ) implies g.has_node(n) by {
            assert(self.edges[i]->0.owns(n));
        }
        self.lemma_grows_wf(g);
    }

    /// A new value in a living node leaves a consistent store
    /// consistent.
    pub proof fn lemma_set_value_wf(self, n: BaseNode, value: V)
        requires
            self.wf(),
            self.has_node(n),
        ensures
            self.set_value(n, value).wf(),
    {
        let g = self.set_value(n, value);
        assert forall|i: int, x: BaseEdge|
            0 <= i < g.nodes.len() && g.nodes[i] is Some
                && #[trigger] g.nodes[i]->0.edges.contains(x) implies g.has_edge(x) by {
            assert(self.nodes[i]->0.edges.contains(x));
        }
        self.lemma_grows_wf(g);
    }

    /// A new weight in a living edge leaves a consistent store
    /// consistent.
    pub proof fn lemma_set_weight_wf(self, e: BaseEdge, weight: W)
        requires
            self.wf(),
            self.has_edge(e),
        ensures
            self.set_weight(e, weight).wf(),
    {
        let g = self.set_weight(e, weight);
        assert forall|i: int, n: BaseNode|
            0 <= i < g.edges.len() && g.edges[i] is Some && #[trigger] g.edges[i]->0.owns(
                n,
            ) implies g.has_node(n) by {
            assert(self.edges[i]->0.owns(n));
        }
        self.lemma_grows_wf(g);
    }
}

} // verus!
