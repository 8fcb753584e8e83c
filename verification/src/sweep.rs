//! Destruction: what leaves the store when a hold is given up.
//!
//! An entity that loses its last holder is destroyed. With it go the
//! references it held, so the entities it kept alive are looked at in
//! turn. The walk ends when everything that is left has a holder.

use crate::graph::{BaseEdge, BaseNode, GraphView};
use vstd::prelude::*;

verus! {

/// The number of filled slots.
pub open spec fn live<T>(slots: Seq<Option<T>>) -> nat
    decreases slots.len(),
{
    if slots.len() == 0 {
        0
    } else {
        live(slots.drop_last()) + if slots.last() is Some {
            1nat
        } else {
            0nat
        }
    }
}

/// Emptying a filled slot leaves one filled slot fewer.
pub proof fn lemma_live_emptied<T>(slots: Seq<Option<T>>, i: int)
    requires
        0 <= i < slots.len(),
        slots[i] is Some,
    ensures
        live(slots.update(i, None)) + 1 == live(slots),
    decreases slots.len(),
{
    let after = slots.update(i, None);
    if i == slots.len() - 1 {
        assert(after.drop_last() =~= slots.drop_last());
    } else {
        lemma_live_emptied(slots.drop_last(), i);
        assert(after.drop_last() =~= slots.drop_last().update(i, None));
    }
}

impl<V, W> GraphView<V, W> {
    /// The number of living nodes and edges.
    pub open spec fn population(self) -> nat {
        live(self.nodes) + live(self.edges)
    }

    /// The store without the node `n`.
    pub open spec fn drop_node(self, n: BaseNode) -> Self {
        GraphView { nodes: self.nodes.update(n.id as int, None), ..self }
    }

    /// The store without the edge `e`.
    pub open spec fn drop_edge(self, e: BaseEdge) -> Self {
        GraphView { edges: self.edges.update(e.id as int, None), ..self }
    }

    /// The store is sound, and whatever is alive has a holder or is
    /// among the entities that are yet to be looked at.
    pub open spec fn settled_but(self, nodes: Seq<BaseNode>, edges: Seq<BaseEdge>) -> bool {
        &&& self.sound()
        &&& forall|i: int|
            0 <= i < self.nodes.len() && (#[trigger] self.nodes[i]) is Some ==> self.node_kept(
                BaseNode { id: i as usize },
            ) || nodes.contains(BaseNode { id: i as usize })
        &&& forall|i: int|
            0 <= i < self.edges.len() && (#[trigger] self.edges[i]) is Some ==> self.edge_kept(
                BaseEdge { id: i as usize },
            ) || edges.contains(BaseEdge { id: i as usize })
    }

    /// Every slot is as it is in `from`, or empty.
    pub open spec fn remains_of(self, from: Self) -> bool {
        &&& self.nodes.len() == from.nodes.len()
        &&& self.edges.len() == from.edges.len()
        &&& self.node_cache == from.node_cache
        &&& self.edge_cache == from.edge_cache
        &&& forall|i: int|
            0 <= i < self.nodes.len() && (#[trigger] self.nodes[i]) is Some ==> self.nodes[i]
                == from.nodes[i]
        &&& forall|i: int|
            0 <= i < self.edges.len() && (#[trigger] self.edges[i]) is Some ==> self.edges[i]
                == from.edges[i]
    }

    /// Whatever part of `from` sustains itself is still alive.
    pub open spec fn spares(self, from: Self) -> bool {
        forall|ns: Set<BaseNode>, es: Set<BaseEdge>| #[trigger]
            from.sustains(ns, es) ==> (forall|n: BaseNode| ns.contains(n) ==> self.has_node(n))
                && (forall|e: BaseEdge| es.contains(e) ==> self.has_edge(e))
    }

    /// The state of a walk that started from `from`: nothing but
    /// destruction has happened, nothing that sustains itself has been
    /// destroyed, and only the entities in `nodes` and `edges` may be
    /// left without a holder.
    pub open spec fn sweeping(self, from: Self, nodes: Seq<BaseNode>, edges: Seq<BaseEdge>) -> bool {
        &&& self.settled_but(nodes, edges)
        &&& self.remains_of(from)
        &&& self.spares(from)
    }

    /// A walk may start where a hold on `n` has just been given up:
    /// only `n` can be without a holder.
    pub proof fn lemma_sweep_from_node(self, n: BaseNode)
        requires
            self.wf(),
        ensures
            self.unhold_node(n).sweeping(self.unhold_node(n), seq![n], Seq::empty()),
    {
        let g = self.unhold_node(n);
        assert(seq![n][0] == n);
        if self.has_node(n) && self.node(n).holds > 0 {
            assert forall|i: int, x: BaseEdge|
                0 <= i < g.nodes.len() && g.nodes[i] is Some
                    && #[trigger] g.nodes[i]->0.edges.contains(x) implies g.has_edge(x) by {
                assert(self.nodes[i]->0.edges.contains(x));
            }
            assert forall|i: int| 0 <= i < g.nodes.len() && (#[trigger] g.nodes[i]) is Some implies g.node_kept(
                BaseNode { id: i as usize },
            ) || seq![n].contains(BaseNode { id: i as usize }) by {
                if i != n.id {
                    let m = BaseNode { id: i as usize };
                    assert(self.nodes[i] is Some);
                    assert(self.node_kept(m));
                    if self.node_owned(m) {
                        let j = choose|j: int|
                            0 <= j < self.edges.len() && self.edges[j] is Some
                                && #[trigger] self.edges[j]->0.owns(m);
                        assert(g.edges[j]->0.owns(m));
                    }
                }
            }
            assert forall|i: int| 0 <= i < g.edges.len() && (#[trigger] g.edges[i]) is Some implies g.edge_kept(
                BaseEdge { id: i as usize },
            ) by {
                let e = BaseEdge { id: i as usize };
                assert(self.edges[i] is Some);
                assert(self.edge_kept(e));
                if self.edge_listed(e) {
                    let j = choose|j: int|
                        0 <= j < self.nodes.len() && self.nodes[j] is Some
                            && #[trigger] self.nodes[j]->0.edges.contains(e);
                    assert(g.nodes[j]->0.edges.contains(e));
                }
            }
        }
    }

    /// A walk may start where a hold on `e` has just been given up:
    /// only `e` can be without a holder.
    pub proof fn lemma_sweep_from_edge(self, e: BaseEdge)
        requires
            self.wf(),
        ensures
            self.unhold_edge(e).sweeping(self.unhold_edge(e), Seq::empty(), seq![e]),
    {
        let g = self.unhold_edge(e);
        assert(seq![e][0] == e);
        if self.has_edge(e) && self.edge(e).holds > 0 {
            assert forall|i: int, n: BaseNode|
                0 <= i < g.edges.len() && g.edges[i] is Some && #[trigger] g.edges[i]->0.owns(
                    n,
                ) implies g.has_node(n) by {
                assert(self.edges[i]->0.owns(n));
            }
            assert forall|i: int| 0 <= i < g.nodes.len() && (#[trigger] g.nodes[i]) is Some implies g.node_kept(
                BaseNode { id: i as usize },
            ) by {
                let m = BaseNode { id: i as usize };
                assert(self.nodes[i] is Some);
                assert(self.node_kept(m));
                if self.node_owned(m) {
                    let j = choose|j: int|
                        0 <= j < self.edges.len() && self.edges[j] is Some
                            && #[trigger] self.edges[j]->0.owns(m);
                    assert(g.edges[j]->0.owns(m));
                }
            }
            assert forall|i: int| 0 <= i < g.edges.len() && (#[trigger] g.edges[i]) is Some implies g.edge_kept(
                BaseEdge { id: i as usize },
            ) || seq![e].contains(BaseEdge { id: i as usize }) by {
                if i != e.id {
                    let x = BaseEdge { id: i as usize };
                    assert(self.edges[i] is Some);
                    assert(self.edge_kept(x));
                    if self.edge_listed(x) {
                        let j = choose|j: int|
                            0 <= j < self.nodes.len() && self.nodes[j] is Some
                                && #[trigger] self.nodes[j]->0.edges.contains(x);
                        assert(g.nodes[j]->0.edges.contains(x));
                    }
                }
            }
        }
    }

    /// A node that has been looked at and found gone or held need not
    /// be looked at again.
    pub proof fn lemma_sweep_skip_node(
        self,
        from: Self,
        n: BaseNode,
        nodes: Seq<BaseNode>,
        rest: Seq<BaseNode>,
        edges: Seq<BaseEdge>,
    )
        requires
            self.sweeping(from, nodes, edges),
            !self.has_node(n) || self.node_kept(n),
            forall|m: BaseNode| nodes.contains(m) && m != n ==> rest.contains(m),
        ensures
            self.sweeping(from, rest, edges),
    {
    }

    /// An edge that has been looked at and found gone or held need not
    /// be looked at again.
    pub proof fn lemma_sweep_skip_edge(
        self,
        from: Self,
        e: BaseEdge,
        nodes: Seq<BaseNode>,
        edges: Seq<BaseEdge>,
        rest: Seq<BaseEdge>,
    )
        requires
            self.sweeping(from, nodes, edges),
            !self.has_edge(e) || self.edge_kept(e),
            forall|x: BaseEdge| edges.contains(x) && x != e ==> rest.contains(x),
        ensures
            self.sweeping(from, nodes, rest),
    {
    }

    /// Destroying a node without a holder is a step of the walk, once
    /// the edges registered on it are to be looked at.
    pub proof fn lemma_sweep_drop_node(
        self,
        from: Self,
        n: BaseNode,
        nodes: Seq<BaseNode>,
        rest: Seq<BaseNode>,
        edges: Seq<BaseEdge>,
        more: Seq<BaseEdge>,
    )
        requires
            self.sweeping(from, nodes, edges),
            self.has_node(n),
            !self.node_kept(n),
            forall|m: BaseNode| nodes.contains(m) && m != n ==> rest.contains(m),
            forall|x: BaseEdge| edges.contains(x) ==> more.contains(x),
            forall|x: BaseEdge| self.node(n).edges.contains(x) ==> more.contains(x),
        ensures
            self.drop_node(n).sweeping(from, rest, more),
            self.drop_node(n).population() + 1 == self.population(),
    {
        let g = self.drop_node(n);
        lemma_live_emptied(self.nodes, n.id as int);
        // sound
        assert forall|i: int, m: BaseNode|
            0 <= i < g.edges.len() && g.edges[i] is Some && #[trigger] g.edges[i]->0.owns(
                m,
            ) implies g.has_node(m) by {
            assert(self.edges[i]->0.owns(m));
            assert(m != n);
        }
        assert forall|i: int, x: BaseEdge|
            0 <= i < g.nodes.len() && g.nodes[i] is Some
                && #[trigger] g.nodes[i]->0.edges.contains(x) implies g.has_edge(x) by {
            assert(self.nodes[i]->0.edges.contains(x));
        }
        // holders
        assert forall|i: int| 0 <= i < g.nodes.len() && (#[trigger] g.nodes[i]) is Some implies g.node_kept(
            BaseNode { id: i as usize },
        ) || rest.contains(BaseNode { id: i as usize }) by {
            let m = BaseNode { id: i as usize };
            assert(self.nodes[i] is Some);
            if self.node_kept(m) {
                if self.node_owned(m) {
                    let j = choose|j: int|
                        0 <= j < self.edges.len() && self.edges[j] is Some
                            && #[trigger] self.edges[j]->0.owns(m);
                    assert(g.edges[j]->0.owns(m));
                }
            }
        }
        assert forall|i: int| 0 <= i < g.edges.len() && (#[trigger] g.edges[i]) is Some implies g.edge_kept(
            BaseEdge { id: i as usize },
        ) || more.contains(BaseEdge { id: i as usize }) by {
            let x = BaseEdge { id: i as usize };
            assert(self.edges[i] is Some);
            if self.edge_kept(x) {
                if self.edge_listed(x) && !(self.edge(x).holds > 0 || self.edge_cached(x)) {
                    let j = choose|j: int|
                        0 <= j < self.nodes.len() && self.nodes[j] is Some
                            && #[trigger] self.nodes[j]->0.edges.contains(x);
                    if j != n.id {
                        assert(g.nodes[j]->0.edges.contains(x));
                    }
                }
            }
        }
        // nothing that sustains itself is lost
        assert forall|ns: Set<BaseNode>, es: Set<BaseEdge>| #[trigger]
            from.sustains(ns, es) implies (forall|m: BaseNode| ns.contains(m) ==> g.has_node(m))
            && (forall|x: BaseEdge| es.contains(x) ==> g.has_edge(x)) by {
            if ns.contains(n) {
                assert(from.node(n) == self.node(n));
                if from.node_owned_within(n, es) {
                    let j = choose|j: int|
                        0 <= j < from.edges.len() && from.edges[j] is Some && es.contains(
                            BaseEdge { id: j as usize },
                        ) && #[trigger] from.edges[j]->0.owns(n);
                    assert(self.has_edge(BaseEdge { id: j as usize }));
                    assert(self.edges[j]->0.owns(n));
                }
                assert(self.node_kept(n));
            }
        }
    }

    /// Destroying an edge without a holder is a step of the walk, once
    /// the nodes it owns are to be looked at.
    pub proof fn lemma_sweep_drop_edge(
        self,
        from: Self,
        e: BaseEdge,
        nodes: Seq<BaseNode>,
        more: Seq<BaseNode>,
        edges: Seq<BaseEdge>,
        rest: Seq<BaseEdge>,
    )
        requires
            self.sweeping(from, nodes, edges),
            self.has_edge(e),
            !self.edge_kept(e),
            forall|x: BaseEdge| edges.contains(x) && x != e ==> rest.contains(x),
            forall|m: BaseNode| nodes.contains(m) ==> more.contains(m),
            forall|m: BaseNode| self.edge(e).owns(m) ==> more.contains(m),
        ensures
            self.drop_edge(e).sweeping(from, more, rest),
            self.drop_edge(e).population() + 1 == self.population(),
    {
        let g = self.drop_edge(e);
        lemma_live_emptied(self.edges, e.id as int);
        // sound
        assert forall|i: int, m: BaseNode|
            0 <= i < g.edges.len() && g.edges[i] is Some && #[trigger] g.edges[i]->0.owns(
                m,
            ) implies g.has_node(m) by {
            assert(self.edges[i]->0.owns(m));
        }
        assert forall|i: int, x: BaseEdge|
            0 <= i < g.nodes.len() && g.nodes[i] is Some
                && #[trigger] g.nodes[i]->0.edges.contains(x) implies g.has_edge(x) by {
            assert(self.nodes[i]->0.edges.contains(x));
            assert(self.has_edge(x));
            assert(self.edge_listed(x));
            assert(x != e);
        }
        assert forall|x: BaseEdge| #[trigger] g.edge_cache.contains(x) implies g.has_edge(x) by {
            assert(self.has_edge(x));
            assert(x != e);
        }
        // holders
        assert forall|i: int| 0 <= i < g.nodes.len() && (#[trigger] g.nodes[i]) is Some implies g.node_kept(
            BaseNode { id: i as usize },
        ) || more.contains(BaseNode { id: i as usize }) by {
            let m = BaseNode { id: i as usize };
            assert(self.nodes[i] is Some);
            if self.node_kept(m) {
                if self.node_owned(m) && !(self.node(m).holds > 0 || self.node_cached(m)) {
                    let j = choose|j: int|
                        0 <= j < self.edges.len() && self.edges[j] is Some
                            && #[trigger] self.edges[j]->0.owns(m);
                    if j != e.id {
                        assert(g.edges[j]->0.owns(m));
                    }
                }
            }
        }
        assert forall|i: int| 0 <= i < g.edges.len() && (#[trigger] g.edges[i]) is Some implies g.edge_kept(
            BaseEdge { id: i as usize },
        ) || rest.contains(BaseEdge { id: i as usize }) by {
            let x = BaseEdge { id: i as usize };
            assert(self.edges[i] is Some);
            if self.edge_kept(x) {
                if self.edge_listed(x) {
                    let j = choose|j: int|
                        0 <= j < self.nodes.len() && self.nodes[j] is Some
                            && #[trigger] self.nodes[j]->0.edges.contains(x);
                    assert(g.nodes[j]->0.edges.contains(x));
                }
            }
        }
        // nothing that sustains itself is lost
        assert forall|ns: Set<BaseNode>, es: Set<BaseEdge>| #[trigger]
            from.sustains(ns, es) implies (forall|m: BaseNode| ns.contains(m) ==> g.has_node(m))
            && (forall|x: BaseEdge| es.contains(x) ==> g.has_edge(x)) by {
            if es.contains(e) {
                assert(from.edge(e) == self.edge(e));
                if from.edge_listed_within(e, ns) {
                    let j = choose|j: int|
                        0 <= j < from.nodes.len() && from.nodes[j] is Some && ns.contains(
                            BaseNode { id: j as usize },
                        ) && #[trigger] from.nodes[j]->0.edges.contains(e);
                    assert(self.has_node(BaseNode { id: j as usize }));
                    assert(self.nodes[j]->0.edges.contains(e));
                }
                assert(self.edge_kept(e));
            }
        }
    }

    /// When nothing is left to look at, the walk has reached the store
    /// that [`Self::sweep`] describes, and that store is consistent.
    pub proof fn lemma_sweep_done(self, from: Self)
        requires
            self.sweeping(from, Seq::empty(), Seq::empty()),
        ensures
            self.wf(),
            self == from.sweep(),
    {
        assert forall|i: int| 0 <= i < self.nodes.len() && (#[trigger] self.nodes[i]) is Some implies self.node_kept(
            BaseNode { id: i as usize },
        ) by {
            assert(!Seq::<BaseNode>::empty().contains(BaseNode { id: i as usize }));
        }
        assert forall|i: int| 0 <= i < self.edges.len() && (#[trigger] self.edges[i]) is Some implies self.edge_kept(
            BaseEdge { id: i as usize },
        ) by {
            assert(!Seq::<BaseEdge>::empty().contains(BaseEdge { id: i as usize }));
        }
        self.lemma_wf_sustains_itself(from);
        let swept = from.sweep();
        assert forall|i: int| 0 <= i < self.nodes.len() implies self.nodes[i] == swept.nodes[i] by {
            let n = BaseNode { id: i as usize };
            if self.nodes[i] is Some {
                assert(self.living_nodes().contains(n));
            } else {
                if from.node_survives(n) {
                    let (ns, es) = choose|ns: Set<BaseNode>, es: Set<BaseEdge>| #[trigger]
                        from.sustains(ns, es) && ns.contains(n);
                    assert(self.has_node(n));
                }
            }
        }
        assert forall|i: int| 0 <= i < self.edges.len() implies self.edges[i] == swept.edges[i] by {
            let e = BaseEdge { id: i as usize };
            if self.edges[i] is Some {
                assert(self.living_edges().contains(e));
            } else {
                if from.edge_survives(e) {
                    let (ns, es) = choose|ns: Set<BaseNode>, es: Set<BaseEdge>| #[trigger]
                        from.sustains(ns, es) && es.contains(e);
                    assert(self.has_edge(e));
                }
            }
        }
        assert(self.nodes =~= swept.nodes);
        assert(self.edges =~= swept.edges);
    }

    /// The living nodes.
    pub open spec fn living_nodes(self) -> Set<BaseNode> {
        Set::new(|n: BaseNode| self.has_node(n))
    }

    /// The living edges.
    pub open spec fn living_edges(self) -> Set<BaseEdge> {
        Set::new(|e: BaseEdge| self.has_edge(e))
    }

    /// What is alive in a consistent store sustains itself, also in a
    /// store of which this one is what remains.
    pub proof fn lemma_wf_sustains_itself(self, from: Self)
        requires
            self.wf(),
            self.remains_of(from),
        ensures
            from.sustains(self.living_nodes(), self.living_edges()),
    {
        let ns = self.living_nodes();
        let es = self.living_edges();
        assert forall|n: BaseNode| #[trigger] ns.contains(n) implies from.has_node(n) && (from.node(
            n,
        ).holds > 0 || from.node_cached(n) || from.node_owned_within(n, es)) by {
            assert(self.nodes[n.id as int] is Some);
            assert(self.node_kept(BaseNode { id: n.id as int as usize }));
            if self.node_owned(n) {
                let j = choose|j: int|
                    0 <= j < self.edges.len() && self.edges[j] is Some
                        && #[trigger] self.edges[j]->0.owns(n);
                assert(es.contains(BaseEdge { id: j as usize }));
                assert(from.edges[j]->0.owns(n));
            }
        }
        assert forall|e: BaseEdge| #[trigger] es.contains(e) implies from.has_edge(e) && (from.edge(
            e,
        ).holds > 0 || from.edge_cached(e) || from.edge_listed_within(e, ns)) by {
            assert(self.edges[e.id as int] is Some);
            assert(self.edge_kept(BaseEdge { id: e.id as int as usize }));
            if self.edge_listed(e) {
                let j = choose|j: int|
                    0 <= j < self.nodes.len() && self.nodes[j] is Some
                        && #[trigger] self.nodes[j]->0.edges.contains(e);
                assert(ns.contains(BaseNode { id: j as usize }));
                assert(from.nodes[j]->0.edges.contains(e));
            }
        }
    }
}

} // verus!
