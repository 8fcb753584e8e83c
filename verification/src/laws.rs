//! What holds of the store as a whole.

use crate::graph::{BaseEdge, BaseNode, EdgeEnd, EdgeType, GraphView};
use crate::iterators::IterState;
use vstd::prelude::*;

verus! {

/// One hold given up.
pub enum Release {
    /// A hold on a node.
    Node(BaseNode),
    /// A hold on an edge.
    Edge(BaseEdge),
}

/// One use of an identifier counter.
pub enum Issue<V, W> {
    /// A node identifier is issued and no node built on it.
    NodeId,
    /// An edge identifier is issued and no edge built on it.
    EdgeId,
    /// A node is built with a value.
    Node(V),
    /// An edge is built with its shape, its two ends and its weight.
    Edge(EdgeType, EdgeEnd, EdgeEnd, W),
}

impl<V, W> Issue<V, W> {
    /// The identifier comes from the counter of nodes (else from that
    /// of edges).
    pub open spec fn for_node(self) -> bool {
        self is NodeId || self is Node
    }
}

impl<V, W> GraphView<V, W> {
    /// The store after one identifier is issued.
    pub open spec fn issued(self, c: Issue<V, W>) -> Self {
        match c {
            Issue::NodeId => self.reserve_node(),
            Issue::EdgeId => self.reserve_edge(),
            Issue::Node(value) => self.create_node(value),
            Issue::Edge(edge_type, alpha, omega, weight) => self.create_edge(
                edge_type,
                alpha,
                omega,
                weight,
            ),
        }
    }

    /// The store after a run of issues, first to last.
    pub open spec fn issued_all(self, cs: Seq<Issue<V, W>>) -> Self
        decreases cs.len(),
    {
        if cs.len() == 0 {
            self
        } else {
            self.issued_all(cs.drop_last()).issued(cs.last())
        }
    }

    /// The identifier that issue number `k` of the run `cs` hands out.
    pub open spec fn id_issued(self, cs: Seq<Issue<V, W>>, k: int) -> nat
        recommends
            0 <= k < cs.len(),
    {
        let before = self.issued_all(cs.take(k));
        if cs[k].for_node() {
            before.nodes.len()
        } else {
            before.edges.len()
        }
    }

    /// Identity uniqueness: in any run of issues from one store, no two
    /// nodes get the same identifier and no two edges do. A later issue
    /// hands out a larger identifier than an earlier one from the same
    /// counter.
    pub proof fn lemma_identifiers_unique(self, cs: Seq<Issue<V, W>>, i: int, j: int)
        requires
            0 <= i < j < cs.len(),
            cs[i].for_node() == cs[j].for_node(),
        ensures
            self.id_issued(cs, i) < self.id_issued(cs, j),
    {
        self.lemma_issued_grows(cs.take(j), i + 1);
        assert(cs.take(j).take(i + 1) =~= cs.take(i + 1));
        assert(cs.take(i + 1).drop_last() =~= cs.take(i));
        assert(cs.take(i + 1).last() == cs[i]);
    }

    /// A run of issues never takes an identifier back: after more of
    /// the run, no fewer identifiers are issued.
    pub proof fn lemma_issued_grows(self, cs: Seq<Issue<V, W>>, k: int)
        requires
            0 <= k <= cs.len(),
        ensures
            self.issued_all(cs.take(k)).nodes.len() <= self.issued_all(cs).nodes.len(),
            self.issued_all(cs.take(k)).edges.len() <= self.issued_all(cs).edges.len(),
        decreases cs.len(),
    {
        if k == cs.len() {
            assert(cs.take(k) =~= cs);
        } else {
            self.lemma_issued_grows(cs.drop_last(), k);
            assert(cs.drop_last().take(k) =~= cs.take(k));
        }
    }

    /// The two counters are independent: a run that issues no node
    /// identifier leaves the counter of nodes where it was, and a run
    /// that issues no edge identifier leaves that of edges where it
    /// was.
    pub proof fn lemma_counters_independent(self, cs: Seq<Issue<V, W>>)
        ensures
            (forall|k: int| 0 <= k < cs.len() ==> !(#[trigger] cs[k]).for_node())
                ==> self.issued_all(cs).nodes.len() == self.nodes.len(),
            (forall|k: int| 0 <= k < cs.len() ==> (#[trigger] cs[k]).for_node())
                ==> self.issued_all(cs).edges.len() == self.edges.len(),
        decreases cs.len(),
    {
        if cs.len() > 0 {
            self.lemma_counters_independent(cs.drop_last());
            assert forall|k: int| 0 <= k < cs.drop_last().len() implies cs.drop_last()[k]
                == cs[k] by {}
            if forall|k: int| 0 <= k < cs.len() ==> !(#[trigger] cs[k]).for_node() {
                assert(!cs[cs.len() - 1].for_node());
                assert forall|k: int| 0 <= k < cs.drop_last().len() implies !(
                #[trigger] cs.drop_last()[k]).for_node() by {
                    assert(!cs[k].for_node());
                }
            }
            if forall|k: int| 0 <= k < cs.len() ==> (#[trigger] cs[k]).for_node() {
                assert(cs[cs.len() - 1].for_node());
                assert forall|k: int| 0 <= k < cs.drop_last().len() implies (
                #[trigger] cs.drop_last()[k]).for_node() by {
                    assert(cs[k].for_node());
                }
            }
        }
    }

    /// Arrow directionality: an arrow whose tail `t` is alive answers
    /// for its tail with its head `h`, and for its head with its tail;
    /// it answers neither the other way round, as long as the two are
    /// different nodes.
    pub proof fn lemma_arrow_directions(self, e: BaseEdge, t: BaseNode, h: BaseNode)
        requires
            self.wf(),
            self.has_edge(e),
            self.edge(e).edge_type == EdgeType::Arrow,
            self.edge(e).alpha == EdgeEnd::NonOwning(t),
            self.edge(e).omega == EdgeEnd::Owning(h),
            self.has_node(t),
            t != h,
        ensures
            self.head_of(e, t.id) == Some(h),
            self.head_of(e, h.id) == None::<BaseNode>,
            self.tail_of(e, h.id) == Some(t),
            self.tail_of(e, t.id) == None::<BaseNode>,
    {
        assert(self.edges[e.id as int]->0.owns(h));
    }

    /// Link symmetry: a link whose two ends are alive answers for
    /// either end with the other, whether asked for its head or for
    /// its tail.
    pub proof fn lemma_link_symmetric(self, e: BaseEdge, l: BaseNode, r: BaseNode)
        requires
            self.has_edge(e),
            self.edge(e).edge_type == EdgeType::Link,
            self.edge(e).alpha == EdgeEnd::NonOwning(l),
            self.edge(e).omega == EdgeEnd::NonOwning(r),
            self.has_node(l),
            self.has_node(r),
        ensures
            self.head_of(e, l.id) == Some(r),
            self.head_of(e, r.id) == Some(l),
            self.tail_of(e, l.id) == Some(r),
            self.tail_of(e, r.id) == Some(l),
    {
    }

    /// Loop reflexivity: a loop on a living node `x` answers for `x`
    /// with `x`, and for no other node.
    pub proof fn lemma_loop_reflexive(self, e: BaseEdge, x: BaseNode, node_id: usize)
        requires
            self.has_edge(e),
            self.edge(e).edge_type == EdgeType::Loop,
            self.edge(e).omega == EdgeEnd::NonOwning(x),
            self.has_node(x),
        ensures
            self.head_of(e, x.id) == Some(x),
            self.tail_of(e, x.id) == Some(x),
            node_id != x.id ==> self.head_of(e, node_id) == None::<BaseNode>,
            node_id != x.id ==> self.tail_of(e, node_id) == None::<BaseNode>,
    {
    }

    /// Seen from its ends, an edge shows the same neighbours as seen
    /// by its shape: the node across an arrow is its head from the tail
    /// and its tail from the head, and the node across a link is the
    /// one that the link answers with.
    pub proof fn lemma_across_agrees(self, e: BaseEdge, node_id: usize)
        requires
            self.wf(),
            self.has_edge(e),
        ensures
            self.edge(e).edge_type == EdgeType::Link ==> self.node_across(e, node_id)
                == self.head_of(e, node_id),
            self.edge(e).edge_type == EdgeType::Arrow ==> self.node_across(e, node_id) == (
            if self.head_of(e, node_id) is Some {
                self.head_of(e, node_id)
            } else {
                self.tail_of(e, node_id)
            }),
            self.node_across(e, node_id) == if self.owned_across(e, node_id) is Some {
                self.owned_across(e, node_id)
            } else {
                self.observed_across(e, node_id)
            },
    {
        assert(self.edges[e.id as int]->0.shape_ok());
    }

    /// No edge leads to a node that is gone, and none answers for it.
    pub proof fn lemma_gone_node_unreachable(self, n: BaseNode, e: BaseEdge, node_id: usize)
        requires
            !self.has_node(n),
        ensures
            self.head_of(e, node_id) != Some(n),
            self.tail_of(e, node_id) != Some(n),
            self.head_of(e, n.id) == None::<BaseNode>,
            self.tail_of(e, n.id) == None::<BaseNode>,
    {
    }

    /// What an edge answers is a living node.
    pub proof fn lemma_answers_are_alive(self, e: BaseEdge, node_id: usize)
        ensures
            self.head_of(e, node_id) matches Some(n) ==> self.has_node(n),
            self.tail_of(e, node_id) matches Some(n) ==> self.has_node(n),
    {
    }

    /// The store after the edges `es` are registered on `n`, first to
    /// last.
    pub open spec fn add_edges(self, n: BaseNode, es: Seq<BaseEdge>) -> Self
        decreases es.len(),
    {
        if es.len() == 0 {
            self
        } else {
            self.add_edges(n, es.drop_last()).add_edge(n, es.last())
        }
    }

    /// Adjacency count: registering `k` edges on a node makes its
    /// number of edges grow by exactly `k`. The edges stand after those
    /// that were there, in the order in which they came, and a walk
    /// from the first edge has exactly those to yield. Nothing else in
    /// the store changes.
    pub proof fn lemma_add_edges(self, n: BaseNode, es: Seq<BaseEdge>)
        requires
            self.wf(),
            self.has_node(n),
            forall|k: int| 0 <= k < es.len() ==> self.has_edge(#[trigger] es[k]),
        ensures
            self.add_edges(n, es).wf(),
            self.add_edges(n, es).has_node(n),
            self.add_edges(n, es).edges_of(n) == self.edges_of(n) + es,
            self.add_edges(n, es).edges_of(n).len() == self.edges_of(n).len() + es.len(),
            IterState::fresh(n).remaining(self.add_edges(n, es)) == self.edges_of(n) + es,
            self.add_edges(n, es).edges == self.edges,
            self.add_edges(n, es).nodes.len() == self.nodes.len(),
            forall|m: BaseNode|
                m != n ==> #[trigger] self.add_edges(n, es).edges_of(m) == self.edges_of(m),
        decreases es.len(),
    {
        let g = self.add_edges(n, es);
        if es.len() == 0 {
            assert(self.edges_of(n) + es =~= self.edges_of(n));
        } else {
            let before = self.add_edges(n, es.drop_last());
            self.lemma_add_edges(n, es.drop_last());
            assert(es.drop_last()[es.len() - 2] == es[es.len() - 2] || es.len() == 1);
            assert(before.has_edge(es.last()));
            before.lemma_add_edge_wf(n, es.last());
            assert(g.edges_of(n) =~= self.edges_of(n) + es) by {
                assert(es =~= es.drop_last().push(es.last()));
            }
            assert forall|m: BaseNode| m != n implies #[trigger] g.edges_of(m) == self.edges_of(
                m,
            ) by {
                assert(before.edges_of(m) == self.edges_of(m));
            }
        }
        assert(g.edges_of(n).skip(0) =~= g.edges_of(n));
    }

    /// A consistent store loses nothing when it is swept.
    pub proof fn lemma_sweep_keeps_consistent_store(self)
        requires
            self.wf(),
        ensures
            self.sweep() == self,
    {
        assert(self.nodes =~= self.nodes);
        assert(self.remains_of(self));
        self.lemma_wf_sustains_itself(self);
        let swept = self.sweep();
        assert forall|i: int| 0 <= i < self.nodes.len() implies self.nodes[i] == swept.nodes[i] by {
            let n = BaseNode { id: i as usize };
            if self.nodes[i] is Some {
                assert(self.living_nodes().contains(n));
            } else {
                if self.node_survives(n) {
                    let (ns, es) = choose|ns: Set<BaseNode>, es: Set<BaseEdge>| #[trigger]
                        self.sustains(ns, es) && ns.contains(n);
                    assert(self.has_node(n));
                }
            }
        }
        assert forall|i: int| 0 <= i < self.edges.len() implies self.edges[i] == swept.edges[i] by {
            let e = BaseEdge { id: i as usize };
            if self.edges[i] is Some {
                assert(self.living_edges().contains(e));
            } else {
                if self.edge_survives(e) {
                    let (ns, es) = choose|ns: Set<BaseNode>, es: Set<BaseEdge>| #[trigger]
                        self.sustains(ns, es) && es.contains(e);
                    assert(self.has_edge(e));
                }
            }
        }
        assert(self.nodes =~= swept.nodes);
        assert(self.edges =~= swept.edges);
    }

    /// A sweep destroys and does nothing else: every slot is as it
    /// was, or empty, and the rosters are as they were.
    pub proof fn lemma_sweep_only_destroys(self)
        ensures
            self.sweep().remains_of(self),
    {
    }

    /// Liveness, from a hold or the roster: a living node that a
    /// caller holds, or that the roster holds, survives a sweep.
    pub proof fn lemma_held_node_survives(self, n: BaseNode)
        requires
            self.has_node(n),
            self.node(n).holds > 0 || self.node_cached(n),
        ensures
            self.node_survives(n),
            self.sweep().has_node(n),
            self.sweep().node(n) == self.node(n),
    {
        let ns = Set::<BaseNode>::empty().insert(n);
        let es = Set::<BaseEdge>::empty();
        assert(self.sustains(ns, es));
        assert(ns.contains(n));
        assert(BaseNode { id: n.id as int as usize } == n);
    }

    /// Liveness, from a hold or the roster: a living edge that a
    /// caller holds, or that the roster holds, survives a sweep.
    pub proof fn lemma_held_edge_survives(self, e: BaseEdge)
        requires
            self.has_edge(e),
            self.edge(e).holds > 0 || self.edge_cached(e),
        ensures
            self.edge_survives(e),
            self.sweep().has_edge(e),
            self.sweep().edge(e) == self.edge(e),
    {
        let ns = Set::<BaseNode>::empty();
        let es = Set::<BaseEdge>::empty().insert(e);
        assert(self.sustains(ns, es));
        assert(es.contains(e));
        assert(BaseEdge { id: e.id as int as usize } == e);
    }

    /// Liveness, from an owner: a living node survives a sweep if an
    /// edge that owns it does.
    pub proof fn lemma_owned_node_survives(self, e: BaseEdge, n: BaseNode)
        requires
            self.has_node(n),
            self.edge_survives(e),
            self.edge(e).owns(n),
        ensures
            self.node_survives(n),
            self.sweep().has_node(n),
            self.sweep().node(n) == self.node(n),
    {
        let (ns, es) = choose|ns: Set<BaseNode>, es: Set<BaseEdge>| #[trigger]
            self.sustains(ns, es) && es.contains(e);
        let more = ns.insert(n);
        assert(BaseEdge { id: e.id as int as usize } == e);
        assert forall|m: BaseNode| #[trigger] more.contains(m) implies self.has_node(m) && (
        self.node(m).holds > 0 || self.node_cached(m) || self.node_owned_within(m, es)) by {
            if m == n {
                assert(self.edges[e.id as int]->0.owns(n));
            } else {
                assert(ns.contains(m));
            }
        }
        assert forall|x: BaseEdge| #[trigger] es.contains(x) implies self.has_edge(x) && (self.edge(
            x,
        ).holds > 0 || self.edge_cached(x) || self.edge_listed_within(x, more)) by {
            if self.edge_listed_within(x, ns) {
                let j = choose|j: int|
                    0 <= j < self.nodes.len() && self.nodes[j] is Some && ns.contains(
                        BaseNode { id: j as usize },
                    ) && #[trigger] self.nodes[j]->0.edges.contains(x);
                assert(more.contains(BaseNode { id: j as usize }));
            }
        }
        assert(self.sustains(more, es));
        assert(more.contains(n));
        assert(BaseNode { id: n.id as int as usize } == n);
    }

    /// Liveness, from an owner: a living edge survives a sweep if a
    /// node on which it is registered does.
    pub proof fn lemma_listed_edge_survives(self, n: BaseNode, e: BaseEdge)
        requires
            self.has_edge(e),
            self.node_survives(n),
            self.node(n).edges.contains(e),
        ensures
            self.edge_survives(e),
            self.sweep().has_edge(e),
            self.sweep().edge(e) == self.edge(e),
    {
        let (ns, es) = choose|ns: Set<BaseNode>, es: Set<BaseEdge>| #[trigger]
            self.sustains(ns, es) && ns.contains(n);
        let more = es.insert(e);
        assert(BaseNode { id: n.id as int as usize } == n);
        assert forall|x: BaseEdge| #[trigger] more.contains(x) implies self.has_edge(x) && (
        self.edge(x).holds > 0 || self.edge_cached(x) || self.edge_listed_within(x, ns)) by {
            if x == e {
                assert(self.nodes[n.id as int]->0.edges.contains(e));
            } else {
                assert(es.contains(x));
            }
        }
        assert forall|m: BaseNode| #[trigger] ns.contains(m) implies self.has_node(m) && (self.node(
            m,
        ).holds > 0 || self.node_cached(m) || self.node_owned_within(m, more)) by {
            if self.node_owned_within(m, es) {
                let j = choose|j: int|
                    0 <= j < self.edges.len() && self.edges[j] is Some && es.contains(
                        BaseEdge { id: j as usize },
                    ) && #[trigger] self.edges[j]->0.owns(m);
                assert(more.contains(BaseEdge { id: j as usize }));
            }
        }
        assert(self.sustains(ns, more));
        assert(more.contains(e));
        assert(BaseEdge { id: e.id as int as usize } == e);
    }

    /// Liveness, the other way: a node that no caller holds, that the
    /// roster does not hold, and whose owners all go in the sweep, goes
    /// in the sweep too.
    pub proof fn lemma_unheld_node_goes(self, n: BaseNode)
        requires
            self.edges.len() <= usize::MAX,
            self.has_node(n) ==> self.node(n).holds == 0,
            !self.node_cached(n),
            forall|e: BaseEdge|
                self.has_edge(e) && #[trigger] self.edge(e).owns(n) ==> !self.edge_survives(e),
        ensures
            !self.node_survives(n),
            !self.sweep().has_node(n),
    {
        if self.node_survives(n) {
            let (ns, es) = choose|ns: Set<BaseNode>, es: Set<BaseEdge>| #[trigger]
                self.sustains(ns, es) && ns.contains(n);
            assert(self.node_owned_within(n, es));
            let j = choose|j: int|
                0 <= j < self.edges.len() && self.edges[j] is Some && es.contains(
                    BaseEdge { id: j as usize },
                ) && #[trigger] self.edges[j]->0.owns(n);
            let e = BaseEdge { id: j as usize };
            assert(self.edge(e).owns(n));
            assert(self.edge_survives(e));
        }
    }

    /// Liveness, the other way: an edge that no caller holds, that the
    /// roster does not hold, and whose registering nodes all go in the
    /// sweep, goes in the sweep too.
    pub proof fn lemma_unheld_edge_goes(self, e: BaseEdge)
        requires
            self.nodes.len() <= usize::MAX,
            self.has_edge(e) ==> self.edge(e).holds == 0,
            !self.edge_cached(e),
            forall|n: BaseNode|
                self.has_node(n) && #[trigger] self.node(n).edges.contains(e)
                    ==> !self.node_survives(n),
        ensures
            !self.edge_survives(e),
            !self.sweep().has_edge(e),
    {
        if self.edge_survives(e) {
            let (ns, es) = choose|ns: Set<BaseNode>, es: Set<BaseEdge>| #[trigger]
                self.sustains(ns, es) && es.contains(e);
            assert(self.edge_listed_within(e, ns));
            let j = choose|j: int|
                0 <= j < self.nodes.len() && self.nodes[j] is Some && ns.contains(
                    BaseNode { id: j as usize },
                ) && #[trigger] self.nodes[j]->0.edges.contains(e);
            let n = BaseNode { id: j as usize };
            assert(self.node(n).edges.contains(e));
            assert(self.node_survives(n));
        }
    }

    /// A sweep of a sound store leaves a consistent store: whatever is
    /// left has a holder that is left too.
    pub proof fn lemma_sweep_consistent(self)
        requires
            self.sound(),
        ensures
            self.sweep().wf(),
    {
        let g = self.sweep();
        assert forall|i: int, n: BaseNode|
            0 <= i < g.edges.len() && g.edges[i] is Some && #[trigger] g.edges[i]->0.owns(
                n,
            ) implies g.has_node(n) by {
            let e = BaseEdge { id: i as usize };
            assert(self.edges[i]->0.owns(n));
            self.lemma_owned_node_survives(e, n);
        }
        assert forall|i: int, e: BaseEdge|
            0 <= i < g.nodes.len() && g.nodes[i] is Some
                && #[trigger] g.nodes[i]->0.edges.contains(e) implies g.has_edge(e) by {
            let n = BaseNode { id: i as usize };
            assert(self.nodes[i]->0.edges.contains(e));
            self.lemma_listed_edge_survives(n, e);
        }
        assert forall|n: BaseNode| #[trigger] g.node_cache.contains(n) implies g.has_node(n) by {
            self.lemma_held_node_survives(n);
        }
        assert forall|e: BaseEdge| #[trigger] g.edge_cache.contains(e) implies g.has_edge(e) by {
            self.lemma_held_edge_survives(e);
        }
        assert forall|i: int| 0 <= i < g.nodes.len() && (#[trigger] g.nodes[i]) is Some implies g.node_kept(
            BaseNode { id: i as usize },
        ) by {
            let n = BaseNode { id: i as usize };
            let (ns, es) = choose|ns: Set<BaseNode>, es: Set<BaseEdge>| #[trigger]
                self.sustains(ns, es) && ns.contains(n);
            if self.node_owned_within(n, es) {
                let j = choose|j: int|
                    0 <= j < self.edges.len() && self.edges[j] is Some && es.contains(
                        BaseEdge { id: j as usize },
                    ) && #[trigger] self.edges[j]->0.owns(n);
                assert(self.edge_survives(BaseEdge { id: j as usize }));
                assert(g.edges[j]->0.owns(n));
            }
        }
        assert forall|i: int| 0 <= i < g.edges.len() && (#[trigger] g.edges[i]) is Some implies g.edge_kept(
            BaseEdge { id: i as usize },
        ) by {
            let e = BaseEdge { id: i as usize };
            let (ns, es) = choose|ns: Set<BaseNode>, es: Set<BaseEdge>| #[trigger]
                self.sustains(ns, es) && es.contains(e);
            if self.edge_listed_within(e, ns) {
                let j = choose|j: int|
                    0 <= j < self.nodes.len() && self.nodes[j] is Some && ns.contains(
                        BaseNode { id: j as usize },
                    ) && #[trigger] self.nodes[j]->0.edges.contains(e);
                assert(self.node_survives(BaseNode { id: j as usize }));
                assert(g.nodes[j]->0.edges.contains(e));
            }
        }
    }

    /// The store after a hold is given up and the store is swept.
    pub open spec fn released(self, r: Release) -> Self {
        match r {
            Release::Node(n) => self.unhold_node(n).sweep(),
            Release::Edge(e) => self.unhold_edge(e).sweep(),
        }
    }

    /// The store after a run of holds is given up, first to last.
    pub open spec fn released_all(self, rs: Seq<Release>) -> Self
        decreases rs.len(),
    {
        if rs.len() == 0 {
            self
        } else {
            self.released_all(rs.drop_last()).released(rs.last())
        }
    }

    /// Giving up a hold leaves a consistent store consistent, with its
    /// rosters and its counters as they were.
    pub proof fn lemma_released_consistent(self, r: Release)
        requires
            self.wf(),
        ensures
            self.released(r).wf(),
            self.released(r).node_cache == self.node_cache,
            self.released(r).edge_cache == self.edge_cache,
            self.released(r).nodes.len() == self.nodes.len(),
            self.released(r).edges.len() == self.edges.len(),
    {
        match r {
            Release::Node(n) => {
                self.lemma_sweep_from_node(n);
                self.unhold_node(n).lemma_sweep_consistent();
            },
            Release::Edge(e) => {
                self.lemma_sweep_from_edge(e);
                self.unhold_edge(e).lemma_sweep_consistent();
            },
        }
    }

    /// Ownership and liveness, for a retained node: however many holds
    /// are given up, on nodes or on edges, a node that the roster holds
    /// is alive afterwards, with its value and its edges.
    pub proof fn lemma_cached_node_outlives_all_holds(self, n: BaseNode, rs: Seq<Release>)
        requires
            self.wf(),
            self.node_cached(n),
        ensures
            self.released_all(rs).wf(),
            self.released_all(rs).node_cached(n),
            self.released_all(rs).has_node(n),
            self.released_all(rs).node(n).value == self.node(n).value,
            self.released_all(rs).node(n).edges == self.node(n).edges,
        decreases rs.len(),
    {
        if rs.len() > 0 {
            let before = self.released_all(rs.drop_last());
            self.lemma_cached_node_outlives_all_holds(n, rs.drop_last());
            before.lemma_released_consistent(rs.last());
            match rs.last() {
                Release::Node(m) => {
                    before.lemma_cached_node_outlives_holds(n, m, BaseEdge { id: 0 });
                },
                Release::Edge(e) => {
                    before.lemma_cached_node_outlives_holds(n, BaseNode { id: 0 }, e);
                },
            }
        }
    }

    /// Ownership and liveness, for a retained node: whatever hold is
    /// given up, on a node or on an edge, a node that the roster holds
    /// is alive afterwards, with its value and its edges.
    pub proof fn lemma_cached_node_outlives_holds(self, n: BaseNode, m: BaseNode, e: BaseEdge)
        requires
            self.wf(),
            self.node_cached(n),
        ensures
            self.unhold_node(m).sweep().has_node(n),
            self.unhold_node(m).sweep().node(n).value == self.node(n).value,
            self.unhold_node(m).sweep().node(n).edges == self.node(n).edges,
            self.unhold_edge(e).sweep().has_node(n),
            self.unhold_edge(e).sweep().node(n) == self.node(n),
    {
        self.unhold_node(m).lemma_held_node_survives(n);
        self.unhold_edge(e).lemma_held_node_survives(n);
    }

    /// Ownership and liveness, for a node that only its caller holds:
    /// when the last hold on it is given up, and no roster and no edge
    /// keeps it, the node goes. No edge answers with it or for it any
    /// more.
    pub proof fn lemma_node_goes_with_last_hold(self, n: BaseNode, x: BaseEdge, node_id: usize)
        requires
            self.wf(),
            self.has_node(n),
            self.node(n).holds == 1,
            !self.node_cached(n),
            !self.node_owned(n),
        ensures
            !self.unhold_node(n).sweep().has_node(n),
            self.unhold_node(n).sweep().head_of(x, node_id) != Some(n),
            self.unhold_node(n).sweep().tail_of(x, node_id) != Some(n),
            self.unhold_node(n).sweep().head_of(x, n.id) == None::<BaseNode>,
            self.unhold_node(n).sweep().tail_of(x, n.id) == None::<BaseNode>,
    {
        let g = self.unhold_node(n);
        assert forall|o: BaseEdge| g.has_edge(o) && #[trigger] g.edge(o).owns(
            n,
        ) implies !g.edge_survives(o) by {
            assert(self.edges[o.id as int]->0.owns(n));
        }
        g.lemma_unheld_node_goes(n);
        g.sweep().lemma_gone_node_unreachable(n, x, node_id);
    }

    /// Ownership and liveness, for a node that only an arrow keeps
    /// alive: when the last hold on the arrow is given up, and the
    /// arrow is registered nowhere and in no roster, the arrow goes and
    /// its head goes with it. No edge answers with that node any more.
    pub proof fn lemma_head_goes_with_last_arrow(
        self,
        e: BaseEdge,
        h: BaseNode,
        x: BaseEdge,
        node_id: usize,
    )
        requires
            self.wf(),
            self.has_edge(e),
            self.edge(e).owns(h),
            self.edge(e).holds == 1,
            !self.edge_cached(e),
            !self.edge_listed(e),
            self.node(h).holds == 0,
            !self.node_cached(h),
            forall|o: BaseEdge| self.has_edge(o) && #[trigger] self.edge(o).owns(h) ==> o == e,
        ensures
            !self.unhold_edge(e).sweep().has_edge(e),
            !self.unhold_edge(e).sweep().has_node(h),
            self.unhold_edge(e).sweep().head_of(x, node_id) != Some(h),
            self.unhold_edge(e).sweep().tail_of(x, node_id) != Some(h),
            self.unhold_edge(e).sweep().head_of(x, h.id) == None::<BaseNode>,
            self.unhold_edge(e).sweep().tail_of(x, h.id) == None::<BaseNode>,
    {
        let g = self.unhold_edge(e);
        assert forall|n: BaseNode| g.has_node(n) && #[trigger] g.node(n).edges.contains(
            e,
        ) implies !g.node_survives(n) by {
            assert(self.nodes[n.id as int]->0.edges.contains(e));
        }
        g.lemma_unheld_edge_goes(e);
        assert forall|o: BaseEdge| g.has_edge(o) && #[trigger] g.edge(o).owns(
            h,
        ) implies !g.edge_survives(o) by {
            if o != e {
                assert(self.edge(o).owns(h));
            }
        }
        assert(self.edges[e.id as int]->0.owns(h));
        g.lemma_unheld_node_goes(h);
        g.sweep().lemma_gone_node_unreachable(h, x, node_id);
    }
}

impl IterState {
    /// The walk after `k` steps in the store `g`.
    pub open spec fn advance<V, W>(self, g: GraphView<V, W>, k: nat) -> Self
        decreases k,
    {
        if k == 0 {
            self
        } else {
            self.advance(g, (k - 1) as nat).step(g)
        }
    }

    /// The walk after one step in each of `stores`, first to last.
    pub open spec fn run<V, W>(self, stores: Seq<GraphView<V, W>>) -> Self
        decreases stores.len(),
    {
        if stores.len() == 0 {
            self
        } else {
            self.run(stores.drop_last()).step(stores.last())
        }
    }

    /// A walk from the first edge of a node yields the edges of the
    /// node one by one in registration order, and nothing after the
    /// last.
    pub proof fn lemma_walk_in_order<V, W>(n: BaseNode, g: GraphView<V, W>, k: nat)
        requires
            k <= g.edges_of(n).len(),
        ensures
            Self::fresh(n).advance(g, k) == (IterState { node: n, position: k, finished: false }),
            k < g.edges_of(n).len() ==> Self::fresh(n).advance(g, k).item(g) == Some(
                g.edges_of(n)[k as int],
            ),
            k == g.edges_of(n).len() ==> Self::fresh(n).advance(g, k).item(g) == None::<BaseEdge>,
        decreases k,
    {
        if k > 0 {
            Self::lemma_walk_in_order(n, g, (k - 1) as nat);
        }
    }

    /// Exhaustion: once a step has found nothing, every later step
    /// finds nothing, whatever has been registered on the node in the
    /// meantime, and the walk does not move. The same holds of a walk
    /// over neighbours.
    pub proof fn lemma_exhausted_for_good<V, W>(
        self,
        g: GraphView<V, W>,
        later: Seq<GraphView<V, W>>,
        last: GraphView<V, W>,
        towards_head: bool,
    )
        requires
            self.item(g) is None,
        ensures
            self.step(g).finished,
            self.step(g).run(later) == self.step(g),
            self.step(g).run(later).item(last) == None::<BaseEdge>,
            self.step(g).run(later).seek(last, towards_head) == (self.step(g), None::<BaseNode>),
        decreases later.len(),
    {
        if later.len() > 0 {
            self.lemma_exhausted_for_good(g, later.drop_last(), later.last(), towards_head);
        }
    }

    /// A walk that has not taken a step has all the edges of its node
    /// to yield.
    pub proof fn lemma_fresh_walk_has_all<V, W>(n: BaseNode, g: GraphView<V, W>)
        ensures
            Self::fresh(n).remaining(g) == g.edges_of(n),
    {
        assert(g.edges_of(n).skip(0) =~= g.edges_of(n));
    }

    /// Step by step, a walk over neighbours yields what
    /// [`GraphView::neighbours`] lists for the edges that are left: the
    /// first of them now, the others later.
    pub proof fn lemma_seek_follows_neighbours<V, W>(self, g: GraphView<V, W>, towards_head: bool)
        ensures
            ({
                let listed = g.neighbours(self.remaining(g), self.node.id, towards_head);
                let (after, found) = self.seek(g, towards_head);
                &&& listed.len() == 0 ==> found is None
                &&& listed.len() > 0 ==> found == Some(listed[0]) && g.neighbours(
                    after.remaining(g),
                    self.node.id,
                    towards_head,
                ) == listed.drop_first()
            }),
        decreases self.steps_left(g),
    {
        let rest = self.remaining(g);
        match self.item(g) {
            None => {
                assert(rest =~= Seq::empty());
            },
            Some(e) => {
                assert(rest[0] == e);
                assert(rest.drop_first() =~= self.step(g).remaining(g));
                let later = g.neighbours(rest.drop_first(), self.node.id, towards_head);
                match g.neighbour(e, self.node.id, towards_head) {
                    Some(n) => {
                        assert((seq![n] + later).drop_first() =~= later);
                    },
                    None => {
                        self.step(g).lemma_seek_follows_neighbours(g, towards_head);
                    },
                }
            },
        }
    }

    /// A walk over neighbours that has yielded nothing is over: the
    /// search ends only where the walk over the edges has ended.
    pub proof fn lemma_seek_nothing_is_over<V, W>(self, g: GraphView<V, W>, towards_head: bool)
        ensures
            self.seek(g, towards_head).1 is None ==> self.seek(g, towards_head).0.finished,
            self.seek(g, towards_head).0.node == self.node,
        decreases self.steps_left(g),
    {
        match self.item(g) {
            None => {},
            Some(e) => {
                if g.neighbour(e, self.node.id, towards_head) is None {
                    self.step(g).lemma_seek_nothing_is_over(g, towards_head);
                }
            },
        }
    }
}

} // verus!
