//! A mutable multigraph kept in one store.
//!
//! A [`BaseHead`] is the context of one graph. It issues the
//! identifiers of nodes and edges, keeps the record of every living
//! entity in a slot of its own, and holds two rosters of entities that
//! it retains. Nodes ([`BaseNode`]) and edges ([`BaseEdge`]) are
//! handles: stable identifiers that name a slot of the store.
//!
//! Edges come in three shapes. An arrow owns its head and observes its
//! tail, a link observes both of its ends, a loop observes its one
//! node. A node owns the edges registered on it. An entity is alive
//! exactly as long as it has a holder: a hold taken by a caller, an
//! entry in a roster, or a living owner. When the last holder goes,
//! the entity is destroyed, and what it observed no longer finds it.
//!
//! The contracts are stated over [`GraphView`], the mathematical
//! picture of the store.

pub mod baseedge;
pub mod basehead;
pub mod baselink;
pub mod basenode;
pub mod frames;
pub mod graph;
pub mod holds;
pub mod iterators;
pub mod laws;
pub mod sweep;
pub mod traits;

pub use crate::basehead::BaseHead;
pub use crate::baselink::{BaseLink, BaseLinkBuilder};
pub use crate::graph::{BaseEdge, BaseNode, EdgeEnd, EdgePos, EdgeType, GraphView};
pub use crate::iterators::{IterEdges, IterLinks, IterNodes};
pub use crate::traits::{
    Edge, EdgeArrow, EdgeCache, EdgeLink, EdgeLoop, EdgeWeighted, Head, HeadEdgeCache,
    HeadNodeCache, HeadUniqueIDAction, Node, NodeCache, NodeEdgeCache,
};
