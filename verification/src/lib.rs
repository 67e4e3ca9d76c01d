//! An undirected graph of shared, mutable nodes.
//!
//! Callers hold [`Node`] handles: reference-counted pointers to a node's
//! storage. Adjacency is kept as weak references in both directions, so
//! edges alone never keep a node alive and cycles are harmless; a
//! per-component tracker owns one strong reference to every node of a
//! connected component, so any one externally held handle keeps its whole
//! component alive, and the release of a component's last external handle
//! tears the tracker down and reclaims every node of the component.

pub mod link;
pub mod node;
pub mod registry;
mod storage;

pub use link::WeakNode;
pub use node::Node;
pub use storage::NodeId;
