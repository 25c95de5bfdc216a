//! The core of an intermediate representation built around the Regionalized
//! Value-State Dependence Graph: a graph of operation nodes with value and
//! state ports, in which equal pure nodes are shared and the users of every
//! output can be walked in the order of their connection, forward and
//! backward.
//!
//! A [`NodeCtxt`] owns the nodes. Nodes and ports are named by identifiers
//! ([`NodeId`], [`UserId`], [`OriginId`]) and by handles that wrap them
//! ([`Node`], [`User`], [`Origin`] and the handles of value and state
//! ports); a handle holds no reference to its context, which is handed to
//! each operation. A [`NodeBuilder`] collects the origins of a node's inputs
//! before the node is made.
//!
//! The contracts speak of the model of a context, a [`Graph`]: `graph` says
//! what it is for a graph to be well formed, `change` how the operations
//! change it, and `laws` what follows for every graph and for every two
//! constructions. The proofs are in `linking`, `growth` and `staging`.

pub mod builder;
pub mod change;
pub mod ctxt;
pub mod data;
pub mod dot;
pub mod graph;
pub mod growth;
pub mod handle;
pub mod ids;
pub mod kind;
pub mod laws;
pub mod linking;
pub mod sig;
pub mod staging;
pub mod term;

pub use builder::NodeBuilder;
pub use ctxt::{NodeCtxt, NodeCtxtConfig};
pub use data::{InnerRegionList, NodeData, OriginData, RegionData, UserData, UserIdList};
pub use graph::{Graph, Shared, Term};
pub use handle::{
    Node, Origin, StOrigin, StUser, StUsers, User, Users, ValOrigin, ValUser, ValUsers,
};
pub use ids::{NodeId, OriginId, RegionId, UserId};
pub use kind::NodeKind;
pub use sig::{RegionSigS, Sig, SigS};
