//! Identifiers of nodes, regions and ports.
//!
//! A port is not a separately allocated entity: it is addressed by the node
//! (or region) that owns it and its position among that owner's ports.

use vstd::prelude::*;

verus! {

/// Index of a node in the node arena of a context.
#[derive(Clone, Copy, PartialEq, Eq, Structural, Hash, Debug)]
pub struct NodeId(pub usize);

/// Index of a region in the region arena of a context.
#[derive(Clone, Copy, PartialEq, Eq, Structural, Hash, Debug)]
pub struct RegionId(pub usize);

/// A user port: an input of a node or a result of a region. It is the sink
/// of at most one edge.
#[derive(Clone, Copy, PartialEq, Eq, Structural, Debug)]
pub enum UserId {
    In { node: NodeId, index: usize },
    Res { region: RegionId, index: usize },
}

/// An origin port: an output of a node or an argument of a region. It is the
/// source of any number of edges.
#[derive(Clone, Copy, PartialEq, Eq, Structural, Hash, Debug)]
pub enum OriginId {
    Out { node: NodeId, index: usize },
    Arg { region: RegionId, index: usize },
}

impl UserId {
    /// The node that owns this port, if it is a node input.
    pub open spec fn owner(self) -> Option<NodeId> {
        match self {
            UserId::In { node, .. } => Some(node),
            UserId::Res { .. } => None,
        }
    }

    /// The node that owns this port; `None` for a region result.
    pub fn node_id(&self) -> (r: Option<NodeId>)
        ensures
            r == self.owner(),
    {
        match *self {
            UserId::In { node, .. } => Some(node),
            _ => None,
        }
    }
}

impl OriginId {
    /// The node that owns this port, if it is a node output.
    pub open spec fn owner(self) -> Option<NodeId> {
        match self {
            OriginId::Out { node, .. } => Some(node),
            OriginId::Arg { .. } => None,
        }
    }

    /// The node that owns this port; `None` for a region argument.
    pub fn node_id(&self) -> (r: Option<NodeId>)
        ensures
            r == self.owner(),
    {
        match *self {
            OriginId::Out { node, .. } => Some(node),
            _ => None,
        }
    }
}

} // verus!
