//! The records kept for ports, nodes and regions, and their mathematical
//! models.

use vstd::prelude::*;
use crate::ids::{OriginId, RegionId, UserId};
use crate::kind::NodeKind;
use crate::sig::{Sig, SigS};

verus! {

/// The two ends of the list of users that share one origin.
#[derive(Clone, Copy, PartialEq, Eq, Structural, Debug)]
pub struct UserIdList {
    pub first: UserId,
    pub last: UserId,
}

/// What is kept for an input or result port: the origin it is connected to,
/// and its neighbours in that origin's list of users.
#[derive(Clone, Copy, Debug)]
pub struct UserData {
    pub origin: Option<OriginId>,
    pub prev_user: Option<UserId>,
    pub next_user: Option<UserId>,
}

/// What is kept for an output or argument port: the ends of its list of
/// users, or nothing while it has none.
#[derive(Clone, Copy, Debug)]
pub struct OriginData {
    pub users: Option<UserIdList>,
}

impl UserData {
    /// A port that is connected to nothing.
    pub open spec fn unconnected() -> UserData {
        UserData { origin: None, prev_user: None, next_user: None }
    }
}

impl OriginData {
    /// A port that nothing uses.
    pub open spec fn unused() -> OriginData {
        OriginData { users: None }
    }
}

impl Default for UserData {
    fn default() -> (d: UserData)
        ensures
            d == UserData::unconnected(),
    {
        UserData { origin: None, prev_user: None, next_user: None }
    }
}

impl Default for OriginData {
    fn default() -> (d: OriginData)
        ensures
            d == OriginData::unused(),
    {
        OriginData { users: None }
    }
}

/// The first and last of the regions nested in a structured node.
#[derive(Copy, Clone, Debug)]
pub struct InnerRegionList {
    pub first_region: RegionId,
    pub last_region: RegionId,
}

/// A node as the arena stores it.
pub struct NodeData<S> {
    pub ins: Vec<UserData>,
    pub outs: Vec<OriginData>,
    pub inner_regions: Option<InnerRegionList>,
    pub outer_region: RegionId,
    pub kind: NodeKind<S>,
}

/// A region as the arena stores it.
pub struct RegionData {
    pub sequence_index: usize,
    pub res: Vec<UserData>,
    pub args: Vec<OriginData>,
    pub prev_region: Option<RegionId>,
    pub next_region: Option<RegionId>,
}

/// The model of a node: its kind, its input ports (value ports first), its
/// output ports (value ports first), the region that it lies in and the
/// regions that lie in it.
pub ghost struct NodeModel<S> {
    pub kind: NodeKind<S>,
    pub ins: Seq<UserData>,
    pub outs: Seq<OriginData>,
    pub outer_region: RegionId,
    pub inner_regions: Option<InnerRegionList>,
}

/// The model of a region: its place among the regions of its node, its
/// result ports and its argument ports.
pub ghost struct RegionModel {
    pub sequence_index: usize,
    pub res: Seq<UserData>,
    pub args: Seq<OriginData>,
    pub prev_region: Option<RegionId>,
    pub next_region: Option<RegionId>,
}

impl<S> View for NodeData<S> {
    type V = NodeModel<S>;

    open spec fn view(&self) -> NodeModel<S> {
        NodeModel {
            kind: self.kind,
            ins: self.ins@,
            outs: self.outs@,
            outer_region: self.outer_region,
            inner_regions: self.inner_regions,
        }
    }
}

impl View for RegionData {
    type V = RegionModel;

    open spec fn view(&self) -> RegionModel {
        RegionModel {
            sequence_index: self.sequence_index,
            res: self.res@,
            args: self.args@,
            prev_region: self.prev_region,
            next_region: self.next_region,
        }
    }
}

impl<S: Sig> NodeData<S> {
    /// The signature of this node, which is that of its kind.
    pub fn sig(&self) -> (s: SigS)
        requires
            self.kind.countable(),
        ensures
            s == self.kind.sig_spec(),
    {
        self.kind.sig()
    }
}

} // verus!
