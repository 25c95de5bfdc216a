//! The mathematical model of a graph, and what it means for one to be well
//! formed.
//!
//! The model holds, beside the ports' records, the users of every origin in
//! the order in which they were connected. Well-formedness ties the records
//! to those lists: each origin's record names the first and the last of its
//! users, and each user's record names its neighbours.

use vstd::prelude::*;
use crate::data::{NodeModel, OriginData, RegionModel, UserData, UserIdList};
use crate::ids::{NodeId, OriginId, RegionId, UserId};
use crate::kind::NodeKind;
use crate::sig::Sig;

verus! {

/// The key under which a pure node is shared: its region, its kind and the
/// origins of its inputs, in the order of the inputs.
pub ghost struct Term<S> {
    pub region: RegionId,
    pub kind: NodeKind<S>,
    pub origins: Seq<OriginId>,
}

/// An entry of the table of shared nodes.
pub ghost struct Shared<S> {
    pub term: Term<S>,
    pub node: NodeId,
}

/// The model of a graph.
pub ghost struct Graph<S> {
    /// The nodes, in the order of their creation.
    pub nodes: Seq<NodeModel<S>>,
    /// The regions, in the order of their creation.
    pub regions: Seq<RegionModel>,
    /// The users of each origin, in the order of their connection. An origin
    /// that is no key has no users.
    pub users: Map<OriginId, Seq<UserId>>,
    /// The table of shared nodes, in the order of their insertion.
    pub interned: Seq<Shared<S>>,
    /// Whether equal pure nodes are shared.
    pub interning: bool,
}

/// The region that every node is created in.
pub open spec fn top_region() -> RegionId {
    RegionId(0)
}

impl<S: Sig> Graph<S> {
    /// The graph without nodes.
    pub open spec fn empty(interning: bool) -> Graph<S> {
        Graph {
            nodes: Seq::empty(),
            regions: Seq::empty(),
            users: Map::empty(),
            interned: Seq::empty(),
            interning,
        }
    }

    pub open spec fn has_node(self, n: NodeId) -> bool {
        n.0 < self.nodes.len()
    }

    pub open spec fn has_region(self, r: RegionId) -> bool {
        r.0 < self.regions.len()
    }

    /// `u` names a port of this graph.
    pub open spec fn has_user(self, u: UserId) -> bool {
        match u {
            UserId::In { node, index } => {
                self.has_node(node) && index < self.nodes[node.0 as int].ins.len()
            },
            UserId::Res { region, index } => {
                self.has_region(region) && index < self.regions[region.0 as int].res.len()
            },
        }
    }

    /// `o` names a port of this graph.
    pub open spec fn has_origin(self, o: OriginId) -> bool {
        match o {
            OriginId::Out { node, index } => {
                self.has_node(node) && index < self.nodes[node.0 as int].outs.len()
            },
            OriginId::Arg { region, index } => {
                self.has_region(region) && index < self.regions[region.0 as int].args.len()
            },
        }
    }

    /// The record of the port `u`.
    pub open spec fn user(self, u: UserId) -> UserData
        recommends
            self.has_user(u),
    {
        match u {
            UserId::In { node, index } => self.nodes[node.0 as int].ins[index as int],
            UserId::Res { region, index } => self.regions[region.0 as int].res[index as int],
        }
    }

    /// The record of the port `o`.
    pub open spec fn origin(self, o: OriginId) -> OriginData
        recommends
            self.has_origin(o),
    {
        match o {
            OriginId::Out { node, index } => self.nodes[node.0 as int].outs[index as int],
            OriginId::Arg { region, index } => self.regions[region.0 as int].args[index as int],
        }
    }

    /// The users of `o`, in the order of their connection.
    pub open spec fn users_of(self, o: OriginId) -> Seq<UserId> {
        if self.users.dom().contains(o) {
            self.users[o]
        } else {
            Seq::empty()
        }
    }

    /// The number of edges: every input port counts, connected or not.
    pub open spec fn edge_count(self) -> int {
        self.edges_below(self.nodes.len())
    }

    /// The number of input ports of the first `k` nodes.
    pub open spec fn edges_below(self, k: nat) -> int
        decreases k,
    {
        if k == 0 {
            0
        } else {
            self.edges_below((k - 1) as nat) + self.nodes[k - 1].ins.len()
        }
    }

    // ---------------------------------------------------------------------
    // Well-formedness

    /// Node `n` has the ports that its signature asks for.
    pub open spec fn node_shaped(self, n: int) -> bool {
        let node = self.nodes[n];
        let sig = node.kind.sig_spec();
        &&& node.kind.countable()
        &&& sig.fits()
        &&& node.ins.len() == sig.input_ports()
        &&& node.outs.len() == sig.output_ports()
    }

    /// Every node has the ports that its signature asks for.
    pub open spec fn shaped(self) -> bool {
        forall|n: int| 0 <= n < self.nodes.len() ==> #[trigger] self.node_shaped(n)
    }

    /// The records agree with the list of users of `o`: the origin's record
    /// names the first and the last user, each user's record names `o` and
    /// the user's neighbours in the list, and no user occurs twice.
    pub open spec fn list_ok(self, o: OriginId) -> bool {
        let l = self.users_of(o);
        &&& l.no_duplicates()
        &&& self.origin(o).users == (if l.len() == 0 {
            None
        } else {
            Some(UserIdList { first: l[0], last: l[l.len() - 1] })
        })
        &&& forall|i: int|
            0 <= i < l.len() ==> {
                &&& self.has_user(#[trigger] l[i])
                &&& self.user(l[i]).origin == Some(o)
                &&& self.user(l[i]).prev_user == (if i == 0 {
                    None
                } else {
                    Some(l[i - 1])
                })
                &&& self.user(l[i]).next_user == (if i == l.len() - 1 {
                    None
                } else {
                    Some(l[i + 1])
                })
            }
    }

    /// The record of `u` is that of a port without neighbours if `u` is
    /// connected to nothing; else its origin is a port of this graph whose
    /// list of users holds `u`.
    pub open spec fn user_ok(self, u: UserId) -> bool {
        match self.user(u).origin {
            None => self.user(u).prev_user.is_none() && self.user(u).next_user.is_none(),
            Some(o) => self.has_origin(o) && self.users_of(o).contains(u),
        }
    }

    /// The records of all ports agree with the lists of users.
    pub open spec fn linked(self) -> bool {
        &&& forall|o: OriginId| #[trigger] self.has_origin(o) ==> self.list_ok(o)
        &&& forall|o: OriginId| #[trigger] self.users.dom().contains(o) ==> self.has_origin(o)
        &&& forall|u: UserId| #[trigger] self.has_user(u) ==> self.user_ok(u)
    }

    /// Node `n` is the node that `term` describes: a pure node of that kind in
    /// that region, whose inputs are connected to the term's origins.
    pub open spec fn matches_term(self, n: NodeId, term: Term<S>) -> bool {
        &&& self.has_node(n)
        &&& self.nodes[n.0 as int].kind == term.kind
        &&& self.nodes[n.0 as int].outer_region == term.region
        &&& term.kind.pure()
        &&& self.nodes[n.0 as int].ins.len() == term.origins.len()
        &&& forall|j: int|
            0 <= j < term.origins.len() ==> (#[trigger] self.nodes[n.0 as int].ins[j]).origin
                == Some(term.origins[j])
    }

    /// Every entry of the table describes its node, and no two entries have
    /// the same term.
    pub open spec fn table_ok(self) -> bool {
        &&& forall|i: int|
            0 <= i < self.interned.len() ==> self.matches_term(
                (#[trigger] self.interned[i]).node,
                self.interned[i].term,
            )
        &&& forall|i: int, j: int|
            0 <= i < j < self.interned.len() ==> (#[trigger] self.interned[i]).term != (
            #[trigger] self.interned[j]).term
    }

    /// The graph is well formed.
    pub open spec fn wf(self) -> bool {
        &&& self.shaped()
        &&& self.linked()
        &&& self.table_ok()
    }

    // ---------------------------------------------------------------------
    // Value ports and state ports

    /// `o` is a value output of a node.
    pub open spec fn value_origin(self, o: OriginId) -> bool {
        match o {
            OriginId::Out { node, index } => {
                self.has_node(node) && index < self.nodes[node.0 as int].kind.sig_spec().val_outs
            },
            OriginId::Arg { .. } => false,
        }
    }

    /// `o` is a state output of a node.
    pub open spec fn state_origin(self, o: OriginId) -> bool {
        match o {
            OriginId::Out { node, index } => {
                let sig = self.nodes[node.0 as int].kind.sig_spec();
                self.has_node(node) && sig.val_outs <= index < sig.val_outs + sig.st_outs
            },
            OriginId::Arg { .. } => false,
        }
    }

    /// `u` is a value input of a node.
    pub open spec fn value_user(self, u: UserId) -> bool {
        match u {
            UserId::In { node, index } => {
                self.has_node(node) && index < self.nodes[node.0 as int].kind.sig_spec().val_ins
            },
            UserId::Res { .. } => false,
        }
    }

    /// `u` is a state input of a node.
    pub open spec fn state_user(self, u: UserId) -> bool {
        match u {
            UserId::In { node, index } => {
                let sig = self.nodes[node.0 as int].kind.sig_spec();
                self.has_node(node) && sig.val_ins <= index < sig.val_ins + sig.st_ins
            },
            UserId::Res { .. } => false,
        }
    }

    /// `u` may be connected to `o`: a value input to a value output only, a
    /// state input to a state output only.
    pub open spec fn fits_port(self, u: UserId, o: OriginId) -> bool {
        &&& self.value_user(u) ==> self.value_origin(o)
        &&& self.state_user(u) ==> self.state_origin(o)
    }

    /// `origins` may be connected to the inputs of a node of kind `kind`,
    /// in their order: value outputs come first, one for each value input;
    /// state outputs follow.
    pub open spec fn fit_inputs(self, kind: NodeKind<S>, origins: Seq<OriginId>) -> bool {
        forall|i: int|
            0 <= i < origins.len() ==> if i < kind.sig_spec().val_ins {
                self.value_origin(#[trigger] origins[i])
            } else {
                self.state_origin(origins[i])
            }
    }

    /// Every connection of a node's input is between ports of one sort.
    pub open spec fn well_typed(self) -> bool {
        forall|u: UserId| #[trigger]
            self.has_user(u) ==> match self.user(u).origin {
                Some(o) => self.fits_port(u, o),
                None => true,
            }
    }

    /// The node that is shared under `term`, if there is one.
    pub open spec fn shared(self, term: Term<S>) -> Option<NodeId> {
        if exists|i: int| 0 <= i < self.interned.len() && (#[trigger] self.interned[i]).term == term {
            let i = choose|i: int|
                0 <= i < self.interned.len() && (#[trigger] self.interned[i]).term == term;
            Some(self.interned[i].node)
        } else {
            None
        }
    }
}

/// The first nodes of a graph have no more input ports than any more of its
/// first nodes.
pub proof fn lemma_edges_grow<S: Sig>(g: Graph<S>, i: nat, j: nat)
    requires
        i <= j,
    ensures
        g.edges_below(i) <= g.edges_below(j),
    decreases j,
{
    if i < j {
        lemma_edges_grow(g, i, (j - 1) as nat);
    }
}

} // verus!
