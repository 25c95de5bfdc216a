//! How a graph changes: the steps that the operations are made of, and the
//! relations between a graph before and after an operation.

use vstd::prelude::*;
use crate::data::{NodeModel, OriginData, RegionModel, UserData, UserIdList};
use crate::graph::{top_region, Graph, Shared, Term};
use crate::ids::{NodeId, OriginId, RegionId, UserId};
use crate::kind::{exact_vocabulary, NodeKind};
use crate::sig::Sig;

verus! {

impl<S: Sig> Graph<S> {
    /// The graph in which the record of `u` is `d`.
    pub open spec fn put_user(self, u: UserId, d: UserData) -> Graph<S>
        recommends
            self.has_user(u),
    {
        match u {
            UserId::In { node, index } => Graph {
                nodes: self.nodes.update(
                    node.0 as int,
                    NodeModel {
                        ins: self.nodes[node.0 as int].ins.update(index as int, d),
                        ..self.nodes[node.0 as int]
                    },
                ),
                ..self
            },
            UserId::Res { region, index } => Graph {
                regions: self.regions.update(
                    region.0 as int,
                    RegionModel {
                        res: self.regions[region.0 as int].res.update(index as int, d),
                        ..self.regions[region.0 as int]
                    },
                ),
                ..self
            },
        }
    }

    /// The graph in which the record of `o` is `d`.
    pub open spec fn put_origin(self, o: OriginId, d: OriginData) -> Graph<S>
        recommends
            self.has_origin(o),
    {
        match o {
            OriginId::Out { node, index } => Graph {
                nodes: self.nodes.update(
                    node.0 as int,
                    NodeModel {
                        outs: self.nodes[node.0 as int].outs.update(index as int, d),
                        ..self.nodes[node.0 as int]
                    },
                ),
                ..self
            },
            OriginId::Arg { region, index } => Graph {
                regions: self.regions.update(
                    region.0 as int,
                    RegionModel {
                        args: self.regions[region.0 as int].args.update(index as int, d),
                        ..self.regions[region.0 as int]
                    },
                ),
                ..self
            },
        }
    }

    /// Node `n` of `post` is node `n` of this graph but for what its ports'
    /// records hold.
    pub open spec fn node_kept(self, post: Graph<S>, n: int) -> bool {
        &&& post.nodes[n].kind == self.nodes[n].kind
        &&& post.nodes[n].outer_region == self.nodes[n].outer_region
        &&& post.nodes[n].inner_regions == self.nodes[n].inner_regions
        &&& post.nodes[n].ins.len() == self.nodes[n].ins.len()
        &&& post.nodes[n].outs.len() == self.nodes[n].outs.len()
    }

    /// Region `r` of `post` is region `r` of this graph but for what its
    /// ports' records hold.
    pub open spec fn region_kept(self, post: Graph<S>, r: int) -> bool {
        &&& post.regions[r].sequence_index == self.regions[r].sequence_index
        &&& post.regions[r].prev_region == self.regions[r].prev_region
        &&& post.regions[r].next_region == self.regions[r].next_region
        &&& post.regions[r].res.len() == self.regions[r].res.len()
        &&& post.regions[r].args.len() == self.regions[r].args.len()
    }

    /// `post` has the nodes, regions and ports of this graph, and no others.
    pub open spec fn same_ports(self, post: Graph<S>) -> bool {
        &&& post.nodes.len() == self.nodes.len()
        &&& post.regions.len() == self.regions.len()
        &&& forall|n: int| 0 <= n < self.nodes.len() ==> #[trigger] self.node_kept(post, n)
        &&& forall|r: int| 0 <= r < self.regions.len() ==> #[trigger] self.region_kept(post, r)
    }

    /// `post` can be reached from this graph: nodes are only added, and keep
    /// their identifier, kind and ports; a connection, once made, stays; the
    /// lists of users and the table of shared nodes only grow at their end.
    pub open spec fn grows_to(self, post: Graph<S>) -> bool {
        &&& self.nodes.len() <= post.nodes.len()
        &&& self.regions.len() == post.regions.len()
        &&& forall|n: int| 0 <= n < self.nodes.len() ==> #[trigger] self.node_kept(post, n)
        &&& forall|r: int| 0 <= r < self.regions.len() ==> #[trigger] self.region_kept(post, r)
        &&& forall|u: UserId| #[trigger]
            self.has_user(u) && self.user(u).origin.is_some() ==> post.user(u).origin == self.user(
                u,
            ).origin
        &&& forall|o: OriginId| (#[trigger] self.users_of(o)).is_prefix_of(post.users_of(o))
        &&& self.interned.is_prefix_of(post.interned)
        &&& self.interning == post.interning
    }

    /// `post` is this graph after the unconnected port `u` was connected to
    /// `o`: `u` is the last user of `o`, and nothing else has changed. With
    /// well-formedness this fixes every record of `post`.
    pub open spec fn connected(self, u: UserId, o: OriginId, post: Graph<S>) -> bool {
        &&& post.wf()
        &&& self.same_ports(post)
        &&& post.users == self.users.insert(o, self.users_of(o).push(u))
        &&& forall|v: UserId| #[trigger]
            self.has_user(v) ==> post.user(v).origin == (if v == u {
                Some(o)
            } else {
                self.user(v).origin
            })
        &&& post.interned == self.interned
        &&& post.interning == self.interning
    }

    /// The steps that connect `u` to `o`: the last user of `o`, if there is
    /// one, gets `u` as its successor; `u` gets `o` as its origin and that
    /// user as its predecessor; `o` gets `u` as its last user.
    pub open spec fn link(self, u: UserId, o: OriginId) -> Graph<S> {
        let g = match self.origin(o).users {
            Some(l) => {
                let tail = self.user(l.last);
                self.put_user(l.last, UserData { next_user: Some(u), ..tail }).put_user(
                    u,
                    UserData { origin: Some(o), prev_user: Some(l.last), next_user: None },
                ).put_origin(o, OriginData { users: Some(UserIdList { first: l.first, last: u }) })
            },
            None => self.put_user(
                u,
                UserData { origin: Some(o), prev_user: None, next_user: None },
            ).put_origin(o, OriginData { users: Some(UserIdList { first: u, last: u }) }),
        };
        Graph { users: self.users.insert(o, self.users_of(o).push(u)), ..g }
    }

    /// The graph with one more node of kind `kind` in `region`, whose ports
    /// are connected to nothing and in which no region lies.
    pub open spec fn with_node(self, kind: NodeKind<S>, region: RegionId) -> Graph<S> {
        Graph {
            nodes: self.nodes.push(
                NodeModel {
                    kind,
                    ins: Seq::new(
                        kind.sig_spec().input_ports() as nat,
                        |i: int| UserData::unconnected(),
                    ),
                    outs: Seq::new(
                        kind.sig_spec().output_ports() as nat,
                        |i: int| OriginData::unused(),
                    ),
                    outer_region: region,
                    inner_regions: None,
                },
            ),
            ..self
        }
    }

    /// The first `k` inputs of `node` that are connected to `o`, where the
    /// inputs are connected to `origins` in their order.
    pub open spec fn inputs_on(node: NodeId, origins: Seq<OriginId>, o: OriginId, k: nat) -> Seq<
        UserId,
    >
        decreases k,
    {
        if k == 0 {
            Seq::empty()
        } else {
            let before = Self::inputs_on(node, origins, o, (k - 1) as nat);
            if origins[k - 1] == o {
                before.push(UserId::In { node, index: (k - 1) as usize })
            } else {
                before
            }
        }
    }

    /// The term under which a node of kind `kind` with inputs connected to
    /// `origins` is shared.
    pub open spec fn term_of(kind: NodeKind<S>, origins: Seq<OriginId>) -> Term<S> {
        Term { region: top_region(), kind, origins }
    }

    /// A construction from `kind` and `origins` hands out a node that exists
    /// already: equal pure nodes are shared, the kind is pure, and the table
    /// holds the term.
    pub open spec fn reuses(self, kind: NodeKind<S>, origins: Seq<OriginId>) -> bool {
        self.interning && kind.pure() && self.shared(Self::term_of(kind, origins)).is_some()
    }

    /// `post` is this graph with the new node `id` of kind `kind`: the next
    /// node in the arena; its input `i` is connected to `origins[i]`, and is
    /// a new last user of that origin, the inputs in their order; its outputs
    /// have no users; and no other connection has changed. With
    /// well-formedness this fixes every record of `post`. Of the table of
    /// shared nodes it says only that it has grown.
    pub open spec fn added(
        self,
        kind: NodeKind<S>,
        origins: Seq<OriginId>,
        post: Graph<S>,
        id: NodeId,
    ) -> bool {
        &&& id.0 == self.nodes.len()
        &&& post.wf()
        &&& self.grows_to(post)
        &&& post.nodes.len() == self.nodes.len() + 1
        &&& post.nodes[id.0 as int].kind == kind
        &&& post.nodes[id.0 as int].outer_region == top_region()
        &&& post.nodes[id.0 as int].inner_regions.is_none()
        &&& forall|i: int|
            0 <= i < origins.len() ==> (#[trigger] post.nodes[id.0 as int].ins[i]).origin
                == Some(origins[i])
        &&& forall|o: OriginId| #[trigger]
            post.users_of(o) == self.users_of(o) + Self::inputs_on(
                id,
                origins,
                o,
                origins.len(),
            )
        &&& forall|u: UserId| #[trigger]
            self.has_user(u) ==> post.user(u).origin == self.user(u).origin
    }

    /// `post` and `id` are this graph and the node after a construction from
    /// `kind` and `origins`.
    ///
    /// Where the construction reuses a node, the graph is unchanged and `id`
    /// is the node that the table holds for the term. Else `id` is a new
    /// node, added as `added` says, and the table holds it under its term if
    /// the kind is pure and sharing is on.
    pub open spec fn made(
        self,
        kind: NodeKind<S>,
        origins: Seq<OriginId>,
        post: Graph<S>,
        id: NodeId,
    ) -> bool {
        if self.reuses(kind, origins) {
            &&& post == self
            &&& Some(id) == self.shared(Self::term_of(kind, origins))
        } else {
            &&& self.added(kind, origins, post, id)
            &&& post.interned == (if self.interning && kind.pure() {
                self.interned.push(Shared { term: Self::term_of(kind, origins), node: id })
            } else {
                self.interned
            })
        }
    }
}

impl<S: Sig + PartialEq + Clone> Graph<S> {
    /// A node can be constructed from `kind` and `origins`: the signature
    /// of the kind can be computed and its port counts held in a `usize`,
    /// there is one origin for each input, and each is a port of this graph.
    /// Where the node may be shared, the vocabulary is exact.
    pub open spec fn admits(self, kind: NodeKind<S>, origins: Seq<OriginId>) -> bool {
        &&& kind.countable()
        &&& kind.sig_spec().fits()
        &&& origins.len() == kind.sig_spec().input_ports()
        &&& forall|i: int| 0 <= i < origins.len() ==> self.has_origin(#[trigger] origins[i])
        &&& self.interning && kind.pure() ==> exact_vocabulary::<S>()
    }
}

} // verus!
