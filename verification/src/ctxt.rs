//! The graph context: the owner of all nodes and regions.

use vstd::prelude::*;
use crate::builder::NodeBuilder;
use crate::data::{NodeData, OriginData, RegionData, UserData, UserIdList};
use crate::graph::{lemma_edges_grow, Graph, Shared};
use crate::growth::{
    lemma_added_typed, lemma_grows_names, lemma_grows_refl, lemma_grows_trans, lemma_table_push,
    lemma_with_node, lemma_with_node_typed,
};
use crate::handle::{Node, Origin, User};
use crate::ids::{NodeId, OriginId, RegionId, UserId};
use crate::kind::{exact_vocabulary, lemma_exact_kinds, NodeKind};
use crate::laws::law_made_node;
use crate::linking::{lemma_connected_grows, lemma_connected_typed, lemma_link};
use crate::sig::Sig;
use crate::staging::{
    lemma_partly_done, lemma_partly_start, lemma_partly_step, lemma_staged_link,
    lemma_staged_next,
};
use crate::term::NodeTerm;

verus! {

/// The options of a context.
pub struct NodeCtxtConfig {
    /// Whether a pure node is shared with an equal one that exists already.
    pub opt_interning: bool,
}

impl Default for NodeCtxtConfig {
    fn default() -> (c: NodeCtxtConfig)
        ensures
            c.opt_interning,
    {
        NodeCtxtConfig { opt_interning: true }
    }
}

/// An entry of the table of shared nodes.
struct Interned<S> {
    term: NodeTerm<S>,
    node: NodeId,
}

/// A graph: the arenas of its nodes and regions, and the table of its
/// shared nodes. Nodes and regions are named by their index in the arenas,
/// which never changes.
pub struct NodeCtxt<S> {
    nodes: Vec<NodeData<S>>,
    regions: Vec<RegionData>,
    interned_nodes: Vec<Interned<S>>,
    config: NodeCtxtConfig,
    users: Ghost<Map<OriginId, Seq<UserId>>>,
}

impl<S> View for NodeCtxt<S> {
    type V = Graph<S>;

    closed spec fn view(&self) -> Graph<S> {
        Graph {
            nodes: self.nodes@.map_values(|n: NodeData<S>| n@),
            regions: self.regions@.map_values(|r: RegionData| r@),
            users: self.users@,
            interned: self.interned_nodes@.map_values(
                |e: Interned<S>| Shared { term: e.term@, node: e.node },
            ),
            interning: self.config.opt_interning,
        }
    }
}

/// `n` input ports that are connected to nothing.
fn unconnected_ports(n: usize) -> (ports: Vec<UserData>)
    ensures
        ports@ == Seq::new(n as nat, |i: int| UserData::unconnected()),
{
    let mut ports: Vec<UserData> = Vec::with_capacity(n);
    let mut i: usize = 0;
    while i < n
        invariant
            i <= n,
            ports@ == Seq::new(i as nat, |k: int| UserData::unconnected()),
        decreases n - i,
    {
        ports.push(UserData::default());
        i += 1;
        assert(ports@ =~= Seq::new(i as nat, |k: int| UserData::unconnected()));
    }
    ports
}

/// `n` output ports that nothing uses.
fn unused_ports(n: usize) -> (ports: Vec<OriginData>)
    ensures
        ports@ == Seq::new(n as nat, |i: int| OriginData::unused()),
{
    let mut ports: Vec<OriginData> = Vec::with_capacity(n);
    let mut i: usize = 0;
    while i < n
        invariant
            i <= n,
            ports@ == Seq::new(i as nat, |k: int| OriginData::unused()),
        decreases n - i,
    {
        ports.push(OriginData::default());
        i += 1;
        assert(ports@ =~= Seq::new(i as nat, |k: int| OriginData::unused()));
    }
    ports
}

impl<S: Sig> NodeCtxt<S> {
    /// An empty graph in which equal pure nodes are shared.
    pub fn new() -> (ctxt: NodeCtxt<S>)
        ensures
            ctxt@ == Graph::<S>::empty(true),
            ctxt@.wf(),
            ctxt@.well_typed(),
    {
        NodeCtxt::with_config(NodeCtxtConfig::default())
    }

    /// An empty graph with the given options.
    pub fn with_config(config: NodeCtxtConfig) -> (ctxt: NodeCtxt<S>)
        ensures
            ctxt@ == Graph::<S>::empty(config.opt_interning),
            ctxt@.wf(),
            ctxt@.well_typed(),
    {
        let ctxt = NodeCtxt {
            nodes: Vec::new(),
            regions: Vec::new(),
            interned_nodes: Vec::new(),
            config,
            users: Ghost(Map::empty()),
        };
        assert(ctxt@.nodes =~= Seq::empty());
        assert(ctxt@.regions =~= Seq::empty());
        assert(ctxt@.interned =~= Seq::empty());
        ctxt
    }

    /// The number of nodes.
    pub fn num_nodes(&self) -> (n: usize)
        ensures
            n == self@.nodes.len(),
    {
        self.nodes.len()
    }

    /// The number of edges: the input ports of all nodes, connected or not.
    pub fn num_edges(&self) -> (n: usize)
        requires
            self@.edge_count() <= usize::MAX,
        ensures
            n == self@.edge_count(),
    {
        let mut n: usize = 0;
        let mut i: usize = 0;
        while i < self.nodes.len()
            invariant
                i <= self.nodes@.len(),
                n == self@.edges_below(i as nat),
                self@.edge_count() <= usize::MAX,
            decreases self.nodes@.len() - i,
        {
            proof {
                lemma_edges_grow(self@, (i + 1) as nat, self@.nodes.len());
            }
            n = n + self.nodes[i].ins.len();
            i += 1;
        }
        n
    }

    /// A builder for a node of the operation `op`.
    pub fn node_builder(&self, op: S) -> (builder: NodeBuilder<S>)
        ensures
            builder.kind() == NodeKind::Op(op),
            builder.operand_ids() == Seq::<OriginId>::empty(),
            builder.state_ids() == Seq::<OriginId>::empty(),
    {
        NodeBuilder::new(NodeKind::Op(op))
    }

    /// The record of a node.
    pub fn node_data(&self, id: NodeId) -> (data: &NodeData<S>)
        requires
            self@.has_node(id),
        ensures
            data@ == self@.nodes[id.0 as int],
    {
        &self.nodes[id.0]
    }

    /// The record of a region.
    pub fn region_data(&self, id: RegionId) -> (data: &RegionData)
        requires
            self@.has_region(id),
        ensures
            data@ == self@.regions[id.0 as int],
    {
        &self.regions[id.0]
    }

    /// The record of an input or result port.
    pub fn user_data(&self, user_id: UserId) -> (data: &UserData)
        requires
            self@.has_user(user_id),
        ensures
            *data == self@.user(user_id),
    {
        match user_id {
            UserId::In { node, index } => &self.nodes[node.0].ins[index],
            UserId::Res { region, index } => &self.regions[region.0].res[index],
        }
    }

    /// The record of an output or argument port.
    pub fn origin_data(&self, origin_id: OriginId) -> (data: &OriginData)
        requires
            self@.has_origin(origin_id),
        ensures
            *data == self@.origin(origin_id),
    {
        match origin_id {
            OriginId::Out { node, index } => &self.nodes[node.0].outs[index],
            OriginId::Arg { region, index } => &self.regions[region.0].args[index],
        }
    }

    /// Replaces the record of a user port.
    fn put_user(&mut self, user_id: UserId, data: UserData)
        requires
            old(self)@.has_user(user_id),
        ensures
            final(self)@ == old(self)@.put_user(user_id, data),
    {
        match user_id {
            UserId::In { node, index } => {
                self.nodes[node.0].ins[index] = data;
            },
            UserId::Res { region, index } => {
                self.regions[region.0].res[index] = data;
            },
        }
        assert(self@.nodes =~= old(self)@.put_user(user_id, data).nodes);
        assert(self@.regions =~= old(self)@.put_user(user_id, data).regions);
    }

    /// Replaces the record of an origin port.
    fn put_origin(&mut self, origin_id: OriginId, data: OriginData)
        requires
            old(self)@.has_origin(origin_id),
        ensures
            final(self)@ == old(self)@.put_origin(origin_id, data),
    {
        match origin_id {
            OriginId::Out { node, index } => {
                self.nodes[node.0].outs[index] = data;
            },
            OriginId::Arg { region, index } => {
                self.regions[region.0].args[index] = data;
            },
        }
        assert(self@.nodes =~= old(self)@.put_origin(origin_id, data).nodes);
        assert(self@.regions =~= old(self)@.put_origin(origin_id, data).regions);
    }

    /// Connects the unconnected port `user_id` to `origin_id`: the port
    /// becomes the last user of the origin.
    pub fn connect_ports(&mut self, user_id: UserId, origin_id: OriginId)
        requires
            old(self)@.wf(),
            old(self)@.has_user(user_id),
            old(self)@.has_origin(origin_id),
            old(self)@.user(user_id).origin.is_none(),
        ensures
            old(self)@.connected(user_id, origin_id, final(self)@),
            old(self)@.grows_to(final(self)@),
            old(self)@.well_typed() && old(self)@.fits_port(user_id, origin_id) ==> final(self)@.well_typed(),
    {
        let ghost g = self@;
        proof {
            assert(g.list_ok(origin_id));
            assert(g.user_ok(user_id));
        }
        let users = self.origin_data(origin_id).users;
        match users {
            Some(UserIdList { first, last }) => {
                let tail = *self.user_data(last);
                self.put_user(
                    last,
                    UserData { origin: tail.origin, prev_user: tail.prev_user, next_user: Some(user_id) },
                );
                self.put_user(
                    user_id,
                    UserData { origin: Some(origin_id), prev_user: Some(last), next_user: None },
                );
                self.put_origin(
                    origin_id,
                    OriginData { users: Some(UserIdList { first, last: user_id }) },
                );
            },
            None => {
                self.put_user(
                    user_id,
                    UserData { origin: Some(origin_id), prev_user: None, next_user: None },
                );
                self.put_origin(
                    origin_id,
                    OriginData { users: Some(UserIdList { first: user_id, last: user_id }) },
                );
            },
        }
        self.users = Ghost(g.users.insert(origin_id, g.users_of(origin_id).push(user_id)));
        proof {
            assert(self@ == g.link(user_id, origin_id));
            lemma_link(g, user_id, origin_id);
            lemma_connected_grows(g, user_id, origin_id, self@);
            if g.well_typed() && g.fits_port(user_id, origin_id) {
                lemma_connected_typed(g, user_id, origin_id, self@);
            }
        }
    }

    /// Adds a node of kind `node_kind` whose ports are connected to nothing.
    /// The node is not shared, whatever its kind.
    pub fn create_node(&mut self, node_kind: NodeKind<S>, outer_region_id: RegionId) -> (node: Node)
        requires
            old(self)@.wf(),
            node_kind.countable(),
            node_kind.sig_spec().fits(),
        ensures
            node.id.0 == old(self)@.nodes.len(),
            final(self)@ == old(self)@.with_node(node_kind, outer_region_id),
            final(self)@.wf(),
            old(self)@.grows_to(final(self)@),
            old(self)@.well_typed() ==> final(self)@.well_typed(),
    {
        let node_id = NodeId(self.nodes.len());
        let sig = node_kind.sig();
        let ins = unconnected_ports(sig.num_input_ports());
        let outs = unused_ports(sig.num_output_ports());
        self.nodes.push(
            NodeData { ins, outs, inner_regions: None, outer_region: outer_region_id, kind: node_kind },
        );
        proof {
            assert(self@.nodes =~= old(self)@.with_node(node_kind, outer_region_id).nodes);
            lemma_with_node(old(self)@, node_kind, outer_region_id);
            if old(self)@.well_typed() {
                lemma_with_node_typed(old(self)@, node_kind, outer_region_id);
            }
        }
        self.node_ref(node_id)
    }

    /// The handle of the node `node_id`.
    pub fn node_ref(&self, node_id: NodeId) -> (node: Node)
        requires
            self@.has_node(node_id),
        ensures
            node.id == node_id,
    {
        Node { id: node_id }
    }

    /// The handle of the port `user_id`.
    pub fn user_ref(&self, user_id: UserId) -> (user: User)
        requires
            self@.has_user(user_id),
        ensures
            user.user_id == user_id,
    {
        User { user_id }
    }

    /// The handle of the port `origin_id`.
    pub fn origin_ref(&self, origin_id: OriginId) -> (origin: Origin)
        requires
            self@.has_origin(origin_id),
        ensures
            origin.origin_id == origin_id,
    {
        Origin { origin_id }
    }
}

impl<S: Sig + Eq + core::hash::Hash + Clone> NodeCtxt<S> {
    /// The node that the table holds under `term`, if there is one.
    fn find_shared(&self, term: &NodeTerm<S>) -> (found: Option<NodeId>)
        requires
            self@.wf(),
            exact_vocabulary::<S>(),
        ensures
            found == self@.shared(term@),
    {
        let mut i: usize = 0;
        while i < self.interned_nodes.len()
            invariant
                i <= self.interned_nodes.len(),
                exact_vocabulary::<S>(),
                self@.wf(),
                forall|k: int| 0 <= k < i ==> (#[trigger] self@.interned[k]).term != term@,
            decreases self.interned_nodes.len() - i,
        {
            if self.interned_nodes[i].term.same(term) {
                assert(self@.interned[i as int].term == term@);
                return Some(self.interned_nodes[i].node);
            }
            i += 1;
        }
        None
    }

    /// Constructs a node for the operation `op`, which has no inputs; or
    /// hands out an equal node, as `mk_node_with` does.
    pub fn mk_node(&mut self, op: S) -> (node: Node)
        requires
            old(self)@.wf(),
            old(self)@.admits(NodeKind::Op(op), Seq::empty()),
        ensures
            old(self)@.made(NodeKind::Op(op), Seq::empty(), final(self)@, node.id),
            final(self)@.wf(),
            old(self)@.grows_to(final(self)@),
            final(self)@.has_node(node.id),
            final(self)@.nodes[node.id.0 as int].kind == NodeKind::Op(op),
            old(self)@.interning && op.sig_spec().st_outs == 0 ==> final(self)@.shared(
                Graph::<S>::term_of(NodeKind::Op(op), Seq::empty()),
            ) == Some(node.id),
            old(self)@.well_typed() ==> final(self)@.well_typed(),
    {
        let origins: Vec<OriginId> = Vec::new();
        let node_id = self.mk_node_with(NodeKind::Op(op), origins.as_slice());
        Node { id: node_id }
    }

    /// Constructs a node of kind `kind` whose inputs are connected to
    /// `origins`, in their order; or hands out the node that was constructed
    /// from an equal kind and equal origins before, if the kind is pure and
    /// equal pure nodes are shared.
    pub fn mk_node_with(&mut self, kind: NodeKind<S>, origins: &[OriginId]) -> (id: NodeId)
        requires
            old(self)@.wf(),
            old(self)@.admits(kind, origins@),
        ensures
            old(self)@.made(kind, origins@, final(self)@, id),
            final(self)@.wf(),
            old(self)@.grows_to(final(self)@),
            final(self)@.has_node(id),
            final(self)@.nodes[id.0 as int].kind == kind,
            old(self)@.interning && kind.pure() ==> final(self)@.shared(
                Graph::<S>::term_of(kind, origins@),
            ) == Some(id),
            old(self)@.well_typed() && old(self)@.fit_inputs(kind, origins@) ==> final(self)@.well_typed(),
    {
        let ghost pre = self@;
        let ghost term = Graph::<S>::term_of(kind, origins@);
        let region_id = RegionId(0);
        let intern = self.config.opt_interning && !kind.sig().is_side_effectful();
        let id = if intern {
            proof {
                lemma_exact_kinds::<S>();
            }
            let node_term = NodeTerm::new(region_id, kind.clone(), origins);
            match self.find_shared(&node_term) {
                Some(node_id) => {
                    proof {
                        lemma_grows_refl(pre);
                        let i = choose|i: int|
                            0 <= i < pre.interned.len() && (#[trigger] pre.interned[i]).term == term;
                        assert(pre.matches_term(pre.interned[i].node, pre.interned[i].term));
                    }
                    node_id
                },
                None => {
                    let node_id = self.link_node(kind, origins);
                    let ghost linked = self@;
                    self.interned_nodes.push(Interned { term: node_term, node: node_id });
                    proof {
                        let post = self@;
                        assert(post.interned =~= pre.interned.push(Shared { term, node: node_id }));
                        assert(post == (Graph {
                            interned: linked.interned.push(Shared { term, node: node_id }),
                            ..linked
                        }));
                        assert(linked.node_shaped(node_id.0 as int));
                        assert(linked.matches_term(node_id, term));
                        lemma_table_push(linked, term, node_id);
                        lemma_grows_trans(pre, linked, post);
                        assert forall|o: OriginId| #[trigger]
                            post.users_of(o) == pre.users_of(o) + Graph::<S>::inputs_on(
                                node_id,
                                origins@,
                                o,
                                origins@.len(),
                            ) by {
                            assert(post.users_of(o) == linked.users_of(o));
                        }
                        assert forall|u: UserId| #[trigger] pre.has_user(u) implies post.user(
                            u,
                        ).origin == pre.user(u).origin by {
                            lemma_grows_names(pre, linked);
                            assert(post.user(u) == linked.user(u));
                        }
                        if pre.well_typed() && pre.fit_inputs(kind, origins@) {
                            lemma_added_typed(pre, kind, origins@, post, node_id);
                        }
                    }
                    node_id
                },
            }
        } else {
            let node_id = self.link_node(kind, origins);
            proof {
                if pre.well_typed() && pre.fit_inputs(kind, origins@) {
                    lemma_added_typed(pre, kind, origins@, self@, node_id);
                }
            }
            node_id
        };
        proof {
            law_made_node(pre, kind, origins@, self@, id);
        }
        id
    }
}

impl<S: Sig> NodeCtxt<S> {
    /// Adds a node of kind `kind` whose inputs are connected to `origins`,
    /// in their order. The table of shared nodes is left as it is.
    ///
    /// The records of the inputs are built first, each input being linked
    /// into the list of users of its origin as it is built; then the node is
    /// put into the arena with them. Where the last user of an origin is an
    /// earlier input of the same node, its record is still among those that
    /// are being built, and gets its successor there.
    fn link_node(&mut self, kind: NodeKind<S>, origins: &[OriginId]) -> (id: NodeId)
        requires
            old(self)@.wf(),
            kind.countable(),
            kind.sig_spec().fits(),
            origins@.len() == kind.sig_spec().input_ports(),
            forall|i: int| 0 <= i < origins@.len() ==> old(self)@.has_origin(#[trigger] origins@[i]),
        ensures
            old(self)@.added(kind, origins@, final(self)@, id),
            final(self)@.interned == old(self)@.interned,
            final(self)@.interning == old(self)@.interning,
    {
        let ghost pre = self@;
        let sig = kind.sig();
        let mut new_node_inputs: Vec<UserData> = Vec::with_capacity(sig.num_input_ports());
        let node_id = NodeId(self.nodes.len());
        proof {
            lemma_partly_start(pre, kind, origins@, node_id);
        }
        let mut i: usize = 0;
        while i < origins.len()
            invariant
                i <= origins@.len(),
                new_node_inputs@.len() == i,
                node_id.0 == pre.nodes.len(),
                self@.nodes.len() == pre.nodes.len(),
                pre.wf(),
                kind.countable(),
                kind.sig_spec().fits(),
                forall|k: int| 0 <= k < origins@.len() ==> pre.has_origin(#[trigger] origins@[k]),
                pre.partly_added(
                    kind,
                    origins@,
                    self@.staged(kind, new_node_inputs@),
                    node_id,
                    i as nat,
                ),
            decreases origins@.len() - i,
        {
            let ghost arena = self@;
            let ghost inputs = new_node_inputs@;
            proof {
                lemma_staged_next(pre, kind, origins@, arena, inputs, node_id);
            }
            let origin = origins[i];
            let new_in_id = UserId::In { node: node_id, index: i };
            let (prev_user, new_user_list) = match self.origin_data(origin).users {
                Some(UserIdList { first, last }) => {
                    match last {
                        UserId::In { node, index } if node.0 == node_id.0 => {
                            new_node_inputs[index].next_user = Some(new_in_id);
                        },
                        _ => {
                            let tail = *self.user_data(last);
                            self.put_user(
                                last,
                                UserData {
                                    origin: tail.origin,
                                    prev_user: tail.prev_user,
                                    next_user: Some(new_in_id),
                                },
                            );
                        },
                    }
                    (Some(last), UserIdList { first, last: new_in_id })
                },
                None => (None, UserIdList { first: new_in_id, last: new_in_id }),
            };
            self.put_origin(origin, OriginData { users: Some(new_user_list) });
            new_node_inputs.push(UserData { origin: Some(origin), prev_user, next_user: None });
            self.users = Ghost(arena.users.insert(origin, arena.users_of(origin).push(new_in_id)));
            proof {
                assert(arena.input_linked(inputs, node_id, origin, self@, new_node_inputs@));
                lemma_staged_link(arena, kind, inputs, node_id, origin, self@, new_node_inputs@);
                lemma_link(arena.staged(kind, inputs), new_in_id, origin);
                lemma_partly_step(
                    pre,
                    kind,
                    origins@,
                    arena.staged(kind, inputs),
                    self@.staged(kind, new_node_inputs@),
                    node_id,
                    i as nat,
                );
            }
            i += 1;
        }
        let ghost arena = self@;
        self.nodes.push(
            NodeData {
                ins: new_node_inputs,
                outs: unused_ports(sig.num_output_ports()),
                inner_regions: None,
                outer_region: RegionId(0),
                kind,
            },
        );
        proof {
            assert(self@.nodes =~= arena.staged(kind, new_node_inputs@).nodes) by {
                assert(arena.staged(kind, new_node_inputs@).nodes.last().ins =~= new_node_inputs@);
            }
            assert(self@ == arena.staged(kind, new_node_inputs@));
            lemma_partly_done(pre, kind, origins@, self@, node_id);
        }
        node_id
    }
}

} // verus!
