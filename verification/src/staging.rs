//! A node under construction: the graph while the inputs of a new node are
//! being connected, one after the other, before the node is put into the
//! arena.

use vstd::prelude::*;
use crate::data::{NodeModel, OriginData, UserData, UserIdList};
use crate::graph::{top_region, Graph};
use crate::growth::{lemma_grows_names, lemma_with_node};
use crate::ids::{NodeId, OriginId, UserId};
use crate::kind::NodeKind;
use crate::linking::{lemma_same_ports_names, lemma_same_ports_refl, lemma_same_ports_trans};
use crate::sig::Sig;

verus! {

impl<S: Sig> Graph<S> {
    /// This graph with the node that is being built put after its nodes: a
    /// node of kind `kind` whose first inputs hold `inputs`, whose other
    /// inputs are connected to nothing, and whose outputs nothing uses.
    pub open spec fn staged(self, kind: NodeKind<S>, inputs: Seq<UserData>) -> Graph<S> {
        Graph {
            nodes: self.nodes.push(
                NodeModel {
                    kind,
                    ins: inputs + Seq::new(
                        (kind.sig_spec().input_ports() - inputs.len()) as nat,
                        |i: int| UserData::unconnected(),
                    ),
                    outs: Seq::new(
                        kind.sig_spec().output_ports() as nat,
                        |i: int| OriginData::unused(),
                    ),
                    outer_region: top_region(),
                    inner_regions: None,
                },
            ),
            ..self
        }
    }

    /// `cur` is this graph with the new node `id` of kind `kind`, of whose
    /// inputs the first `k` are connected, input `i` to `origins[i]`.
    pub closed spec fn partly_added(
        self,
        kind: NodeKind<S>,
        origins: Seq<OriginId>,
        cur: Graph<S>,
        id: NodeId,
        k: nat,
    ) -> bool {
        &&& id.0 == self.nodes.len()
        &&& k <= origins.len() == kind.sig_spec().input_ports()
        &&& cur.wf()
        &&& self.with_node(kind, top_region()).same_ports(cur)
        &&& cur.interned == self.interned
        &&& cur.interning == self.interning
        &&& forall|o: OriginId| #[trigger]
            cur.users_of(o) == self.users_of(o) + Self::inputs_on(id, origins, o, k)
        &&& forall|u: UserId| #[trigger]
            self.has_user(u) ==> cur.user(u).origin == self.user(u).origin
        &&& forall|j: int|
            0 <= j < k ==> (#[trigger] cur.nodes[id.0 as int].ins[j]).origin == Some(origins[j])
        &&& forall|j: int|
            k <= j < origins.len() ==> (#[trigger] cur.nodes[id.0 as int].ins[j]).origin.is_none()
    }
}

/// The record of a port that has just been connected to `o`, after the
/// port `prev` if there is one.
pub open spec fn connected_record(o: OriginId, prev: Option<UserId>) -> UserData {
    UserData { origin: Some(o), prev_user: prev, next_user: None }
}

impl<S: Sig> Graph<S> {
    /// `arena2` and `inputs2` are this graph and the inputs of the node that
    /// is being built, `inputs`, after the next input of that node, `id`, was
    /// connected to `o`: the last user of `o`, if there is one, has the new
    /// input as its successor, in `inputs2` if it is an input of the same
    /// node and in `arena2` if it is not; `inputs2` ends with the record of
    /// the new input; and `o` has the new input as its last user.
    pub open spec fn input_linked(
        self,
        inputs: Seq<UserData>,
        id: NodeId,
        o: OriginId,
        arena2: Graph<S>,
        inputs2: Seq<UserData>,
    ) -> bool {
        let u = UserId::In { node: id, index: inputs.len() as usize };
        let users = self.users.insert(o, self.users_of(o).push(u));
        match self.origin(o).users {
            Some(ends) => {
                let d = OriginData { users: Some(UserIdList { first: ends.first, last: u }) };
                if ends.last is In && ends.last->In_node == id {
                    let index = ends.last->In_index as int;
                    &&& index < inputs.len()
                    &&& inputs2 == inputs.update(
                        index,
                        UserData { next_user: Some(u), ..inputs[index] },
                    ).push(connected_record(o, Some(ends.last)))
                    &&& arena2 == (Graph { users, ..self.put_origin(o, d) })
                } else {
                    &&& self.has_user(ends.last)
                    &&& inputs2 == inputs.push(connected_record(o, Some(ends.last)))
                    &&& arena2 == (Graph {
                        users,
                        ..self.put_user(
                            ends.last,
                            UserData { next_user: Some(u), ..self.user(ends.last) },
                        ).put_origin(o, d)
                    })
                }
            },
            None => {
                &&& inputs2 == inputs.push(connected_record(o, None))
                &&& arena2 == (Graph {
                    users,
                    ..self.put_origin(
                        o,
                        OriginData { users: Some(UserIdList { first: u, last: u }) },
                    )
                })
            },
        }
    }
}

/// A new node starts with none of its inputs connected.
pub proof fn lemma_partly_start<S: Sig>(
    g: Graph<S>,
    kind: NodeKind<S>,
    origins: Seq<OriginId>,
    id: NodeId,
)
    requires
        g.wf(),
        kind.countable(),
        kind.sig_spec().fits(),
        origins.len() == kind.sig_spec().input_ports(),
        id.0 == g.nodes.len(),
    ensures
        g.partly_added(kind, origins, g.staged(kind, Seq::empty()), id, 0),
{
    let p = g.with_node(kind, top_region());
    assert(g.staged(kind, Seq::empty()).nodes =~= p.nodes) by {
        assert(g.staged(kind, Seq::empty()).nodes.last().ins =~= p.nodes.last().ins);
    }
    assert(g.staged(kind, Seq::empty()) == p);
    lemma_with_node(g, kind, top_region());
    lemma_same_ports_refl(p);
    assert forall|o: OriginId| #[trigger]
        p.users_of(o) == g.users_of(o) + Graph::<S>::inputs_on(id, origins, o, 0) by {
        assert(g.users_of(o) + Seq::<UserId>::empty() =~= g.users_of(o));
    }
}

/// The next input of a node that is being added, and the origin that it is
/// to be connected to, are ports of the graph, and the input is connected to
/// nothing.
pub proof fn lemma_partly_next<S: Sig>(
    g: Graph<S>,
    kind: NodeKind<S>,
    origins: Seq<OriginId>,
    cur: Graph<S>,
    id: NodeId,
    k: nat,
)
    requires
        g.wf(),
        g.partly_added(kind, origins, cur, id, k),
        k < origins.len(),
        g.has_origin(origins[k as int]),
        kind.countable(),
        kind.sig_spec().fits(),
    ensures
        cur.wf(),
        k <= usize::MAX,
        cur.has_user(UserId::In { node: id, index: k as usize }),
        cur.has_origin(origins[k as int]),
        cur.user(UserId::In { node: id, index: k as usize }).origin.is_none(),
{
    let g1 = g.with_node(kind, top_region());
    lemma_with_node(g, kind, top_region());
    lemma_grows_names(g, g1);
    lemma_same_ports_names(g1, cur);
    assert(g1.node_kept(cur, id.0 as int));
    let v = UserId::In { node: id, index: k as usize };
    assert(cur.user(v) == cur.nodes[id.0 as int].ins[k as int]);
}

/// Connecting the next input of a node that is being added.
pub proof fn lemma_partly_step<S: Sig>(
    g: Graph<S>,
    kind: NodeKind<S>,
    origins: Seq<OriginId>,
    cur: Graph<S>,
    next: Graph<S>,
    id: NodeId,
    k: nat,
)
    requires
        g.wf(),
        kind.countable(),
        kind.sig_spec().fits(),
        g.partly_added(kind, origins, cur, id, k),
        k < origins.len(),
        cur.connected(UserId::In { node: id, index: k as usize }, origins[k as int], next),
    ensures
        g.partly_added(kind, origins, next, id, k + 1),
{
    let g1 = g.with_node(kind, top_region());
    let user_id = UserId::In { node: id, index: k as usize };
    let origin_id = origins[k as int];
    lemma_with_node(g, kind, top_region());
    lemma_grows_names(g, g1);
    lemma_same_ports_names(g1, cur);
    lemma_same_ports_trans(g1, cur, next);
    lemma_same_ports_names(cur, next);
    assert(g1.node_kept(cur, id.0 as int));
    assert(g1.node_kept(next, id.0 as int));
    assert forall|o: OriginId| #[trigger]
        next.users_of(o) == g.users_of(o) + Graph::<S>::inputs_on(id, origins, o, k + 1) by {
        let added = Graph::<S>::inputs_on(id, origins, o, k);
        assert(cur.users_of(o) == g.users_of(o) + added);
        if o == origin_id {
            assert(next.users_of(o) == cur.users_of(o).push(user_id));
            assert((g.users_of(o) + added).push(user_id) =~= g.users_of(o) + added.push(user_id));
        } else {
            assert(next.users_of(o) == cur.users_of(o));
        }
    }
    assert forall|u: UserId| #[trigger] g.has_user(u) implies next.user(u).origin == g.user(
        u,
    ).origin by {
        assert(g1.has_user(u));
        assert(cur.has_user(u));
        assert(next.has_user(u));
        assert(u != user_id);
    }
    assert forall|j: int| 0 <= j < k + 1 implies (#[trigger] next.nodes[id.0 as int].ins[j]).origin
        == Some(origins[j]) by {
        let v = UserId::In { node: id, index: j as usize };
        assert(cur.has_user(v));
        assert(next.user(v) == next.nodes[id.0 as int].ins[j]);
        assert(cur.user(v) == cur.nodes[id.0 as int].ins[j]);
    }
    assert forall|j: int| k + 1 <= j < origins.len() implies (#[trigger] next.nodes[id.0
        as int].ins[j]).origin.is_none() by {
        let v = UserId::In { node: id, index: j as usize };
        assert(cur.has_user(v));
        assert(next.user(v) == next.nodes[id.0 as int].ins[j]);
        assert(cur.user(v) == cur.nodes[id.0 as int].ins[j]);
    }
}

/// A node of which every input is connected has been added.
pub proof fn lemma_partly_done<S: Sig>(
    g: Graph<S>,
    kind: NodeKind<S>,
    origins: Seq<OriginId>,
    post: Graph<S>,
    id: NodeId,
)
    requires
        g.wf(),
        kind.countable(),
        kind.sig_spec().fits(),
        g.partly_added(kind, origins, post, id, origins.len()),
    ensures
        g.added(kind, origins, post, id),
        post.interned == g.interned,
        post.interning == g.interning,
{
    let g1 = g.with_node(kind, top_region());
    lemma_with_node(g, kind, top_region());
    assert(g1.node_kept(post, id.0 as int));
    assert forall|n: int| 0 <= n < g.nodes.len() implies #[trigger] g.node_kept(post, n) by {
        assert(g.node_kept(g1, n));
        assert(g1.node_kept(post, n));
    }
    assert forall|r: int| 0 <= r < g.regions.len() implies #[trigger] g.region_kept(post, r) by {
        assert(g.region_kept(g1, r));
        assert(g1.region_kept(post, r));
    }
    assert forall|o: OriginId| (#[trigger] g.users_of(o)).is_prefix_of(post.users_of(o)) by {
        assert(post.users_of(o) == g.users_of(o) + Graph::<S>::inputs_on(
            id,
            origins,
            o,
            origins.len(),
        ));
    }
}

/// Connecting the next input of the node that is being built, by its
/// records in the arena and among the inputs, is connecting it in the graph
/// in which the node stands after the others.
pub proof fn lemma_staged_link<S: Sig>(
    arena: Graph<S>,
    kind: NodeKind<S>,
    inputs: Seq<UserData>,
    id: NodeId,
    o: OriginId,
    arena2: Graph<S>,
    inputs2: Seq<UserData>,
)
    requires
        id.0 == arena.nodes.len(),
        inputs.len() < kind.sig_spec().input_ports() <= usize::MAX,
        arena.has_origin(o),
        arena.input_linked(inputs, id, o, arena2, inputs2),
    ensures
        arena2.staged(kind, inputs2) == arena.staged(kind, inputs).link(
            UserId::In { node: id, index: inputs.len() as usize },
            o,
        ),
{
    let u = UserId::In { node: id, index: inputs.len() as usize };
    let cur = arena.staged(kind, inputs);
    let next = arena2.staged(kind, inputs2);
    let want = cur.link(u, o);
    let n = arena.nodes.len() as int;
    assert(cur.origin(o) == arena.origin(o));
    assert(cur.users_of(o) == arena.users_of(o));
    assert(next.users == want.users);
    assert(next.regions =~= want.regions);
    assert(next.nodes.len() == want.nodes.len());
    assert(next.nodes[n].ins =~= want.nodes[n].ins);
    assert(next.nodes[n].outs =~= want.nodes[n].outs);
    assert forall|k: int| 0 <= k < n implies next.nodes[k] == want.nodes[k] by {
        assert(next.nodes[k].ins =~= want.nodes[k].ins);
        assert(next.nodes[k].outs =~= want.nodes[k].outs);
    }
    assert(next.nodes =~= want.nodes);
}

/// What is known before the next input of the node that is being built is
/// connected: the origin is a port of the arena, with the record that it has
/// in the graph in which the node stands after the others; and the last user
/// of the origin is an earlier input of the node, or a port of the arena.
pub proof fn lemma_staged_next<S: Sig>(
    g: Graph<S>,
    kind: NodeKind<S>,
    origins: Seq<OriginId>,
    arena: Graph<S>,
    inputs: Seq<UserData>,
    id: NodeId,
)
    requires
        g.wf(),
        kind.countable(),
        kind.sig_spec().fits(),
        g.partly_added(kind, origins, arena.staged(kind, inputs), id, inputs.len()),
        inputs.len() < origins.len(),
        arena.nodes.len() == g.nodes.len(),
        g.has_origin(origins[inputs.len() as int]),
    ensures
        inputs.len() < kind.sig_spec().input_ports() <= usize::MAX,
        arena.staged(kind, inputs).wf(),
        arena.has_origin(origins[inputs.len() as int]),
        arena.users == arena.staged(kind, inputs).users,
        match arena.origin(origins[inputs.len() as int]).users {
            Some(ends) => if ends.last is In && ends.last->In_node == id {
                ends.last->In_index < inputs.len()
            } else {
                arena.has_user(ends.last)
            },
            None => true,
        },
{
    let k = inputs.len();
    let cur = arena.staged(kind, inputs);
    let o = origins[k as int];
    lemma_partly_next(g, kind, origins, cur, id, k);
    assert(cur.list_ok(o));
    assert(cur.origin(o) == arena.origin(o));
    match arena.origin(o).users {
        Some(ends) => {
            let l = cur.users_of(o);
            assert(ends.last == l[l.len() - 1]);
            assert(cur.has_user(ends.last));
            assert(cur.user(ends.last).origin == Some(o));
            if ends.last is In && ends.last->In_node == id {
                let index = ends.last->In_index as int;
                if index >= k {
                    assert(cur.nodes[id.0 as int].ins[index] == UserData::unconnected());
                }
            }
        },
        None => {},
    }
}

} // verus!
