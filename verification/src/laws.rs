//! What holds of every well-formed graph, and of every two constructions.

use vstd::prelude::*;
use crate::growth::{lemma_grows_names, lemma_grows_refl};
use crate::data::UserIdList;
use crate::graph::Graph;
use crate::ids::{NodeId, OriginId, UserId};
use crate::kind::NodeKind;
use crate::sig::Sig;

verus! {

impl<S: Sig> Graph<S> {
    /// The ports met on the way from `from` along the successors, at most
    /// `fuel` of them.
    pub open spec fn forward(self, from: Option<UserId>, fuel: nat) -> Seq<UserId>
        decreases fuel,
    {
        match from {
            Some(u) if fuel > 0 => seq![u] + self.forward(self.user(u).next_user, (fuel - 1) as nat),
            _ => Seq::empty(),
        }
    }

    /// The ports met on the way from `from` along the predecessors, at most
    /// `fuel` of them.
    pub open spec fn backward(self, from: Option<UserId>, fuel: nat) -> Seq<UserId>
        decreases fuel,
    {
        match from {
            Some(u) if fuel > 0 => seq![u] + self.backward(
                self.user(u).prev_user,
                (fuel - 1) as nat,
            ),
            _ => Seq::empty(),
        }
    }

    /// The first user of `o`, if it has one.
    pub open spec fn head(self, o: OriginId) -> Option<UserId> {
        match self.origin(o).users {
            Some(ends) => Some(ends.first),
            None => None,
        }
    }

    /// The last user of `o`, if it has one.
    pub open spec fn tail(self, o: OriginId) -> Option<UserId> {
        match self.origin(o).users {
            Some(ends) => Some(ends.last),
            None => None,
        }
    }
}

/// Every node of a well-formed graph has as many input ports as its
/// signature has value and state inputs, and as many output ports as it has
/// value and state outputs.
pub proof fn law_arity<S: Sig>(g: Graph<S>, n: NodeId)
    requires
        g.wf(),
        g.has_node(n),
    ensures
        g.nodes[n.0 as int].ins.len() == g.nodes[n.0 as int].kind.sig_spec().val_ins
            + g.nodes[n.0 as int].kind.sig_spec().st_ins,
        g.nodes[n.0 as int].outs.len() == g.nodes[n.0 as int].kind.sig_spec().val_outs
            + g.nodes[n.0 as int].kind.sig_spec().st_outs,
{
    assert(g.node_shaped(n.0 as int));
}

/// In a well-formed graph the records agree with the order in which the
/// users of an origin were connected: the origin names the first and the
/// last of them, the first has no predecessor, the last no successor, and of
/// two that follow each other each names the other.
pub proof fn law_user_list<S: Sig>(g: Graph<S>, o: OriginId)
    requires
        g.wf(),
        g.has_origin(o),
    ensures
        g.users_of(o).len() == 0 ==> g.origin(o).users.is_none(),
        g.users_of(o).len() > 0 ==> {
            &&& g.origin(o).users == Some(
                UserIdList { first: g.users_of(o).first(), last: g.users_of(o).last() },
            )
            &&& g.user(g.users_of(o).first()).prev_user.is_none()
            &&& g.user(g.users_of(o).last()).next_user.is_none()
        },
        forall|i: int|
            1 <= i < g.users_of(o).len() ==> {
                &&& g.user(#[trigger] g.users_of(o)[i]).prev_user == Some(g.users_of(o)[i - 1])
                &&& g.user(g.users_of(o)[i - 1]).next_user == Some(g.users_of(o)[i])
            },
        forall|i: int|
            0 <= i < g.users_of(o).len() ==> g.user(#[trigger] g.users_of(o)[i]).origin == Some(o),
        g.users_of(o).no_duplicates(),
{
    assert(g.list_ok(o));
    let l = g.users_of(o);
    assert forall|i: int| 1 <= i < l.len() implies {
        &&& g.user(#[trigger] l[i]).prev_user == Some(l[i - 1])
        &&& g.user(l[i - 1]).next_user == Some(l[i])
    } by {
        assert(g.has_user(l[i]));
        assert(g.has_user(l[i - 1]));
    }
}

/// Every connected port of a well-formed graph is among the users of its
/// origin, once.
pub proof fn law_user_listed<S: Sig>(g: Graph<S>, u: UserId, o: OriginId)
    requires
        g.wf(),
        g.has_user(u),
        g.user(u).origin == Some(o),
    ensures
        g.has_origin(o),
        g.users_of(o).contains(u),
        g.users_of(o).no_duplicates(),
{
    assert(g.user_ok(u));
    assert(g.list_ok(o));
}

/// From user `i` of an origin the successors lead through the users that
/// were connected after it, in their order.
proof fn lemma_forward_from<S: Sig>(g: Graph<S>, o: OriginId, i: int)
    requires
        g.wf(),
        g.has_origin(o),
        0 <= i < g.users_of(o).len(),
    ensures
        g.forward(Some(g.users_of(o)[i]), (g.users_of(o).len() - i) as nat) == g.users_of(
            o,
        ).skip(i),
    decreases g.users_of(o).len() - i,
{
    let l = g.users_of(o);
    assert(g.list_ok(o));
    assert(g.has_user(l[i]));
    if i < l.len() - 1 {
        lemma_forward_from(g, o, i + 1);
        assert(seq![l[i]] + l.skip(i + 1) =~= l.skip(i));
    } else {
        assert(g.forward(None, 0) =~= Seq::<UserId>::empty());
        assert(seq![l[i]] + Seq::<UserId>::empty() =~= l.skip(i));
    }
}

/// From user `i` of an origin the predecessors lead through the users that
/// were connected before it, the latest first.
proof fn lemma_backward_from<S: Sig>(g: Graph<S>, o: OriginId, i: int)
    requires
        g.wf(),
        g.has_origin(o),
        0 <= i < g.users_of(o).len(),
    ensures
        g.backward(Some(g.users_of(o)[i]), (i + 1) as nat) == g.users_of(o).take(i + 1).reverse(),
    decreases i,
{
    let l = g.users_of(o);
    assert(g.list_ok(o));
    assert(g.has_user(l[i]));
    if i > 0 {
        lemma_backward_from(g, o, i - 1);
        assert(seq![l[i]] + l.take(i).reverse() =~= l.take(i + 1).reverse());
    } else {
        assert(g.backward(None, 0) =~= Seq::<UserId>::empty());
        assert(seq![l[i]] + Seq::<UserId>::empty() =~= l.take(i + 1).reverse());
    }
}

/// In a well-formed graph the way forward from the first user of an origin
/// and the way backward from its last user lead through the same users: the
/// users of the origin, in the order of their connection and in the reverse
/// of it.
pub proof fn law_both_ways<S: Sig>(g: Graph<S>, o: OriginId)
    requires
        g.wf(),
        g.has_origin(o),
    ensures
        g.forward(g.head(o), g.users_of(o).len()) == g.users_of(o),
        g.backward(g.tail(o), g.users_of(o).len()) == g.users_of(o).reverse(),
        g.backward(g.tail(o), g.users_of(o).len()).reverse() == g.forward(
            g.head(o),
            g.users_of(o).len(),
        ),
{
    let l = g.users_of(o);
    assert(g.list_ok(o));
    if l.len() > 0 {
        lemma_forward_from(g, o, 0);
        lemma_backward_from(g, o, l.len() - 1);
        assert(l.skip(0) =~= l);
        assert(l.take(l.len() as int) =~= l);
    } else {
        assert(g.forward(None, 0) =~= l);
        assert(g.backward(None, 0) =~= l.reverse());
    }
    assert(l.reverse().reverse() =~= l);
}

/// In a well-formed and well-typed graph a value input is connected to a
/// value output, and a state input to a state output.
pub proof fn law_typed_ports<S: Sig>(g: Graph<S>, u: UserId, o: OriginId)
    requires
        g.well_typed(),
        g.has_user(u),
        g.user(u).origin == Some(o),
    ensures
        g.value_user(u) ==> g.value_origin(o),
        g.state_user(u) ==> g.state_origin(o),
{
    assert(g.fits_port(u, o));
}

/// After a construction the node that it gave is a node of the graph, of
/// the kind that was asked for, with each input connected to the origin
/// that was given for it; and if it may be shared, the table holds it under
/// its term.
pub proof fn law_made_node<S: Sig>(
    g: Graph<S>,
    kind: NodeKind<S>,
    origins: Seq<OriginId>,
    post: Graph<S>,
    id: NodeId,
)
    requires
        g.wf(),
        origins.len() == kind.sig_spec().input_ports(),
        g.made(kind, origins, post, id),
    ensures
        post.wf(),
        g.grows_to(post),
        post.has_node(id),
        post.nodes[id.0 as int].kind == kind,
        post.nodes[id.0 as int].ins.len() == origins.len(),
        forall|i: int|
            0 <= i < origins.len() ==> (#[trigger] post.nodes[id.0 as int].ins[i]).origin == Some(
                origins[i],
            ),
        g.interning && kind.pure() ==> post.shared(Graph::<S>::term_of(kind, origins)) == Some(id),
{
    let term = Graph::<S>::term_of(kind, origins);
    if g.reuses(kind, origins) {
        lemma_grows_refl(g);
        let i = choose|i: int| 0 <= i < g.interned.len() && (#[trigger] g.interned[i]).term == term;
        assert(g.matches_term(g.interned[i].node, g.interned[i].term));
    } else {
        assert(post.node_shaped(id.0 as int));
        if g.interning && kind.pure() {
            let last = g.interned.len() as int;
            assert(post.interned[last].term == term);
            let j = choose|j: int|
                0 <= j < post.interned.len() && (#[trigger] post.interned[j]).term == term;
            if j != last {
                if j < last {
                    assert(post.interned[j].term != post.interned[last].term);
                } else {
                    assert(post.interned[last].term != post.interned[j].term);
                }
            }
        }
    }
}

/// The table of shared nodes of a well-formed graph holds pure nodes only,
/// each under the term that describes it: its kind, and the origins that its
/// inputs are connected to. No term is held twice, and no node.
pub proof fn law_table<S: Sig>(g: Graph<S>, i: int, j: int)
    requires
        g.wf(),
        0 <= i < g.interned.len(),
        0 <= j < g.interned.len(),
    ensures
        g.has_node(g.interned[i].node),
        g.nodes[g.interned[i].node.0 as int].kind == g.interned[i].term.kind,
        !g.nodes[g.interned[i].node.0 as int].kind.sig_spec().side_effectful(),
        g.matches_term(g.interned[i].node, g.interned[i].term),
        g.interned[i].term == g.interned[j].term ==> i == j,
        g.interned[i].node == g.interned[j].node ==> i == j,
{
    let n = g.interned[i].node;
    let a = g.interned[i].term;
    let b = g.interned[j].term;
    assert(g.matches_term(n, a));
    assert(g.matches_term(g.interned[j].node, b));
    if n == g.interned[j].node {
        assert(a.origins =~= b.origins) by {
            assert forall|k: int| 0 <= k < a.origins.len() implies a.origins[k] == b.origins[k] by {
                assert(g.nodes[n.0 as int].ins[k].origin == Some(a.origins[k]));
                assert(g.nodes[n.0 as int].ins[k].origin == Some(b.origins[k]));
            }
        }
        assert(a == b);
    }
    if a == b {
        if i < j {
            assert(g.interned[i].term != g.interned[j].term);
        } else if j < i {
            assert(g.interned[j].term != g.interned[i].term);
        }
    }
}

/// Two constructions give the same node exactly when equal pure nodes are
/// shared, the kind is pure, and the kinds and the origins of the two are
/// equal, in the order of the origins too. So two constructions of a node
/// with a state output give two nodes, whatever their inputs; and so do two
/// constructions that differ in one origin.
///
/// The graph may have grown between the two: `g0` and `g1` are the graph
/// before and after the first, `g2` and `g3` before and after the second.
pub proof fn law_shared_or_distinct<S: Sig>(
    g0: Graph<S>,
    kind1: NodeKind<S>,
    origins1: Seq<OriginId>,
    g1: Graph<S>,
    id1: NodeId,
    g2: Graph<S>,
    kind2: NodeKind<S>,
    origins2: Seq<OriginId>,
    g3: Graph<S>,
    id2: NodeId,
)
    requires
        g0.wf(),
        origins1.len() == kind1.sig_spec().input_ports(),
        g0.made(kind1, origins1, g1, id1),
        g1.grows_to(g2),
        g2.wf(),
        g2.made(kind2, origins2, g3, id2),
    ensures
        id1 == id2 <==> g0.interning && kind1.pure() && kind1 == kind2 && origins1 == origins2,
{
    let term1 = Graph::<S>::term_of(kind1, origins1);
    let term2 = Graph::<S>::term_of(kind2, origins2);
    law_made_node(g0, kind1, origins1, g1, id1);
    lemma_grows_names(g1, g2);
    assert(g1.node_kept(g2, id1.0 as int));
    if g0.interning && kind1.pure() {
        // The table holds the first node under its term, and keeps it.
        let i = choose|i: int|
            0 <= i < g1.interned.len() && (#[trigger] g1.interned[i]).term == term1;
        assert(g1.interned[i].node == id1);
        assert(g2.interned[i] == g1.interned[i]);
        if g2.reuses(kind2, origins2) {
            let j = choose|j: int|
                0 <= j < g2.interned.len() && (#[trigger] g2.interned[j]).term == term2;
            assert(g2.interned[j].node == id2);
            law_table(g2, i, j);
        } else {
            assert(term1 != term2);
        }
    } else {
        if g2.reuses(kind2, origins2) {
            let j = choose|j: int|
                0 <= j < g2.interned.len() && (#[trigger] g2.interned[j]).term == term2;
            assert(g2.matches_term(g2.interned[j].node, g2.interned[j].term));
        }
    }
}

/// Two nodes that were constructed from outputs of two different nodes are
/// two nodes: one that consumes an output of a node is never shared with one
/// that consumes, in the same place, an output of another node.
pub proof fn law_downstream_distinct<S: Sig>(
    g0: Graph<S>,
    kind1: NodeKind<S>,
    origins1: Seq<OriginId>,
    g1: Graph<S>,
    id1: NodeId,
    g2: Graph<S>,
    kind2: NodeKind<S>,
    origins2: Seq<OriginId>,
    g3: Graph<S>,
    id2: NodeId,
    i: int,
)
    requires
        g0.wf(),
        origins1.len() == kind1.sig_spec().input_ports(),
        g0.made(kind1, origins1, g1, id1),
        g1.grows_to(g2),
        g2.wf(),
        g2.made(kind2, origins2, g3, id2),
        0 <= i < origins1.len(),
        0 <= i < origins2.len(),
        origins1[i].owner() != origins2[i].owner(),
    ensures
        id1 != id2,
{
    law_shared_or_distinct(g0, kind1, origins1, g1, id1, g2, kind2, origins2, g3, id2);
}

/// The identifier of a node, its kind and its ports stay what they are
/// while a graph grows, and so does every connection that was made.
pub proof fn law_stable<S: Sig>(a: Graph<S>, b: Graph<S>, n: NodeId)
    requires
        a.wf(),
        a.grows_to(b),
        a.has_node(n),
    ensures
        b.has_node(n),
        b.nodes[n.0 as int].kind == a.nodes[n.0 as int].kind,
        b.nodes[n.0 as int].ins.len() == a.nodes[n.0 as int].ins.len(),
        b.nodes[n.0 as int].outs.len() == a.nodes[n.0 as int].outs.len(),
        forall|i: int|
            0 <= i < a.nodes[n.0 as int].ins.len() && (#[trigger] a.nodes[n.0
                as int].ins[i]).origin.is_some() ==> b.nodes[n.0 as int].ins[i].origin
                == a.nodes[n.0 as int].ins[i].origin,
{
    assert(a.node_kept(b, n.0 as int));
    assert(a.node_shaped(n.0 as int));
    assert forall|i: int|
        0 <= i < a.nodes[n.0 as int].ins.len() && (#[trigger] a.nodes[n.0
            as int].ins[i]).origin.is_some() implies b.nodes[n.0 as int].ins[i].origin
        == a.nodes[n.0 as int].ins[i].origin by {
        let u = UserId::In { node: n, index: i as usize };
        assert(a.has_user(u));
        assert(a.user(u) == a.nodes[n.0 as int].ins[i]);
        assert(b.user(u) == b.nodes[n.0 as int].ins[i]);
    }
}

} // verus!
