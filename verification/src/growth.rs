//! Growth: what stays as it is while nodes, connections and entries of the
//! table of shared nodes are added.

use vstd::prelude::*;
use crate::graph::{Graph, Shared, Term};
use crate::ids::{NodeId, OriginId, RegionId, UserId};
use crate::kind::NodeKind;
use crate::sig::Sig;

verus! {

/// A graph grows to itself.
pub proof fn lemma_grows_refl<S: Sig>(g: Graph<S>)
    ensures
        g.grows_to(g),
{
    assert forall|n: int| 0 <= n < g.nodes.len() implies #[trigger] g.node_kept(g, n) by {}
    assert forall|r: int| 0 <= r < g.regions.len() implies #[trigger] g.region_kept(g, r) by {}
}

/// Growth is transitive.
pub proof fn lemma_grows_trans<S: Sig>(a: Graph<S>, b: Graph<S>, c: Graph<S>)
    requires
        a.grows_to(b),
        b.grows_to(c),
    ensures
        a.grows_to(c),
{
    assert forall|n: int| 0 <= n < a.nodes.len() implies #[trigger] a.node_kept(c, n) by {
        assert(a.node_kept(b, n));
        assert(b.node_kept(c, n));
    }
    assert forall|r: int| 0 <= r < a.regions.len() implies #[trigger] a.region_kept(c, r) by {
        assert(a.region_kept(b, r));
        assert(b.region_kept(c, r));
    }
    assert forall|u: UserId| #[trigger] a.has_user(u) && a.user(u).origin.is_some() implies c.user(
        u,
    ).origin == a.user(u).origin by {
        lemma_grows_names(a, b);
        assert(b.has_user(u));
    }
    assert forall|o: OriginId| (#[trigger] a.users_of(o)).is_prefix_of(c.users_of(o)) by {
        assert(a.users_of(o).is_prefix_of(b.users_of(o)));
        assert(b.users_of(o).is_prefix_of(c.users_of(o)));
    }
}

/// The ports of a graph are ports of every graph that it grows to.
pub proof fn lemma_grows_names<S: Sig>(a: Graph<S>, b: Graph<S>)
    requires
        a.grows_to(b),
    ensures
        forall|v: UserId| #[trigger] a.has_user(v) ==> b.has_user(v),
        forall|p: OriginId| #[trigger] a.has_origin(p) ==> b.has_origin(p),
        forall|n: NodeId| #[trigger] a.has_node(n) ==> b.has_node(n),
{
    assert forall|v: UserId| #[trigger] a.has_user(v) implies b.has_user(v) by {
        match v {
            UserId::In { node, index } => {
                assert(a.node_kept(b, node.0 as int));
            },
            UserId::Res { region, index } => {
                assert(a.region_kept(b, region.0 as int));
            },
        }
    }
    assert forall|p: OriginId| #[trigger] a.has_origin(p) implies b.has_origin(p) by {
        match p {
            OriginId::Out { node, index } => {
                assert(a.node_kept(b, node.0 as int));
            },
            OriginId::Arg { region, index } => {
                assert(a.region_kept(b, region.0 as int));
            },
        }
    }
}

/// A graph that grows keeps the sort of each port: a value port stays a
/// value port, a state port a state port.
pub proof fn lemma_grows_sorts<S: Sig>(a: Graph<S>, b: Graph<S>)
    requires
        a.grows_to(b),
    ensures
        forall|o: OriginId| #[trigger] a.value_origin(o) ==> b.value_origin(o),
        forall|o: OriginId| #[trigger] a.state_origin(o) ==> b.state_origin(o),
        forall|u: UserId| a.has_user(u) ==> (#[trigger] a.value_user(u) <==> b.value_user(u)),
        forall|u: UserId| a.has_user(u) ==> (#[trigger] a.state_user(u) <==> b.state_user(u)),
{
    assert forall|o: OriginId| #[trigger] a.value_origin(o) implies b.value_origin(o) by {
        assert(a.node_kept(b, o->Out_node.0 as int));
    }
    assert forall|o: OriginId| #[trigger] a.state_origin(o) implies b.state_origin(o) by {
        assert(a.node_kept(b, o->Out_node.0 as int));
    }
    assert forall|u: UserId| a.has_user(u) implies (#[trigger] a.value_user(u) <==> b.value_user(
        u,
    )) by {
        if u is In {
            assert(a.node_kept(b, u->In_node.0 as int));
        }
    }
    assert forall|u: UserId| a.has_user(u) implies (#[trigger] a.state_user(u) <==> b.state_user(
        u,
    )) by {
        if u is In {
            assert(a.node_kept(b, u->In_node.0 as int));
        }
    }
}

/// A new node with unconnected ports keeps a graph well formed, and lets it
/// grow.
pub proof fn lemma_with_node<S: Sig>(g: Graph<S>, kind: NodeKind<S>, region: RegionId)
    requires
        g.wf(),
        kind.countable(),
        kind.sig_spec().fits(),
    ensures
        g.with_node(kind, region).wf(),
        g.grows_to(g.with_node(kind, region)),
        forall|u: UserId| #[trigger]
            g.has_user(u) ==> g.with_node(kind, region).user(u) == g.user(u),
        forall|o: OriginId| #[trigger]
            g.has_origin(o) ==> g.with_node(kind, region).origin(o) == g.origin(o),
{
    let p = g.with_node(kind, region);
    let id = g.nodes.len() as int;
    assert forall|n: int| 0 <= n < g.nodes.len() implies #[trigger] g.node_kept(p, n) by {}
    assert forall|r: int| 0 <= r < g.regions.len() implies #[trigger] g.region_kept(p, r) by {}
    assert forall|n: int| 0 <= n < p.nodes.len() implies #[trigger] p.node_shaped(n) by {
        if n < id {
            assert(g.node_shaped(n));
        }
    }
    assert forall|q: OriginId| #[trigger] p.has_origin(q) implies p.list_ok(q) by {
        if g.has_origin(q) {
            assert(g.list_ok(q));
        } else {
            assert(!g.users.dom().contains(q));
        }
    }
    assert forall|v: UserId| #[trigger] p.has_user(v) implies p.user_ok(v) by {
        if g.has_user(v) {
            assert(g.user_ok(v));
        }
    }
    assert forall|q: OriginId| #[trigger] p.users.dom().contains(q) implies p.has_origin(q) by {
        assert(g.has_origin(q));
    }
    assert forall|i: int| 0 <= i < p.interned.len() implies p.matches_term(
        (#[trigger] p.interned[i]).node,
        p.interned[i].term,
    ) by {
        assert(g.matches_term(g.interned[i].node, g.interned[i].term));
    }
    assert forall|o: OriginId| (#[trigger] g.users_of(o)).is_prefix_of(p.users_of(o)) by {}
}

/// A new node with unconnected ports keeps a graph well typed.
pub proof fn lemma_with_node_typed<S: Sig>(g: Graph<S>, kind: NodeKind<S>, region: RegionId)
    requires
        g.wf(),
        g.well_typed(),
        kind.countable(),
        kind.sig_spec().fits(),
    ensures
        g.with_node(kind, region).well_typed(),
{
    let p = g.with_node(kind, region);
    lemma_with_node(g, kind, region);
    lemma_grows_sorts(g, p);
    assert forall|v: UserId| #[trigger] p.has_user(v) implies match p.user(v).origin {
        Some(q) => p.fits_port(v, q),
        None => true,
    } by {
        if g.has_user(v) {
            match g.user(v).origin {
                Some(q) => {
                    assert(g.fits_port(v, q));
                },
                None => {},
            }
        }
    }
}

/// A new entry in the table of shared nodes keeps a graph well formed if it
/// describes its node and the table did not hold its term.
pub proof fn lemma_table_push<S: Sig>(g: Graph<S>, term: Term<S>, node: NodeId)
    requires
        g.wf(),
        g.matches_term(node, term),
        g.shared(term).is_none(),
    ensures
        (Graph { interned: g.interned.push(Shared { term, node }), ..g }).wf(),
        g.grows_to(Graph { interned: g.interned.push(Shared { term, node }), ..g }),
{
    let p = Graph { interned: g.interned.push(Shared { term, node }), ..g };
    lemma_grows_refl(g);
    assert forall|n: int| 0 <= n < g.nodes.len() implies #[trigger] g.node_kept(p, n) by {}
    assert forall|r: int| 0 <= r < g.regions.len() implies #[trigger] g.region_kept(p, r) by {}
    assert forall|n: int| 0 <= n < p.nodes.len() implies #[trigger] p.node_shaped(n) by {
        assert(g.node_shaped(n));
    }
    assert forall|q: OriginId| #[trigger] p.has_origin(q) implies p.list_ok(q) by {
        assert(g.has_origin(q));
        assert(g.list_ok(q));
    }
    assert forall|v: UserId| #[trigger] p.has_user(v) implies p.user_ok(v) by {
        assert(g.has_user(v));
        assert(g.user_ok(v));
    }
    assert forall|q: OriginId| #[trigger] p.users.dom().contains(q) implies p.has_origin(q) by {
        assert(g.has_origin(q));
    }
    assert forall|i: int| 0 <= i < p.interned.len() implies p.matches_term(
        (#[trigger] p.interned[i]).node,
        p.interned[i].term,
    ) by {
        if i < g.interned.len() {
            assert(g.matches_term(g.interned[i].node, g.interned[i].term));
        }
    }
    assert forall|i: int, j: int| 0 <= i < j < p.interned.len() implies (#[trigger] p.interned[i]).term
        != (#[trigger] p.interned[j]).term by {
        if j < g.interned.len() {
            assert(g.interned[i].term != g.interned[j].term);
        } else {
            assert(g.interned[i].term != term);
        }
    }
    assert forall|o: OriginId| (#[trigger] g.users_of(o)).is_prefix_of(p.users_of(o)) by {}
}

/// A new node whose inputs are connected to ports of their sort keeps a
/// graph well typed.
pub proof fn lemma_added_typed<S: Sig>(
    g: Graph<S>,
    kind: NodeKind<S>,
    origins: Seq<OriginId>,
    p: Graph<S>,
    id: NodeId,
)
    requires
        g.wf(),
        g.well_typed(),
        g.added(kind, origins, p, id),
        g.fit_inputs(kind, origins),
        origins.len() == kind.sig_spec().input_ports(),
    ensures
        p.well_typed(),
{
    lemma_grows_sorts(g, p);
    lemma_grows_names(g, p);
    assert(p.node_shaped(id.0 as int));
    assert forall|v: UserId| #[trigger] p.has_user(v) implies match p.user(v).origin {
        Some(q) => p.fits_port(v, q),
        None => true,
    } by {
        if g.has_user(v) {
            match g.user(v).origin {
                Some(q) => {
                    assert(g.fits_port(v, q));
                },
                None => {},
            }
        } else {
            match v {
                UserId::In { node, index } => {
                    if node.0 < g.nodes.len() {
                        assert(g.node_kept(p, node.0 as int));
                    } else {
                        assert(node == id);
                        assert(p.user(v) == p.nodes[id.0 as int].ins[index as int]);
                        assert(p.user(v).origin == Some(origins[index as int]));
                    }
                },
                UserId::Res { region, index } => {
                    assert(g.region_kept(p, region.0 as int));
                },
            }
        }
    }
}

} // verus!
