//! Connecting a port: what it does to the records, and that it keeps a graph
//! well formed and well typed.

use vstd::prelude::*;
use crate::data::{OriginData, UserData, UserIdList};
use crate::graph::Graph;
use crate::growth::lemma_grows_sorts;
use crate::ids::{NodeId, OriginId, UserId};
use crate::sig::Sig;

verus! {

/// Replacing the record of a user changes that record alone.
pub proof fn lemma_put_user<S: Sig>(g: Graph<S>, u: UserId, d: UserData)
    requires
        g.has_user(u),
    ensures
        g.same_ports(g.put_user(u, d)),
        g.put_user(u, d).users == g.users,
        g.put_user(u, d).interned == g.interned,
        g.put_user(u, d).interning == g.interning,
        forall|v: UserId| #[trigger] g.has_user(v) <==> g.put_user(u, d).has_user(v),
        forall|o: OriginId| #[trigger] g.has_origin(o) <==> g.put_user(u, d).has_origin(o),
        forall|v: UserId|
            g.has_user(v) ==> #[trigger] g.put_user(u, d).user(v) == (if v == u {
                d
            } else {
                g.user(v)
            }),
        forall|o: OriginId| g.has_origin(o) ==> #[trigger] g.put_user(u, d).origin(o) == g.origin(o),
{
    let p = g.put_user(u, d);
    assert forall|n: int| 0 <= n < g.nodes.len() implies #[trigger] g.node_kept(p, n) by {}
    assert forall|r: int| 0 <= r < g.regions.len() implies #[trigger] g.region_kept(p, r) by {}
}

/// Replacing the record of an origin changes that record alone.
pub proof fn lemma_put_origin<S: Sig>(g: Graph<S>, o: OriginId, d: OriginData)
    requires
        g.has_origin(o),
    ensures
        g.same_ports(g.put_origin(o, d)),
        g.put_origin(o, d).users == g.users,
        g.put_origin(o, d).interned == g.interned,
        g.put_origin(o, d).interning == g.interning,
        forall|v: UserId| #[trigger] g.has_user(v) <==> g.put_origin(o, d).has_user(v),
        forall|p: OriginId| #[trigger] g.has_origin(p) <==> g.put_origin(o, d).has_origin(p),
        forall|v: UserId| g.has_user(v) ==> #[trigger] g.put_origin(o, d).user(v) == g.user(v),
        forall|p: OriginId|
            g.has_origin(p) ==> #[trigger] g.put_origin(o, d).origin(p) == (if p == o {
                d
            } else {
                g.origin(p)
            }),
{
    let q = g.put_origin(o, d);
    assert forall|n: int| 0 <= n < g.nodes.len() implies #[trigger] g.node_kept(q, n) by {}
    assert forall|r: int| 0 <= r < g.regions.len() implies #[trigger] g.region_kept(q, r) by {}
}

/// A graph has its own ports.
pub proof fn lemma_same_ports_refl<S: Sig>(g: Graph<S>)
    ensures
        g.same_ports(g),
{
    assert forall|n: int| 0 <= n < g.nodes.len() implies #[trigger] g.node_kept(g, n) by {}
    assert forall|r: int| 0 <= r < g.regions.len() implies #[trigger] g.region_kept(g, r) by {}
}

/// Having the same ports is transitive.
pub proof fn lemma_same_ports_trans<S: Sig>(a: Graph<S>, b: Graph<S>, c: Graph<S>)
    requires
        a.same_ports(b),
        b.same_ports(c),
    ensures
        a.same_ports(c),
{
    assert forall|n: int| 0 <= n < a.nodes.len() implies #[trigger] a.node_kept(c, n) by {
        assert(a.node_kept(b, n));
        assert(b.node_kept(c, n));
    }
    assert forall|r: int| 0 <= r < a.regions.len() implies #[trigger] a.region_kept(c, r) by {
        assert(a.region_kept(b, r));
        assert(b.region_kept(c, r));
    }
}

/// The lists of users play no part in which ports a graph has.
proof fn lemma_same_ports_users<S: Sig>(a: Graph<S>, b: Graph<S>, c: Graph<S>)
    requires
        a.same_ports(b),
        c.nodes == b.nodes,
        c.regions == b.regions,
    ensures
        a.same_ports(c),
{
    assert forall|n: int| 0 <= n < a.nodes.len() implies #[trigger] a.node_kept(c, n) by {
        assert(a.node_kept(b, n));
    }
    assert forall|r: int| 0 <= r < a.regions.len() implies #[trigger] a.region_kept(c, r) by {
        assert(a.region_kept(b, r));
    }
}

/// Graphs with the same ports have the same port names.
pub proof fn lemma_same_ports_names<S: Sig>(a: Graph<S>, b: Graph<S>)
    requires
        a.same_ports(b),
    ensures
        forall|v: UserId| #[trigger] a.has_user(v) <==> b.has_user(v),
        forall|p: OriginId| #[trigger] a.has_origin(p) <==> b.has_origin(p),
        forall|n: NodeId| #[trigger] a.has_node(n) <==> b.has_node(n),
{
    assert forall|v: UserId| #[trigger] a.has_user(v) <==> b.has_user(v) by {
        match v {
            UserId::In { node, index } => {
                if a.has_node(node) {
                    assert(a.node_kept(b, node.0 as int));
                }
            },
            UserId::Res { region, index } => {
                if a.has_region(region) {
                    assert(a.region_kept(b, region.0 as int));
                }
            },
        }
    }
    assert forall|p: OriginId| #[trigger] a.has_origin(p) <==> b.has_origin(p) by {
        match p {
            OriginId::Out { node, index } => {
                if a.has_node(node) {
                    assert(a.node_kept(b, node.0 as int));
                }
            },
            OriginId::Arg { region, index } => {
                if a.has_region(region) {
                    assert(a.region_kept(b, region.0 as int));
                }
            },
        }
    }
}

/// What the ports of `g.link(u, o)` hold, record by record.
proof fn lemma_link_records<S: Sig>(g: Graph<S>, u: UserId, o: OriginId)
    requires
        g.wf(),
        g.has_user(u),
        g.has_origin(o),
        g.user(u).origin.is_none(),
    ensures
        g.same_ports(g.link(u, o)),
        g.link(u, o).users == g.users.insert(o, g.users_of(o).push(u)),
        g.link(u, o).interned == g.interned,
        g.link(u, o).interning == g.interning,
        forall|v: UserId| #[trigger] g.has_user(v) <==> g.link(u, o).has_user(v),
        forall|p: OriginId| #[trigger] g.has_origin(p) <==> g.link(u, o).has_origin(p),
        forall|p: OriginId|
            g.has_origin(p) ==> #[trigger] g.link(u, o).origin(p) == (if p == o {
                OriginData {
                    users: Some(
                        UserIdList {
                            first: if g.users_of(o).len() == 0 {
                                u
                            } else {
                                g.users_of(o)[0]
                            },
                            last: u,
                        },
                    ),
                }
            } else {
                g.origin(p)
            }),
        forall|v: UserId|
            g.has_user(v) ==> #[trigger] g.link(u, o).user(v) == (if v == u {
                UserData {
                    origin: Some(o),
                    prev_user: if g.users_of(o).len() == 0 {
                        None
                    } else {
                        Some(g.users_of(o).last())
                    },
                    next_user: None,
                }
            } else if g.users_of(o).len() > 0 && v == g.users_of(o).last() {
                UserData { next_user: Some(u), ..g.user(v) }
            } else {
                g.user(v)
            }),
{
    let l = g.users_of(o);
    assert(g.list_ok(o));
    let du = UserData {
        origin: Some(o),
        prev_user: if l.len() == 0 {
            None
        } else {
            Some(l.last())
        },
        next_user: None,
    };
    match g.origin(o).users {
        Some(ends) => {
            assert(l.len() > 0);
            assert(ends.last == l[l.len() - 1]);
            assert(g.has_user(l[l.len() - 1]));
            assert(g.user(l[l.len() - 1]).origin == Some(o));
            let tail = g.user(ends.last);
            let g1 = g.put_user(ends.last, UserData { next_user: Some(u), ..tail });
            lemma_put_user(g, ends.last, UserData { next_user: Some(u), ..tail });
            let g2 = g1.put_user(u, du);
            lemma_put_user(g1, u, du);
            let d = OriginData { users: Some(UserIdList { first: ends.first, last: u }) };
            let g3 = g2.put_origin(o, d);
            lemma_put_origin(g2, o, d);
            lemma_same_ports_trans(g, g1, g2);
            lemma_same_ports_trans(g, g2, g3);
            lemma_same_ports_users(g, g3, g.link(u, o));
        },
        None => {
            assert(l.len() == 0);
            let g2 = g.put_user(u, du);
            lemma_put_user(g, u, du);
            let d = OriginData { users: Some(UserIdList { first: u, last: u }) };
            let g3 = g2.put_origin(o, d);
            lemma_put_origin(g2, o, d);
            lemma_same_ports_trans(g, g2, g3);
            lemma_same_ports_users(g, g3, g.link(u, o));
        },
    }
}

/// Connecting an unconnected port keeps a graph well formed, and appends
/// the port to the users of the origin.
pub proof fn lemma_link<S: Sig>(g: Graph<S>, u: UserId, o: OriginId)
    requires
        g.wf(),
        g.has_user(u),
        g.has_origin(o),
        g.user(u).origin.is_none(),
    ensures
        g.connected(u, o, g.link(u, o)),
{
    let p = g.link(u, o);
    let l = g.users_of(o);
    lemma_link_records(g, u, o);
    assert(g.list_ok(o));
    assert(g.user_ok(u));
    // The port was in no list before.
    assert forall|q: OriginId| g.has_origin(q) implies !g.users_of(q).contains(u) by {
        assert(g.list_ok(q));
    }
    assert(p.users_of(o) == l.push(u));
    assert forall|q: OriginId| q != o implies #[trigger] p.users_of(q) == g.users_of(q) by {}
    assert forall|n: int| 0 <= n < p.nodes.len() implies #[trigger] p.node_shaped(n) by {
        assert(g.node_kept(p, n));
        assert(g.node_shaped(n));
    }
    assert forall|q: OriginId| #[trigger] p.has_origin(q) implies p.list_ok(q) by {
        assert(g.has_origin(q));
        assert(g.list_ok(q));
        let lq = g.users_of(q);
        if q == o {
            let lp = l.push(u);
            assert(lp.no_duplicates()) by {
                assert forall|i: int, j: int| 0 <= i < lp.len() && 0 <= j < lp.len() && i != j implies lp[i]
                    != lp[j] by {
                    if i < l.len() && j < l.len() {
                    } else if i < l.len() {
                        assert(l.contains(l[i]));
                    } else {
                        assert(l.contains(l[j]));
                    }
                }
            }
            assert forall|i: int| 0 <= i < lp.len() implies {
                &&& p.has_user(#[trigger] lp[i])
                &&& p.user(lp[i]).origin == Some(q)
                &&& p.user(lp[i]).prev_user == (if i == 0 {
                    None
                } else {
                    Some(lp[i - 1])
                })
                &&& p.user(lp[i]).next_user == (if i == lp.len() - 1 {
                    None
                } else {
                    Some(lp[i + 1])
                })
            } by {
                if i < l.len() {
                    assert(g.has_user(l[i]));
                    assert(l.contains(l[i]));
                    assert(l[i] != u);
                    if i < l.len() - 1 {
                        assert(l[i] != l[l.len() - 1]);
                    }
                } else {
                    assert(lp[i] == u);
                }
            }
        } else {
            assert(p.users_of(q) == lq);
            assert forall|i: int| 0 <= i < lq.len() implies {
                &&& p.has_user(#[trigger] lq[i])
                &&& p.user(lq[i]).origin == Some(q)
                &&& p.user(lq[i]).prev_user == (if i == 0 {
                    None
                } else {
                    Some(lq[i - 1])
                })
                &&& p.user(lq[i]).next_user == (if i == lq.len() - 1 {
                    None
                } else {
                    Some(lq[i + 1])
                })
            } by {
                assert(g.has_user(lq[i]));
                assert(lq.contains(lq[i]));
                assert(lq[i] != u);
                if l.len() > 0 {
                    assert(g.user(l.last()).origin == Some(o));
                    assert(lq[i] != l.last());
                }
            }
        }
    }
    assert forall|q: OriginId| #[trigger] p.users.dom().contains(q) implies p.has_origin(q) by {
        if q != o {
            assert(g.users.dom().contains(q));
        }
    }
    assert forall|v: UserId| #[trigger] p.has_user(v) implies p.user_ok(v) by {
        assert(g.has_user(v));
        assert(g.user_ok(v));
        if v == u {
            assert(l.push(u)[l.len() as int] == u);
            assert(p.users_of(o).contains(u));
        } else {
            if l.len() > 0 && v == l.last() {
                assert(g.user(v).origin == Some(o));
            }
            match g.user(v).origin {
                None => {},
                Some(q) => {
                    if q == o {
                        assert(l.contains(v));
                        let i = choose|i: int| 0 <= i < l.len() && l[i] == v;
                        assert(l.push(u)[i] == v);
                    }
                },
            }
        }
    }
    assert(p.linked());
    assert forall|i: int| 0 <= i < p.interned.len() implies p.matches_term(
        (#[trigger] p.interned[i]).node,
        p.interned[i].term,
    ) by {
        let n = g.interned[i].node;
        let t = g.interned[i].term;
        assert(g.matches_term(n, t));
        assert(g.node_kept(p, n.0 as int));
        assert(g.node_shaped(n.0 as int));
        assert forall|j: int| 0 <= j < t.origins.len() implies (#[trigger] p.nodes[n.0 as int].ins[j]).origin
            == Some(t.origins[j]) by {
            let v = UserId::In { node: n, index: j as usize };
            assert(g.has_user(v));
            assert(g.user(v) == g.nodes[n.0 as int].ins[j]);
            assert(p.user(v) == p.nodes[n.0 as int].ins[j]);
        }
    }
    assert(p.table_ok());
    assert forall|v: UserId| #[trigger] g.has_user(v) implies p.user(v).origin == (if v == u {
        Some(o)
    } else {
        g.user(v).origin
    }) by {}
}

/// A connection lets a graph grow.
pub proof fn lemma_connected_grows<S: Sig>(g: Graph<S>, u: UserId, o: OriginId, p: Graph<S>)
    requires
        g.wf(),
        g.has_user(u),
        g.user(u).origin.is_none(),
        g.connected(u, o, p),
    ensures
        g.grows_to(p),
{
    assert forall|n: int| 0 <= n < g.nodes.len() implies #[trigger] g.node_kept(p, n) by {}
    assert forall|q: OriginId| (#[trigger] g.users_of(q)).is_prefix_of(p.users_of(q)) by {
        if q == o {
            assert(p.users_of(o) == g.users_of(o).push(u));
        } else {
            assert(p.users_of(q) == g.users_of(q));
        }
    }
}

/// A connection between ports of one sort keeps a graph well typed.
pub proof fn lemma_connected_typed<S: Sig>(g: Graph<S>, u: UserId, o: OriginId, p: Graph<S>)
    requires
        g.wf(),
        g.well_typed(),
        g.has_user(u),
        g.user(u).origin.is_none(),
        g.connected(u, o, p),
        g.fits_port(u, o),
    ensures
        p.well_typed(),
{
    lemma_connected_grows(g, u, o, p);
    lemma_grows_sorts(g, p);
    lemma_same_ports_names(g, p);
    assert forall|v: UserId| #[trigger] p.has_user(v) implies match p.user(v).origin {
        Some(q) => p.fits_port(v, q),
        None => true,
    } by {
        assert(g.has_user(v));
        if v != u {
            match g.user(v).origin {
                Some(q) => {
                    assert(g.fits_port(v, q));
                },
                None => {},
            }
        }
    }
}

} // verus!
