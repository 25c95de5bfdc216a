//! Handles: copyable names of nodes and ports. A handle holds no reference
//! to its graph; the context is handed to each operation.

use vstd::prelude::*;
use crate::ctxt::NodeCtxt;
use crate::data::{NodeData, OriginData, UserData};
use crate::graph::Graph;
use crate::ids::{NodeId, OriginId, UserId};
use crate::kind::NodeKind;
use crate::sig::Sig;

verus! {

/// A node.
#[derive(Clone, Copy, PartialEq, Eq, Structural, Debug)]
pub struct Node {
    pub id: NodeId,
}

/// An input or result port.
#[derive(Clone, Copy, PartialEq, Eq, Structural, Debug)]
pub struct User {
    pub user_id: UserId,
}

/// An output or argument port.
#[derive(Clone, Copy, PartialEq, Eq, Structural, Hash, Debug)]
pub struct Origin {
    pub origin_id: OriginId,
}

/// A value input.
#[derive(Clone, Copy, PartialEq, Eq, Structural, Debug)]
pub struct ValUser(pub User);

/// A state input.
#[derive(Clone, Copy, PartialEq, Eq, Structural, Debug)]
pub struct StUser(pub User);

/// A value output.
#[derive(Clone, Copy, PartialEq, Eq, Structural, Hash, Debug)]
pub struct ValOrigin(pub Origin);

/// A state output.
#[derive(Clone, Copy, PartialEq, Eq, Structural, Debug)]
pub struct StOrigin(pub Origin);

impl Node {
    /// The identifier of the node.
    pub fn id(&self) -> (id: NodeId)
        ensures
            id == self.id,
    {
        self.id
    }

    /// The record of the node.
    pub fn data<'g, S: Sig>(&self, ctxt: &'g NodeCtxt<S>) -> (data: &'g NodeData<S>)
        requires
            ctxt@.has_node(self.id),
        ensures
            data@ == ctxt@.nodes[self.id.0 as int],
    {
        ctxt.node_data(self.id)
    }

    /// The kind of the node.
    pub fn kind<'g, S: Sig>(&self, ctxt: &'g NodeCtxt<S>) -> (kind: &'g NodeKind<S>)
        requires
            ctxt@.has_node(self.id),
        ensures
            *kind == ctxt@.nodes[self.id.0 as int].kind,
    {
        &ctxt.node_data(self.id).kind
    }

    /// The value input `port` of the node.
    pub fn val_in<S: Sig>(&self, ctxt: &NodeCtxt<S>, port: usize) -> (user: ValUser)
        requires
            ctxt@.wf(),
            ctxt@.has_node(self.id),
            port < ctxt@.nodes[self.id.0 as int].kind.sig_spec().val_ins,
        ensures
            user.0.user_id == (UserId::In { node: self.id, index: port }),
            ctxt@.has_user(user.0.user_id),
            ctxt@.value_user(user.0.user_id),
    {
        proof {
            assert(ctxt@.node_shaped(self.id.0 as int));
        }
        ValUser(ctxt.user_ref(UserId::In { node: self.id, index: port }))
    }

    /// The value output `port` of the node.
    pub fn val_out<S: Sig>(&self, ctxt: &NodeCtxt<S>, port: usize) -> (origin: ValOrigin)
        requires
            ctxt@.wf(),
            ctxt@.has_node(self.id),
            port < ctxt@.nodes[self.id.0 as int].kind.sig_spec().val_outs,
        ensures
            origin.0.origin_id == (OriginId::Out { node: self.id, index: port }),
            ctxt@.has_origin(origin.0.origin_id),
            ctxt@.value_origin(origin.0.origin_id),
    {
        proof {
            assert(ctxt@.node_shaped(self.id.0 as int));
        }
        ValOrigin(ctxt.origin_ref(OriginId::Out { node: self.id, index: port }))
    }

    /// The state input `port` of the node. State inputs come after the
    /// value inputs.
    pub fn st_in<S: Sig>(&self, ctxt: &NodeCtxt<S>, port: usize) -> (user: StUser)
        requires
            ctxt@.wf(),
            ctxt@.has_node(self.id),
            port < ctxt@.nodes[self.id.0 as int].kind.sig_spec().st_ins,
        ensures
            user.0.user_id == (UserId::In {
                node: self.id,
                index: (ctxt@.nodes[self.id.0 as int].kind.sig_spec().val_ins + port) as usize,
            }),
            ctxt@.has_user(user.0.user_id),
            ctxt@.state_user(user.0.user_id),
    {
        proof {
            assert(ctxt@.node_shaped(self.id.0 as int));
        }
        let sig = ctxt.node_data(self.id).sig();
        StUser(ctxt.user_ref(UserId::In { node: self.id, index: sig.val_ins + port }))
    }

    /// The state output `port` of the node. State outputs come after the
    /// value outputs.
    pub fn st_out<S: Sig>(&self, ctxt: &NodeCtxt<S>, port: usize) -> (origin: StOrigin)
        requires
            ctxt@.wf(),
            ctxt@.has_node(self.id),
            port < ctxt@.nodes[self.id.0 as int].kind.sig_spec().st_outs,
        ensures
            origin.0.origin_id == (OriginId::Out {
                node: self.id,
                index: (ctxt@.nodes[self.id.0 as int].kind.sig_spec().val_outs + port) as usize,
            }),
            ctxt@.has_origin(origin.0.origin_id),
            ctxt@.state_origin(origin.0.origin_id),
    {
        proof {
            assert(ctxt@.node_shaped(self.id.0 as int));
        }
        let sig = ctxt.node_data(self.id).sig();
        StOrigin(ctxt.origin_ref(OriginId::Out { node: self.id, index: sig.val_outs + port }))
    }
}

impl User {
    /// The identifier of the port.
    pub fn id(&self) -> (id: UserId)
        ensures
            id == self.user_id,
    {
        self.user_id
    }

    /// The record of the port.
    pub fn data<'g, S: Sig>(&self, ctxt: &'g NodeCtxt<S>) -> (data: &'g UserData)
        requires
            ctxt@.has_user(self.user_id),
        ensures
            *data == ctxt@.user(self.user_id),
    {
        ctxt.user_data(self.user_id)
    }

    /// The origin that the port is connected to.
    pub fn origin<S: Sig>(&self, ctxt: &NodeCtxt<S>) -> (origin: Origin)
        requires
            ctxt@.wf(),
            ctxt@.has_user(self.user_id),
            ctxt@.user(self.user_id).origin.is_some(),
        ensures
            Some(origin.origin_id) == ctxt@.user(self.user_id).origin,
            ctxt@.has_origin(origin.origin_id),
            ctxt@.users_of(origin.origin_id).contains(self.user_id),
    {
        proof {
            assert(ctxt@.user_ok(self.user_id));
        }
        let origin_id = ctxt.user_data(self.user_id).origin.unwrap();
        ctxt.origin_ref(origin_id)
    }
}

impl Origin {
    /// The identifier of the port.
    pub fn id(&self) -> (id: OriginId)
        ensures
            id == self.origin_id,
    {
        self.origin_id
    }

    /// The record of the port.
    pub fn data<'g, S: Sig>(&self, ctxt: &'g NodeCtxt<S>) -> (data: &'g OriginData)
        requires
            ctxt@.has_origin(self.origin_id),
        ensures
            *data == ctxt@.origin(self.origin_id),
    {
        ctxt.origin_data(self.origin_id)
    }

    /// The node that this output belongs to.
    pub fn producer<S: Sig>(&self, ctxt: &NodeCtxt<S>) -> (node: Node)
        requires
            ctxt@.has_origin(self.origin_id),
            self.origin_id is Out,
        ensures
            Some(node.id) == self.origin_id.owner(),
            ctxt@.has_node(node.id),
    {
        ctxt.node_ref(self.origin_id.node_id().unwrap())
    }
}

impl Origin {
    /// A cursor over the users of this origin, in the order of their
    /// connection.
    pub fn users<S: Sig>(&self, ctxt: &NodeCtxt<S>) -> (users: Users)
        requires
            ctxt@.wf(),
            ctxt@.has_origin(self.origin_id),
        ensures
            users.wf(ctxt@),
            users.remaining(ctxt@) == ctxt@.users_of(self.origin_id),
    {
        proof {
            assert(ctxt@.list_ok(self.origin_id));
        }
        let ghost list = ctxt@.users_of(self.origin_id);
        match ctxt.origin_data(self.origin_id).users {
            Some(ends) => {
                let users = Users {
                    first_and_last: Some((ctxt.user_ref(ends.first), ctxt.user_ref(ends.last))),
                    origin: Ghost(self.origin_id),
                    lo: Ghost(0),
                    hi: Ghost(list.len() - 1),
                };
                assert(list.subrange(0, list.len() as int) =~= list);
                users
            },
            None => Users {
                first_and_last: None,
                origin: Ghost(self.origin_id),
                lo: Ghost(0),
                hi: Ghost(0),
            },
        }
    }
}

/// A cursor over the users of an origin. It hands them out from the front,
/// first connected first, and from the back, last connected first, each of
/// them once.
pub struct Users {
    first_and_last: Option<(User, User)>,
    origin: Ghost<OriginId>,
    lo: Ghost<int>,
    hi: Ghost<int>,
}

impl Users {
    /// The cursor agrees with the graph `g`: the two ports that it holds are
    /// the ends of what is left of the list of users of its origin.
    pub closed spec fn wf<S: Sig>(self, g: Graph<S>) -> bool {
        match self.first_and_last {
            Some((first, last)) => {
                let list = g.users_of(self.origin@);
                &&& g.has_origin(self.origin@)
                &&& 0 <= self.lo@ <= self.hi@ < list.len()
                &&& first.user_id == list[self.lo@]
                &&& last.user_id == list[self.hi@]
            },
            None => true,
        }
    }

    /// The users that the cursor has not handed out yet, in the order of
    /// their connection.
    pub closed spec fn remaining<S: Sig>(self, g: Graph<S>) -> Seq<UserId> {
        match self.first_and_last {
            Some(_) => g.users_of(self.origin@).subrange(self.lo@, self.hi@ + 1),
            None => Seq::empty(),
        }
    }

    /// Hands out the first of the remaining users.
    pub fn next<S: Sig>(&mut self, ctxt: &NodeCtxt<S>) -> (user: Option<User>)
        requires
            ctxt@.wf(),
            old(self).wf(ctxt@),
        ensures
            final(self).wf(ctxt@),
            old(self).remaining(ctxt@).len() == 0 ==> user.is_none() && final(self).remaining(
                ctxt@,
            ).len() == 0,
            old(self).remaining(ctxt@).len() > 0 ==> user == Some(
                User { user_id: old(self).remaining(ctxt@).first() },
            ) && final(self).remaining(ctxt@) == old(self).remaining(ctxt@).drop_first(),
    {
        let ghost list = ctxt@.users_of(self.origin@);
        let ghost rest = self.remaining(ctxt@);
        match self.first_and_last {
            Some((first, last)) => {
                proof {
                    assert(ctxt@.list_ok(self.origin@));
                    assert(ctxt@.has_user(list[self.lo@]));
                    assert(rest.first() == list[self.lo@]);
                }
                self.first_and_last = None;
                if first.id() != last.id() {
                    proof {
                        assert(self.lo@ < self.hi@);
                        assert(ctxt@.has_user(list[self.lo@ + 1]));
                    }
                    if let Some(next_user) = ctxt.user_data(first.id()).next_user {
                        self.first_and_last = Some((ctxt.user_ref(next_user), last));
                        self.lo = Ghost(self.lo@ + 1);
                    }
                    assert(self.remaining(ctxt@) =~= rest.drop_first());
                } else {
                    assert(rest.drop_first() =~= Seq::<UserId>::empty());
                }
                Some(first)
            },
            None => None,
        }
    }

    /// Hands out the last of the remaining users.
    pub fn next_back<S: Sig>(&mut self, ctxt: &NodeCtxt<S>) -> (user: Option<User>)
        requires
            ctxt@.wf(),
            old(self).wf(ctxt@),
        ensures
            final(self).wf(ctxt@),
            old(self).remaining(ctxt@).len() == 0 ==> user.is_none() && final(self).remaining(
                ctxt@,
            ).len() == 0,
            old(self).remaining(ctxt@).len() > 0 ==> user == Some(
                User { user_id: old(self).remaining(ctxt@).last() },
            ) && final(self).remaining(ctxt@) == old(self).remaining(ctxt@).drop_last(),
    {
        let ghost list = ctxt@.users_of(self.origin@);
        let ghost rest = self.remaining(ctxt@);
        match self.first_and_last {
            Some((first, last)) => {
                proof {
                    assert(ctxt@.list_ok(self.origin@));
                    assert(ctxt@.has_user(list[self.hi@]));
                    assert(rest.last() == list[self.hi@]);
                }
                self.first_and_last = None;
                if first.id() != last.id() {
                    proof {
                        assert(self.lo@ < self.hi@);
                        assert(ctxt@.has_user(list[self.hi@ - 1]));
                    }
                    if let Some(prev_user) = ctxt.user_data(last.id()).prev_user {
                        self.first_and_last = Some((first, ctxt.user_ref(prev_user)));
                        self.hi = Ghost(self.hi@ - 1);
                    }
                    assert(self.remaining(ctxt@) =~= rest.drop_last());
                } else {
                    assert(rest.drop_last() =~= Seq::<UserId>::empty());
                }
                Some(last)
            },
            None => None,
        }
    }
}

impl ValUser {
    /// The identifier of the port.
    pub fn id(&self) -> (id: UserId)
        ensures
            id == self.0.user_id,
    {
        self.0.id()
    }

    /// Connects this unconnected value input to the value output
    /// `val_origin`, of which it becomes the last user.
    pub fn connect<S: Sig>(&self, ctxt: &mut NodeCtxt<S>, val_origin: ValOrigin)
        requires
            old(ctxt)@.wf(),
            old(ctxt)@.has_user(self.0.user_id),
            old(ctxt)@.has_origin(val_origin.0.origin_id),
            old(ctxt)@.user(self.0.user_id).origin.is_none(),
        ensures
            old(ctxt)@.connected(self.0.user_id, val_origin.0.origin_id, final(ctxt)@),
            old(ctxt)@.grows_to(final(ctxt)@),
            old(ctxt)@.well_typed() && old(ctxt)@.value_user(self.0.user_id) && old(ctxt)@.value_origin(val_origin.0.origin_id) ==> final(ctxt)@.well_typed(),
    {
        ctxt.connect_ports(self.id(), val_origin.id());
    }

    /// The value output that this input is connected to.
    pub fn origin<S: Sig>(&self, ctxt: &NodeCtxt<S>) -> (origin: ValOrigin)
        requires
            ctxt@.wf(),
            ctxt@.has_user(self.0.user_id),
            ctxt@.user(self.0.user_id).origin.is_some(),
        ensures
            Some(origin.0.origin_id) == ctxt@.user(self.0.user_id).origin,
            ctxt@.has_origin(origin.0.origin_id),
            ctxt@.well_typed() && ctxt@.value_user(self.0.user_id) ==> ctxt@.value_origin(
                origin.0.origin_id,
            ),
    {
        ValOrigin(self.0.origin(ctxt))
    }
}

impl ValOrigin {
    /// The identifier of the port.
    pub fn id(&self) -> (id: OriginId)
        ensures
            id == self.0.origin_id,
    {
        self.0.id()
    }

    /// Connects the unconnected value input `val_user` to this value
    /// output, of which it becomes the last user.
    pub fn connect<S: Sig>(&self, ctxt: &mut NodeCtxt<S>, val_user: ValUser)
        requires
            old(ctxt)@.wf(),
            old(ctxt)@.has_user(val_user.0.user_id),
            old(ctxt)@.has_origin(self.0.origin_id),
            old(ctxt)@.user(val_user.0.user_id).origin.is_none(),
        ensures
            old(ctxt)@.connected(val_user.0.user_id, self.0.origin_id, final(ctxt)@),
            old(ctxt)@.grows_to(final(ctxt)@),
            old(ctxt)@.well_typed() && old(ctxt)@.value_user(val_user.0.user_id) && old(ctxt)@.value_origin(self.0.origin_id) ==> final(ctxt)@.well_typed(),
    {
        ctxt.connect_ports(val_user.id(), self.id());
    }

    /// A cursor over the users of this output, in the order of their
    /// connection.
    pub fn users<S: Sig>(&self, ctxt: &NodeCtxt<S>) -> (users: ValUsers)
        requires
            ctxt@.wf(),
            ctxt@.has_origin(self.0.origin_id),
        ensures
            users.0.wf(ctxt@),
            users.0.remaining(ctxt@) == ctxt@.users_of(self.0.origin_id),
    {
        ValUsers(self.0.users(ctxt))
    }

    /// The node that this output belongs to.
    pub fn producer<S: Sig>(&self, ctxt: &NodeCtxt<S>) -> (node: Node)
        requires
            ctxt@.has_origin(self.0.origin_id),
            self.0.origin_id is Out,
        ensures
            Some(node.id) == self.0.origin_id.owner(),
            ctxt@.has_node(node.id),
    {
        self.0.producer(ctxt)
    }
}

/// A cursor over the users of a value output.
pub struct ValUsers(pub Users);

impl ValUsers {
    /// Hands out the first of the remaining users.
    pub fn next<S: Sig>(&mut self, ctxt: &NodeCtxt<S>) -> (user: Option<ValUser>)
        requires
            ctxt@.wf(),
            old(self).0.wf(ctxt@),
        ensures
            final(self).0.wf(ctxt@),
            old(self).0.remaining(ctxt@).len() == 0 ==> user.is_none() && final(self).0.remaining(ctxt@).len() == 0,
            old(self).0.remaining(ctxt@).len() > 0 ==> user == Some(
                ValUser(User { user_id: old(self).0.remaining(ctxt@).first() }),
            ) && final(self).0.remaining(ctxt@) == old(self).0.remaining(ctxt@).drop_first(),
    {
        match self.0.next(ctxt) {
            Some(user) => Some(ValUser(user)),
            None => None,
        }
    }

    /// Hands out the last of the remaining users.
    pub fn next_back<S: Sig>(&mut self, ctxt: &NodeCtxt<S>) -> (user: Option<ValUser>)
        requires
            ctxt@.wf(),
            old(self).0.wf(ctxt@),
        ensures
            final(self).0.wf(ctxt@),
            old(self).0.remaining(ctxt@).len() == 0 ==> user.is_none() && final(self).0.remaining(ctxt@).len() == 0,
            old(self).0.remaining(ctxt@).len() > 0 ==> user == Some(
                ValUser(User { user_id: old(self).0.remaining(ctxt@).last() }),
            ) && final(self).0.remaining(ctxt@) == old(self).0.remaining(ctxt@).drop_last(),
    {
        match self.0.next_back(ctxt) {
            Some(user) => Some(ValUser(user)),
            None => None,
        }
    }
}

impl StUser {
    /// The identifier of the port.
    pub fn id(&self) -> (id: UserId)
        ensures
            id == self.0.user_id,
    {
        self.0.id()
    }

    /// Connects this unconnected state input to the state output
    /// `st_origin`, of which it becomes the last user.
    pub fn connect<S: Sig>(&self, ctxt: &mut NodeCtxt<S>, st_origin: StOrigin)
        requires
            old(ctxt)@.wf(),
            old(ctxt)@.has_user(self.0.user_id),
            old(ctxt)@.has_origin(st_origin.0.origin_id),
            old(ctxt)@.user(self.0.user_id).origin.is_none(),
        ensures
            old(ctxt)@.connected(self.0.user_id, st_origin.0.origin_id, final(ctxt)@),
            old(ctxt)@.grows_to(final(ctxt)@),
            old(ctxt)@.well_typed() && old(ctxt)@.state_user(self.0.user_id) && old(ctxt)@.state_origin(st_origin.0.origin_id) ==> final(ctxt)@.well_typed(),
    {
        ctxt.connect_ports(self.id(), st_origin.id());
    }

    /// The state output that this input is connected to.
    pub fn origin<S: Sig>(&self, ctxt: &NodeCtxt<S>) -> (origin: StOrigin)
        requires
            ctxt@.wf(),
            ctxt@.has_user(self.0.user_id),
            ctxt@.user(self.0.user_id).origin.is_some(),
        ensures
            Some(origin.0.origin_id) == ctxt@.user(self.0.user_id).origin,
            ctxt@.has_origin(origin.0.origin_id),
            ctxt@.well_typed() && ctxt@.state_user(self.0.user_id) ==> ctxt@.state_origin(
                origin.0.origin_id,
            ),
    {
        StOrigin(self.0.origin(ctxt))
    }
}

impl StOrigin {
    /// The identifier of the port.
    pub fn id(&self) -> (id: OriginId)
        ensures
            id == self.0.origin_id,
    {
        self.0.id()
    }

    /// Connects the unconnected state input `st_user` to this state
    /// output, of which it becomes the last user.
    pub fn connect<S: Sig>(&self, ctxt: &mut NodeCtxt<S>, st_user: StUser)
        requires
            old(ctxt)@.wf(),
            old(ctxt)@.has_user(st_user.0.user_id),
            old(ctxt)@.has_origin(self.0.origin_id),
            old(ctxt)@.user(st_user.0.user_id).origin.is_none(),
        ensures
            old(ctxt)@.connected(st_user.0.user_id, self.0.origin_id, final(ctxt)@),
            old(ctxt)@.grows_to(final(ctxt)@),
            old(ctxt)@.well_typed() && old(ctxt)@.state_user(st_user.0.user_id) && old(ctxt)@.state_origin(self.0.origin_id) ==> final(ctxt)@.well_typed(),
    {
        ctxt.connect_ports(st_user.id(), self.id());
    }

    /// A cursor over the users of this output, in the order of their
    /// connection.
    pub fn users<S: Sig>(&self, ctxt: &NodeCtxt<S>) -> (users: StUsers)
        requires
            ctxt@.wf(),
            ctxt@.has_origin(self.0.origin_id),
        ensures
            users.0.wf(ctxt@),
            users.0.remaining(ctxt@) == ctxt@.users_of(self.0.origin_id),
    {
        StUsers(self.0.users(ctxt))
    }

    /// The node that this output belongs to.
    pub fn producer<S: Sig>(&self, ctxt: &NodeCtxt<S>) -> (node: Node)
        requires
            ctxt@.has_origin(self.0.origin_id),
            self.0.origin_id is Out,
        ensures
            Some(node.id) == self.0.origin_id.owner(),
            ctxt@.has_node(node.id),
    {
        self.0.producer(ctxt)
    }
}

/// A cursor over the users of a state output.
pub struct StUsers(pub Users);

impl StUsers {
    /// Hands out the first of the remaining users.
    pub fn next<S: Sig>(&mut self, ctxt: &NodeCtxt<S>) -> (user: Option<StUser>)
        requires
            ctxt@.wf(),
            old(self).0.wf(ctxt@),
        ensures
            final(self).0.wf(ctxt@),
            old(self).0.remaining(ctxt@).len() == 0 ==> user.is_none() && final(self).0.remaining(ctxt@).len() == 0,
            old(self).0.remaining(ctxt@).len() > 0 ==> user == Some(
                StUser(User { user_id: old(self).0.remaining(ctxt@).first() }),
            ) && final(self).0.remaining(ctxt@) == old(self).0.remaining(ctxt@).drop_first(),
    {
        match self.0.next(ctxt) {
            Some(user) => Some(StUser(user)),
            None => None,
        }
    }

    /// Hands out the last of the remaining users.
    pub fn next_back<S: Sig>(&mut self, ctxt: &NodeCtxt<S>) -> (user: Option<StUser>)
        requires
            ctxt@.wf(),
            old(self).0.wf(ctxt@),
        ensures
            final(self).0.wf(ctxt@),
            old(self).0.remaining(ctxt@).len() == 0 ==> user.is_none() && final(self).0.remaining(ctxt@).len() == 0,
            old(self).0.remaining(ctxt@).len() > 0 ==> user == Some(
                StUser(User { user_id: old(self).0.remaining(ctxt@).last() }),
            ) && final(self).0.remaining(ctxt@) == old(self).0.remaining(ctxt@).drop_last(),
    {
        match self.0.next_back(ctxt) {
            Some(user) => Some(StUser(user)),
            None => None,
        }
    }
}

} // verus!
