//! Staged construction of a node: the kind first, then the origins of its
//! value inputs and of its state inputs, then the node.

use vstd::prelude::*;
use crate::ctxt::NodeCtxt;
use crate::graph::Graph;
use crate::handle::{Node, StOrigin, ValOrigin};
use crate::ids::OriginId;
use crate::kind::NodeKind;
use crate::sig::Sig;

verus! {

/// A node under construction.
pub struct NodeBuilder<S> {
    node_kind: NodeKind<S>,
    val_origins: Vec<ValOrigin>,
    st_origins: Vec<StOrigin>,
}

impl<S: Sig> NodeBuilder<S> {
    /// The kind of the node.
    pub closed spec fn kind(self) -> NodeKind<S> {
        self.node_kind
    }

    /// The origins given so far for the value inputs, in the order of the
    /// inputs.
    pub closed spec fn operand_ids(self) -> Seq<OriginId> {
        self.val_origins@.map_values(|o: ValOrigin| o.0.origin_id)
    }

    /// The origins given so far for the state inputs, in the order of the
    /// inputs.
    pub closed spec fn state_ids(self) -> Seq<OriginId> {
        self.st_origins@.map_values(|o: StOrigin| o.0.origin_id)
    }

    /// The origins of all inputs: those of the value inputs come first.
    pub open spec fn origin_ids(self) -> Seq<OriginId> {
        self.operand_ids() + self.state_ids()
    }

    /// Every origin has been given.
    pub open spec fn complete(self) -> bool {
        &&& self.operand_ids().len() == self.kind().sig_spec().val_ins
        &&& self.state_ids().len() == self.kind().sig_spec().st_ins
    }

    /// A builder for a node of kind `node_kind`, with no origin given yet.
    pub fn new(node_kind: NodeKind<S>) -> (builder: NodeBuilder<S>)
        ensures
            builder.kind() == node_kind,
            builder.operand_ids() == Seq::<OriginId>::empty(),
            builder.state_ids() == Seq::<OriginId>::empty(),
    {
        let builder = NodeBuilder { node_kind, val_origins: Vec::new(), st_origins: Vec::new() };
        assert(builder.operand_ids() =~= Seq::<OriginId>::empty());
        assert(builder.state_ids() =~= Seq::<OriginId>::empty());
        builder
    }

    /// Gives the origin of the next value input.
    pub fn operand(self, val_origin: ValOrigin) -> (builder: NodeBuilder<S>)
        requires
            self.operand_ids().len() < self.kind().sig_spec().val_ins,
        ensures
            builder.kind() == self.kind(),
            builder.operand_ids() == self.operand_ids().push(val_origin.0.origin_id),
            builder.state_ids() == self.state_ids(),
    {
        let mut builder = self;
        builder.val_origins.push(val_origin);
        assert(builder.operand_ids() =~= self.operand_ids().push(val_origin.0.origin_id));
        builder
    }

    /// Gives the origins of all value inputs at once.
    pub fn operands(self, val_origins: &[ValOrigin]) -> (builder: NodeBuilder<S>)
        requires
            self.operand_ids().len() == 0,
            val_origins@.len() == self.kind().sig_spec().val_ins,
        ensures
            builder.kind() == self.kind(),
            builder.operand_ids() == val_origins@.map_values(|o: ValOrigin| o.0.origin_id),
            builder.state_ids() == self.state_ids(),
    {
        let mut builder = self;
        assert(builder.val_origins@ =~= val_origins@.take(0));
        let mut i: usize = 0;
        while i < val_origins.len()
            invariant
                i <= val_origins@.len(),
                builder.node_kind == self.node_kind,
                builder.st_origins == self.st_origins,
                builder.val_origins@ == val_origins@.take(i as int),
            decreases val_origins@.len() - i,
        {
            builder.val_origins.push(val_origins[i]);
            i += 1;
            assert(builder.val_origins@ =~= val_origins@.take(i as int));
        }
        assert(val_origins@.take(i as int) =~= val_origins@);
        builder
    }

    /// Gives the origin of the next state input.
    pub fn state(self, st_origin: StOrigin) -> (builder: NodeBuilder<S>)
        requires
            self.state_ids().len() < self.kind().sig_spec().st_ins,
        ensures
            builder.kind() == self.kind(),
            builder.operand_ids() == self.operand_ids(),
            builder.state_ids() == self.state_ids().push(st_origin.0.origin_id),
    {
        let mut builder = self;
        builder.st_origins.push(st_origin);
        assert(builder.state_ids() =~= self.state_ids().push(st_origin.0.origin_id));
        builder
    }

    /// Gives the origins of all state inputs at once.
    pub fn states(self, st_origins: &[StOrigin]) -> (builder: NodeBuilder<S>)
        requires
            self.state_ids().len() == 0,
            st_origins@.len() == self.kind().sig_spec().st_ins,
        ensures
            builder.kind() == self.kind(),
            builder.operand_ids() == self.operand_ids(),
            builder.state_ids() == st_origins@.map_values(|o: StOrigin| o.0.origin_id),
    {
        let mut builder = self;
        assert(builder.st_origins@ =~= st_origins@.take(0));
        let mut i: usize = 0;
        while i < st_origins.len()
            invariant
                i <= st_origins@.len(),
                builder.node_kind == self.node_kind,
                builder.val_origins == self.val_origins,
                builder.st_origins@ == st_origins@.take(i as int),
            decreases st_origins@.len() - i,
        {
            builder.st_origins.push(st_origins[i]);
            i += 1;
            assert(builder.st_origins@ =~= st_origins@.take(i as int));
        }
        assert(st_origins@.take(i as int) =~= st_origins@);
        builder
    }
}

impl<S: Sig + Eq + core::hash::Hash + Clone> NodeBuilder<S> {
    /// Constructs the node in `ctxt`, its value inputs connected to the
    /// origins given for them and its state inputs, which follow, to theirs;
    /// or hands out an equal node of `ctxt`, as `mk_node_with` does.
    pub fn finish(self, ctxt: &mut NodeCtxt<S>) -> (node: Node)
        requires
            self.complete(),
            old(ctxt)@.wf(),
            old(ctxt)@.admits(self.kind(), self.origin_ids()),
        ensures
            old(ctxt)@.made(self.kind(), self.origin_ids(), final(ctxt)@, node.id),
            final(ctxt)@.wf(),
            old(ctxt)@.grows_to(final(ctxt)@),
            final(ctxt)@.has_node(node.id),
            final(ctxt)@.nodes[node.id.0 as int].kind == self.kind(),
            old(ctxt)@.interning && self.kind().pure() ==> final(ctxt)@.shared(
                Graph::<S>::term_of(self.kind(), self.origin_ids()),
            ) == Some(node.id),
            old(ctxt)@.well_typed() && old(ctxt)@.fit_inputs(self.kind(), self.origin_ids())
                ==> final(ctxt)@.well_typed(),
    {
        let mut origins: Vec<OriginId> = Vec::new();
        let mut i: usize = 0;
        while i < self.val_origins.len()
            invariant
                i <= self.val_origins@.len(),
                origins@ == self.operand_ids().take(i as int),
            decreases self.val_origins@.len() - i,
        {
            origins.push(self.val_origins[i].0.id());
            i += 1;
            assert(origins@ =~= self.operand_ids().take(i as int));
        }
        assert(self.operand_ids().take(i as int) =~= self.operand_ids());
        let mut j: usize = 0;
        while j < self.st_origins.len()
            invariant
                j <= self.st_origins@.len(),
                origins@ == self.operand_ids() + self.state_ids().take(j as int),
            decreases self.st_origins@.len() - j,
        {
            origins.push(self.st_origins[j].0.id());
            j += 1;
            assert(origins@ =~= self.operand_ids() + self.state_ids().take(j as int));
        }
        assert(self.state_ids().take(j as int) =~= self.state_ids());
        let node_id = ctxt.mk_node_with(self.node_kind, origins.as_slice());
        Node { id: node_id }
    }
}

} // verus!
