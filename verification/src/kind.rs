//! Node kinds: an operation of the embedder's vocabulary, or one of the
//! structured shells.

use vstd::prelude::*;
use vstd::std_specs::cmp::PartialEqSpec;
use vstd::laws_eq::obeys_concrete_eq;
use crate::sig::{Sig, SigS};

verus! {

/// What a node is. The kind never changes once the node exists.
#[derive(Copy, Eq, Hash, Debug)]
pub enum NodeKind<S> {
    /// An operation of the vocabulary `S`.
    Op(S),
    /// A call: the function is the first value input, the arguments follow.
    Apply { arg_val_ins: usize, arg_st_ins: usize, region_val_res: usize, region_st_res: usize },
    /// A conditional: the predicate is the first value input.
    Gamma { val_ins: usize, val_outs: usize, st_ins: usize, st_outs: usize },
    /// The top-level shell.
    Omega { imports: usize, exports: usize },
}

/// Equality and cloning of the vocabulary `S` mean identity: `==` holds of
/// two operations exactly when they are the same value, and a clone is the
/// value it was made from. Sharing of equal nodes is stated under this
/// assumption.
pub open spec fn exact_vocabulary<S: PartialEq + Clone>() -> bool {
    &&& obeys_concrete_eq::<S>()
    &&& forall|a: S, b: S| #[trigger] cloned(a, b) ==> (a == b)
}

/// `b` may be the result of cloning the kind `a`.
pub open spec fn kind_cloned<S: Clone>(a: NodeKind<S>, b: NodeKind<S>) -> bool {
    match (a, b) {
        (NodeKind::Op(x), NodeKind::Op(y)) => cloned(x, y),
        _ => a == b,
    }
}

/// Under an exact vocabulary a cloned kind is the kind itself, and `==` on
/// kinds is identity.
pub proof fn lemma_exact_kinds<S: PartialEq + Clone>()
    requires
        exact_vocabulary::<S>(),
    ensures
        forall|a: NodeKind<S>, b: NodeKind<S>| #[trigger] kind_cloned(a, b) ==> (a == b),
        forall|a: NodeKind<S>, b: NodeKind<S>| #[trigger] a.eq_spec(&b) <==> (a == b),
        S::obeys_eq_spec(),
{
    reveal(obeys_concrete_eq);
}

impl<S: Clone> Clone for NodeKind<S> {
    fn clone(&self) -> (r: Self)
        ensures
            kind_cloned(*self, r),
    {
        match self {
            NodeKind::Op(s) => NodeKind::Op(s.clone()),
            NodeKind::Apply { arg_val_ins, arg_st_ins, region_val_res, region_st_res } => {
                NodeKind::Apply {
                    arg_val_ins: *arg_val_ins,
                    arg_st_ins: *arg_st_ins,
                    region_val_res: *region_val_res,
                    region_st_res: *region_st_res,
                }
            },
            NodeKind::Gamma { val_ins, val_outs, st_ins, st_outs } => NodeKind::Gamma {
                val_ins: *val_ins,
                val_outs: *val_outs,
                st_ins: *st_ins,
                st_outs: *st_outs,
            },
            NodeKind::Omega { imports, exports } => NodeKind::Omega {
                imports: *imports,
                exports: *exports,
            },
        }
    }
}

impl<S: PartialEq> PartialEq for NodeKind<S> {
    fn eq(&self, other: &Self) -> (r: bool) {
        match (self, other) {
            (NodeKind::Op(a), NodeKind::Op(b)) => a.eq(b),
            (
                NodeKind::Apply { arg_val_ins: a0, arg_st_ins: a1, region_val_res: a2, region_st_res: a3 },
                NodeKind::Apply { arg_val_ins: b0, arg_st_ins: b1, region_val_res: b2, region_st_res: b3 },
            ) => *a0 == *b0 && *a1 == *b1 && *a2 == *b2 && *a3 == *b3,
            (
                NodeKind::Gamma { val_ins: a0, val_outs: a1, st_ins: a2, st_outs: a3 },
                NodeKind::Gamma { val_ins: b0, val_outs: b1, st_ins: b2, st_outs: b3 },
            ) => *a0 == *b0 && *a1 == *b1 && *a2 == *b2 && *a3 == *b3,
            (
                NodeKind::Omega { imports: a0, exports: a1 },
                NodeKind::Omega { imports: b0, exports: b1 },
            ) => *a0 == *b0 && *a1 == *b1,
            _ => false,
        }
    }
}

impl<S: PartialEq> vstd::std_specs::cmp::PartialEqSpecImpl for NodeKind<S> {
    open spec fn obeys_eq_spec() -> bool {
        S::obeys_eq_spec()
    }

    open spec fn eq_spec(&self, other: &NodeKind<S>) -> bool {
        match (*self, *other) {
            (NodeKind::Op(a), NodeKind::Op(b)) => a.eq_spec(&b),
            (
                NodeKind::Apply { arg_val_ins: a0, arg_st_ins: a1, region_val_res: a2, region_st_res: a3 },
                NodeKind::Apply { arg_val_ins: b0, arg_st_ins: b1, region_val_res: b2, region_st_res: b3 },
            ) => a0 == b0 && a1 == b1 && a2 == b2 && a3 == b3,
            (
                NodeKind::Gamma { val_ins: a0, val_outs: a1, st_ins: a2, st_outs: a3 },
                NodeKind::Gamma { val_ins: b0, val_outs: b1, st_ins: b2, st_outs: b3 },
            ) => a0 == b0 && a1 == b1 && a2 == b2 && a3 == b3,
            (
                NodeKind::Omega { imports: a0, exports: a1 },
                NodeKind::Omega { imports: b0, exports: b1 },
            ) => a0 == b0 && a1 == b1,
            _ => false,
        }
    }
}

impl<S: Sig> NodeKind<S> {
    /// The signature can be computed: the input that a structured shell adds
    /// to its declared ones does not overflow the count.
    pub open spec fn countable(self) -> bool {
        match self {
            NodeKind::Apply { arg_val_ins, .. } => arg_val_ins < usize::MAX,
            NodeKind::Gamma { val_ins, .. } => val_ins < usize::MAX,
            _ => true,
        }
    }

    /// The signature of a node of this kind. An operation has the signature
    /// its vocabulary gives it; a call has the function before its
    /// arguments, a conditional the predicate before its inputs; the
    /// top-level shell has no ports.
    pub open spec fn sig_spec(self) -> SigS {
        match self {
            NodeKind::Op(s) => s.sig_spec(),
            NodeKind::Apply { arg_val_ins, arg_st_ins, region_val_res, region_st_res } => SigS {
                val_ins: (1 + arg_val_ins) as usize,
                val_outs: region_val_res,
                st_ins: arg_st_ins,
                st_outs: region_st_res,
            },
            NodeKind::Gamma { val_ins, val_outs, st_ins, st_outs } => SigS {
                val_ins: (1 + val_ins) as usize,
                val_outs,
                st_ins,
                st_outs,
            },
            NodeKind::Omega { .. } => SigS::empty(),
        }
    }

    /// Nodes of this kind have no state output, so equal ones may be shared.
    pub open spec fn pure(self) -> bool {
        !self.sig_spec().side_effectful()
    }

    /// The signature of a node of this kind.
    pub fn sig(&self) -> (s: SigS)
        requires
            self.countable(),
        ensures
            s == self.sig_spec(),
    {
        match self {
            NodeKind::Op(s) => s.sig(),
            NodeKind::Apply { arg_val_ins, arg_st_ins, region_val_res, region_st_res } => SigS {
                val_ins: 1 + *arg_val_ins,
                val_outs: *region_val_res,
                st_ins: *arg_st_ins,
                st_outs: *region_st_res,
            },
            NodeKind::Gamma { val_ins, val_outs, st_ins, st_outs } => SigS {
                val_ins: 1 + *val_ins,
                val_outs: *val_outs,
                st_ins: *st_ins,
                st_outs: *st_outs,
            },
            NodeKind::Omega { .. } => SigS::default(),
        }
    }
}

} // verus!
