//! The key of the table of shared nodes, as it is stored.

use vstd::prelude::*;
use smallvec::SmallVec;
use crate::graph::Term;
use crate::ids::{OriginId, RegionId};
use crate::kind::{exact_vocabulary, lemma_exact_kinds, NodeKind};

verus! {

/// The origins of a stored term: a `smallvec::SmallVec` that keeps up to four
/// of them inline. Verus does not look inside; what it holds is
/// `origin_seq`.
#[verifier::external_body]
pub struct OriginVec {
    inner: SmallVec<[OriginId; 4]>,
}

/// The origins that an `OriginVec` holds, in their order.
pub uninterp spec fn origin_seq(v: OriginVec) -> Seq<OriginId>;

/// Calls `SmallVec::from` on a slice, which clones the slice's items one by
/// one into a new vector; an identifier is `Copy`, so its clone is the
/// identifier. Trusted: the vector holds the items of the slice, in the
/// order of the slice.
#[verifier::external_body]
fn origins_from_slice(origins: &[OriginId]) -> (v: OriginVec)
    ensures
        origin_seq(v) == origins@,
{
    OriginVec { inner: SmallVec::from(origins) }
}

/// Calls `==` of `SmallVec`, which compares the two vectors as slices.
/// Trusted: the result says whether they hold the same origins in the same
/// order.
#[verifier::external_body]
fn origins_eq(a: &OriginVec, b: &OriginVec) -> (r: bool)
    ensures
        r == (origin_seq(*a) == origin_seq(*b)),
{
    a.inner == b.inner
}

/// The key under which a pure node is shared.
pub(crate) struct NodeTerm<S> {
    region: RegionId,
    kind: NodeKind<S>,
    origins: OriginVec,
}

impl<S> View for NodeTerm<S> {
    type V = Term<S>;

    closed spec fn view(&self) -> Term<S> {
        Term { region: self.region, kind: self.kind, origins: origin_seq(self.origins) }
    }
}

impl<S: PartialEq + Clone> NodeTerm<S> {
    /// The term of a node of kind `kind` in `region` whose inputs are
    /// connected to `origins`.
    pub(crate) fn new(region: RegionId, kind: NodeKind<S>, origins: &[OriginId]) -> (t: NodeTerm<S>)
        ensures
            t@ == (Term { region, kind, origins: origins@ }),
    {
        NodeTerm { region, kind, origins: origins_from_slice(origins) }
    }

    /// Whether two terms are the same key.
    pub(crate) fn same(&self, other: &NodeTerm<S>) -> (r: bool)
        requires
            exact_vocabulary::<S>(),
        ensures
            r == (self@ == other@),
    {
        proof {
            lemma_exact_kinds::<S>();
        }
        let same_region = self.region == other.region;
        let same_kind = self.kind.eq(&other.kind);
        let same_origins = origins_eq(&self.origins, &other.origins);
        same_region && same_kind && same_origins
    }
}

} // verus!
