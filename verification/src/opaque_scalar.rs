//! The kind of scalar that stands for a committed value: it takes part in the
//! field's arithmetic, and nothing that runs can read it back.

use crate::scalar_value::{ClearScalar, ScalarValue};
use vstd::prelude::*;

verus! {

/// A field element that can be combined and never inspected.
///
/// It has no accessor, no comparison and no printed form. Contracts speak of
/// its value through [`OpaqueScalar::as_nat`], which exists in proofs only.
#[derive(Clone, Copy)]
pub struct OpaqueScalar {
    hidden: ClearScalar,
}

impl OpaqueScalar {
    /// The element as the natural number below the group order that stands for it.
    pub closed spec fn as_nat(self) -> nat {
        self.hidden.as_nat()
    }

    /// Hides a clear scalar.
    pub(crate) fn conceal(s: ClearScalar) -> (r: Self)
        ensures
            r.as_nat() == s.as_nat(),
    {
        OpaqueScalar { hidden: s }
    }
}

impl ScalarValue for OpaqueScalar {
    open spec fn value(self) -> nat {
        self.as_nat()
    }

    proof fn lemma_value_canonical(self) {
        self.hidden.lemma_value_canonical();
    }

    fn zero() -> (r: Self) {
        OpaqueScalar { hidden: ClearScalar::zero() }
    }

    fn one() -> (r: Self) {
        OpaqueScalar { hidden: ClearScalar::one() }
    }

    fn add(self, rhs: Self) -> (r: Self) {
        OpaqueScalar { hidden: self.hidden.add(rhs.hidden) }
    }

    fn sub(self, rhs: Self) -> (r: Self) {
        OpaqueScalar { hidden: self.hidden.sub(rhs.hidden) }
    }

    fn mul(self, rhs: Self) -> (r: Self) {
        OpaqueScalar { hidden: self.hidden.mul(rhs.hidden) }
    }

    fn neg(self) -> (r: Self) {
        OpaqueScalar { hidden: self.hidden.neg() }
    }

    fn into_opaque(self) -> (r: OpaqueScalar) {
        self
    }
}

} // verus!
