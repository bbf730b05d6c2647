//! What a weight or a wire's value must be able to do, and the kind of scalar
//! whose value the circuit builder may read.

use crate::field::{
    add_bytes, field_add, field_mul, field_neg, field_sub, group_order, le_value,
    lemma_field_results_canonical, mul_bytes, neg_bytes, reduce_bytes, sub_bytes, u64_bytes,
};
use crate::opaque_scalar::OpaqueScalar;
use vstd::arithmetic::div_mod::*;
use vstd::prelude::*;

verus! {

/// An element of the scalar field, with the field's arithmetic.
///
/// Two kinds exist: [`ClearScalar`], which can be read, and [`OpaqueScalar`],
/// which can only be combined. Nothing here compares or inspects a value.
pub trait ScalarValue: Copy {
    /// The element as the natural number below the group order that stands for it.
    spec fn value(self) -> nat;

    /// Every element is a canonical representative.
    proof fn lemma_value_canonical(self)
        ensures
            self.value() < group_order(),
    ;

    /// The additive identity.
    fn zero() -> (r: Self)
        ensures
            r.value() == 0,
    ;

    /// The multiplicative identity.
    fn one() -> (r: Self)
        ensures
            r.value() == 1,
    ;

    /// The sum of two elements.
    fn add(self, rhs: Self) -> (r: Self)
        ensures
            r.value() == field_add(self.value(), rhs.value()),
    ;

    /// The difference of two elements.
    fn sub(self, rhs: Self) -> (r: Self)
        ensures
            r.value() == field_sub(self.value(), rhs.value()),
    ;

    /// The product of two elements.
    fn mul(self, rhs: Self) -> (r: Self)
        ensures
            r.value() == field_mul(self.value(), rhs.value()),
    ;

    /// The additive inverse of an element.
    fn neg(self) -> (r: Self)
        ensures
            r.value() == field_neg(self.value()),
    ;

    /// The same element as a scalar that can no longer be read.
    fn into_opaque(self) -> (r: OpaqueScalar)
        ensures
            r.as_nat() == self.value(),
    ;
}

/// A field element in the clear: its bytes can be read back.
#[derive(Clone, Copy, Debug, PartialEq, Eq)]
pub struct ClearScalar {
    bytes: [u8; 32],
}

impl ClearScalar {
    /// The bytes are the canonical encoding of the element.
    #[verifier::type_invariant]
    spec fn is_canonical(self) -> bool {
        le_value(self.bytes@) < group_order()
    }

    /// The element as the natural number below the group order that stands
    /// for it. The reduction makes this a field element for every value that
    /// a proof can speak of; on the scalars that exist it changes nothing.
    pub closed spec fn as_nat(self) -> nat {
        le_value(self.bytes@) % group_order()
    }

    /// The scalar with the given canonical encoding.
    fn from_canonical_bytes(bytes: [u8; 32]) -> (r: Self)
        requires
            le_value(bytes@) < group_order(),
        ensures
            r.as_nat() == le_value(bytes@),
    {
        proof {
            lemma_small_mod(le_value(bytes@), group_order());
        }
        ClearScalar { bytes }
    }

    /// The scalar that stands for a 64-bit integer.
    pub fn from_u64(x: u64) -> (r: Self)
        ensures
            r.as_nat() == x,
    {
        ClearScalar::from_canonical_bytes(u64_bytes(x))
    }

    /// The scalar that 32 little-endian bytes stand for, reduced modulo the
    /// group order.
    pub fn from_bytes_mod_order(bytes: [u8; 32]) -> (r: Self)
        ensures
            r.as_nat() == le_value(bytes@) % group_order(),
    {
        let reduced = reduce_bytes(&bytes);
        proof {
            lemma_mod_bound(le_value(bytes@) as int, group_order() as int);
        }
        ClearScalar::from_canonical_bytes(reduced)
    }

    /// The canonical little-endian encoding of the scalar.
    pub fn to_bytes(&self) -> (r: [u8; 32])
        ensures
            le_value(r@) == self.as_nat(),
            le_value(r@) < group_order(),
    {
        proof {
            use_type_invariant(self);
            lemma_small_mod(le_value(self.bytes@), group_order());
        }
        self.bytes
    }
}

impl ScalarValue for ClearScalar {
    open spec fn value(self) -> nat {
        self.as_nat()
    }

    proof fn lemma_value_canonical(self) {
        lemma_mod_bound(le_value(self.bytes@) as int, group_order() as int);
    }

    fn zero() -> (r: Self) {
        ClearScalar::from_u64(0)
    }

    fn one() -> (r: Self) {
        ClearScalar::from_u64(1)
    }

    fn add(self, rhs: Self) -> (r: Self) {
        let bytes = add_bytes(&self.to_bytes(), &rhs.to_bytes());
        proof {
            lemma_field_results_canonical(self.as_nat(), rhs.as_nat());
        }
        ClearScalar::from_canonical_bytes(bytes)
    }

    fn sub(self, rhs: Self) -> (r: Self) {
        let bytes = sub_bytes(&self.to_bytes(), &rhs.to_bytes());
        proof {
            lemma_field_results_canonical(self.as_nat(), rhs.as_nat());
        }
        ClearScalar::from_canonical_bytes(bytes)
    }

    fn mul(self, rhs: Self) -> (r: Self) {
        let bytes = mul_bytes(&self.to_bytes(), &rhs.to_bytes());
        proof {
            lemma_field_results_canonical(self.as_nat(), rhs.as_nat());
        }
        ClearScalar::from_canonical_bytes(bytes)
    }

    fn neg(self) -> (r: Self) {
        let bytes = neg_bytes(&self.to_bytes());
        proof {
            lemma_field_results_canonical(self.as_nat(), 0);
        }
        ClearScalar::from_canonical_bytes(bytes)
    }

    fn into_opaque(self) -> (r: OpaqueScalar) {
        OpaqueScalar::conceal(self)
    }
}

} // verus!
