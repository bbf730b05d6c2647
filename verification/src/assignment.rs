//! What is known of a wire's value: the value, or that there is none yet.
//!
//! While a circuit is laid out without a witness no wire has a value. That is
//! no failure: it is carried through every operation, and an expression with
//! one unknown input has an unknown value.

use crate::field::{field_add, field_mul, field_neg, field_sub};
use crate::opaque_scalar::OpaqueScalar;
use crate::scalar_value::ScalarValue;
use core::ops::{Add, Mul, Neg, Sub};
use vstd::prelude::*;
use vstd::std_specs::ops::{AddSpecImpl, MulSpecImpl, NegSpecImpl, SubSpecImpl};

verus! {

/// A scalar, or the fact that it is not known yet.
#[derive(Clone, Copy, Debug, PartialEq, Eq)]
pub enum Assignment<S: ScalarValue> {
    /// The value is known.
    Known(S),
    /// No value has been assigned.
    Unknown,
}

/// Addition carried over values that may be unknown.
pub open spec fn lifted_add(a: Option<nat>, b: Option<nat>) -> Option<nat> {
    match (a, b) {
        (Some(x), Some(y)) => Some(field_add(x, y)),
        _ => None,
    }
}

/// Subtraction carried over values that may be unknown.
pub open spec fn lifted_sub(a: Option<nat>, b: Option<nat>) -> Option<nat> {
    match (a, b) {
        (Some(x), Some(y)) => Some(field_sub(x, y)),
        _ => None,
    }
}

/// Multiplication carried over values that may be unknown.
pub open spec fn lifted_mul(a: Option<nat>, b: Option<nat>) -> Option<nat> {
    match (a, b) {
        (Some(x), Some(y)) => Some(field_mul(x, y)),
        _ => None,
    }
}

/// Negation carried over a value that may be unknown.
pub open spec fn lifted_neg(a: Option<nat>) -> Option<nat> {
    match a {
        Some(x) => Some(field_neg(x)),
        None => None,
    }
}

impl<S: ScalarValue> View for Assignment<S> {
    type V = Option<nat>;

    /// The value as a natural number below the group order, where it is known.
    open spec fn view(&self) -> Option<nat> {
        match *self {
            Assignment::Known(s) => Some(s.value()),
            Assignment::Unknown => None,
        }
    }
}

impl<S: ScalarValue> Assignment<S> {
    /// The same assignment with its value hidden.
    pub fn into_opaque(self) -> (r: Assignment<OpaqueScalar>)
        ensures
            r@ == self@,
    {
        match self {
            Assignment::Known(s) => Assignment::Known(s.into_opaque()),
            Assignment::Unknown => Assignment::Unknown,
        }
    }
}

impl<S: ScalarValue> Add for Assignment<S> {
    type Output = Assignment<S>;

    /// The sum, unknown as soon as one side is.
    fn add(self, rhs: Assignment<S>) -> (r: Assignment<S>)
        ensures
            r@ == lifted_add(self@, rhs@),
    {
        match (self, rhs) {
            (Assignment::Known(a), Assignment::Known(b)) => Assignment::Known(a.add(b)),
            _ => Assignment::Unknown,
        }
    }
}

/// `+` is specified by the `ensures` of `add`, over views. No spec function
/// gives the sum as a value, so `add_spec` is never consulted.
impl<S: ScalarValue> AddSpecImpl for Assignment<S> {
    open spec fn obeys_add_spec() -> bool {
        false
    }

    open spec fn add_req(self, rhs: Assignment<S>) -> bool {
        true
    }

    open spec fn add_spec(self, rhs: Assignment<S>) -> Assignment<S> {
        Assignment::Unknown
    }
}

impl<S: ScalarValue> Sub for Assignment<S> {
    type Output = Assignment<S>;

    /// The difference, unknown as soon as one side is.
    fn sub(self, rhs: Assignment<S>) -> (r: Assignment<S>)
        ensures
            r@ == lifted_sub(self@, rhs@),
    {
        match (self, rhs) {
            (Assignment::Known(a), Assignment::Known(b)) => Assignment::Known(a.sub(b)),
            _ => Assignment::Unknown,
        }
    }
}

/// `-` is specified by the `ensures` of `sub`, over views. No spec function
/// gives the difference as a value, so `sub_spec` is never consulted.
impl<S: ScalarValue> SubSpecImpl for Assignment<S> {
    open spec fn obeys_sub_spec() -> bool {
        false
    }

    open spec fn sub_req(self, rhs: Assignment<S>) -> bool {
        true
    }

    open spec fn sub_spec(self, rhs: Assignment<S>) -> Assignment<S> {
        Assignment::Unknown
    }
}

impl<S: ScalarValue> Mul for Assignment<S> {
    type Output = Assignment<S>;

    /// The product, unknown as soon as one side is.
    fn mul(self, rhs: Assignment<S>) -> (r: Assignment<S>)
        ensures
            r@ == lifted_mul(self@, rhs@),
    {
        match (self, rhs) {
            (Assignment::Known(a), Assignment::Known(b)) => Assignment::Known(a.mul(b)),
            _ => Assignment::Unknown,
        }
    }
}

/// `*` is specified by the `ensures` of `mul`, over views. No spec function
/// gives the product as a value, so `mul_spec` is never consulted.
impl<S: ScalarValue> MulSpecImpl for Assignment<S> {
    open spec fn obeys_mul_spec() -> bool {
        false
    }

    open spec fn mul_req(self, rhs: Assignment<S>) -> bool {
        true
    }

    open spec fn mul_spec(self, rhs: Assignment<S>) -> Assignment<S> {
        Assignment::Unknown
    }
}

impl<S: ScalarValue> Neg for Assignment<S> {
    type Output = Assignment<S>;

    /// The additive inverse, unknown where the value is.
    fn neg(self) -> (r: Assignment<S>)
        ensures
            r@ == lifted_neg(self@),
    {
        match self {
            Assignment::Known(a) => Assignment::Known(a.neg()),
            Assignment::Unknown => Assignment::Unknown,
        }
    }
}

/// Unary `-` is specified by the `ensures` of `neg`, over views. No spec function
/// gives the inverse as a value, so `neg_spec` is never consulted.
impl<S: ScalarValue> NegSpecImpl for Assignment<S> {
    open spec fn obeys_neg_spec() -> bool {
        false
    }

    open spec fn neg_req(self) -> bool {
        true
    }

    open spec fn neg_spec(self) -> Assignment<S> {
        Assignment::Unknown
    }
}

} // verus!
