//! A plain circuit wire: a position in the circuit and what is known of the
//! value there.

use crate::assignment::Assignment;
use crate::linear_combination::{IntoOpaque, Variable};
use crate::opaque_scalar::OpaqueScalar;
use crate::scalar_value::ScalarValue;
use vstd::prelude::*;

verus! {

/// A wire of a circuit, carrying scalars of kind `S`.
#[derive(Clone, Copy, Debug, PartialEq, Eq)]
pub enum Wire<S: ScalarValue> {
    /// The wire that carries the constant one.
    One,
    /// The wire at a position of the circuit.
    At {
        /// Where the wire sits in the circuit.
        position: usize,
        /// What is known of its value.
        assignment: Assignment<S>,
    },
}

impl<S: ScalarValue> Variable for Wire<S> {
    type ValueType = S;

    open spec fn assignment_spec(&self) -> Option<nat> {
        match *self {
            Wire::One => Some(1nat),
            Wire::At { assignment, .. } => assignment@,
        }
    }

    open spec fn constant_one_spec() -> Self {
        Wire::One
    }

    proof fn lemma_assignment_canonical(&self) {
        match *self {
            Wire::At { assignment: Assignment::Known(s), .. } => {
                s.lemma_value_canonical();
            },
            _ => {},
        }
    }

    proof fn lemma_constant_one_assignment() {
    }

    fn assignment(&self) -> (a: Assignment<S>) {
        match *self {
            Wire::One => Assignment::Known(S::one()),
            Wire::At { assignment, .. } => assignment,
        }
    }

    fn constant_one() -> (v: Self) {
        Wire::One
    }
}

impl<S: ScalarValue> IntoOpaque for Wire<S> {
    type OpaqueType = Wire<OpaqueScalar>;

    open spec fn widens_to(self, opaque: Wire<OpaqueScalar>) -> bool {
        match (self, opaque) {
            (Wire::One, Wire::One) => true,
            (
                Wire::At { position, assignment },
                Wire::At { position: opaque_position, assignment: opaque_assignment },
            ) => opaque_position == position && opaque_assignment@ == assignment@,
            _ => false,
        }
    }

    proof fn lemma_widening_keeps_assignment(self, opaque: Wire<OpaqueScalar>) {
    }

    proof fn lemma_widening_keeps_constant_one(opaque: Wire<OpaqueScalar>) {
    }

    fn into_opaque(self) -> (r: Wire<OpaqueScalar>) {
        match self {
            Wire::One => Wire::One,
            Wire::At { position, assignment } => Wire::At {
                position,
                assignment: assignment.into_opaque(),
            },
        }
    }
}

} // verus!
