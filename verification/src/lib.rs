//! Linear combinations of circuit variables over the scalar field of
//! Curve25519, for building arithmetic constraint systems.
//!
//! A [`LinearCombination`] is a list of weighted variables that carries its
//! own value along: every operation brings the value up to date, so that it
//! is read in constant time however long the list has grown. Where a
//! variable has no value yet, because the circuit is laid out without a
//! witness, the combination has none either.
//!
//! Scalars come in two kinds. A [`ClearScalar`] can be read; an
//! [`OpaqueScalar`] stands for a committed value and can only be combined.
//! Variables and combinations are of the kind of their scalars, and the only
//! way from one kind to the other is `into_opaque`.

pub mod algebra;
pub mod assignment;
pub mod field;
pub mod linear_combination;
pub mod model;
pub mod opaque_scalar;
pub mod scalar_value;
pub mod wire;

pub use crate::assignment::Assignment;
pub use crate::linear_combination::{IntoLC, IntoOpaque, LinearCombination, Variable};
pub use crate::opaque_scalar::OpaqueScalar;
pub use crate::scalar_value::{ClearScalar, ScalarValue};
pub use crate::wire::Wire;
