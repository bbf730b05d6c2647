//! Linear combinations of circuit variables.
//!
//! A combination is a list of weighted variables together with its value,
//! which is brought up to date by every operation and never computed again
//! from the list. The value is unknown as soon as one variable's is.

use crate::assignment::Assignment;
use crate::field::{field_mul, field_neg, group_order};
use crate::model::{
    lemma_constant_wf, lemma_difference_wf, lemma_empty_wf, lemma_scaled_wf, lemma_sum_wf,
    lemma_term_wf, lemma_variable_wf, lemma_widened_wf, negated_terms, scaled_terms,
    LinearCombinationView,
};
use crate::opaque_scalar::OpaqueScalar;
use crate::scalar_value::{ClearScalar, ScalarValue};
use core::ops::{Add, Mul, Sub};
use vstd::prelude::*;
use vstd::std_specs::ops::{AddSpecImpl, MulSpecImpl, SubSpecImpl};

verus! {

/// A wire of the circuit that a linear combination can mention.
pub trait Variable: Clone {
    /// The kind of scalar that the wire carries and that weighs it.
    type ValueType: ScalarValue;

    /// What the wire reports of its value. It is a function of the variable:
    /// asking twice gives the same answer.
    spec fn assignment_spec(&self) -> Option<nat>;

    /// The wire that carries the constant one.
    spec fn constant_one_spec() -> Self;

    /// A reported value is a canonical field element.
    proof fn lemma_assignment_canonical(&self)
        ensures
            self.assignment_spec() matches Some(a) ==> a < group_order(),
    ;

    /// The constant-one wire reports one, with or without a witness.
    proof fn lemma_constant_one_assignment()
        ensures
            Self::constant_one_spec().assignment_spec() == Some(1nat),
    ;

    /// Returns the assignment.
    fn assignment(&self) -> (a: Assignment<Self::ValueType>)
        ensures
            a@ == self.assignment_spec(),
    ;

    /// Returns the representation of "1" with which constant terms are stored.
    fn constant_one() -> (v: Self)
        ensures
            v == Self::constant_one_spec(),
    ;
}

/// A variable that can give up the reading of its value.
///
/// The conversion goes one way: nothing turns an opaque variable back into
/// one in the clear.
pub trait IntoOpaque: Variable {
    /// Type of the variable with an opaque assignment.
    type OpaqueType: Variable<ValueType = OpaqueScalar>;

    /// Whether `opaque` is this variable with its value hidden: the same wire
    /// of the circuit, with the same value, of the opaque kind.
    spec fn widens_to(self, opaque: Self::OpaqueType) -> bool;

    /// Hiding the value does not change it.
    proof fn lemma_widening_keeps_assignment(self, opaque: Self::OpaqueType)
        requires
            self.widens_to(opaque),
        ensures
            opaque.assignment_spec() == self.assignment_spec(),
    ;

    /// The constant-one wire stays the constant-one wire, and nothing else.
    proof fn lemma_widening_keeps_constant_one(opaque: Self::OpaqueType)
        ensures
            Self::constant_one_spec().widens_to(opaque) <==> opaque
                == <Self::OpaqueType as Variable>::constant_one_spec(),
    ;

    /// Converts the variable to an opaque version.
    fn into_opaque(self) -> (r: Self::OpaqueType)
        ensures
            self.widens_to(r),
    ;
}

/// The terms as they are stored, each weight read as a natural number.
pub open spec fn weights_as_nat<V: Variable>(terms: Seq<(V, V::ValueType)>) -> Seq<(V, nat)> {
    terms.map_values(|t: (V, V::ValueType)| (t.0, t.1.value()))
}

/// Types that can be unambiguously converted to a linear combination.
///
/// A combination converts to itself, a scalar to the constant-one wire
/// weighted by it, a variable to itself with weight one, and a pair of a
/// variable and a weight to that single term.
pub trait IntoLC<V: Variable>: Sized {
    /// The combination that the value stands for.
    spec fn lc_view(self) -> LinearCombinationView<V>;

    /// Converts the value into a linear combination.
    fn into_lc(self) -> (r: LinearCombination<V>)
        ensures
            r@ == self.lc_view(),
            r@.wf(),
    ;
}

/// Linear combination of variables `V` with weights of their scalar kind: the
/// sum of `V_i * S_i`.
///
/// The assignment of a variable has the same kind as the weights. To weigh a
/// variable in the clear with an opaque scalar, convert the variable first.
pub struct LinearCombination<V: Variable> {
    /// Terms of the linear combination.
    pub(crate) terms: Vec<(V, V::ValueType)>,
    /// Precomputed evaluation of the linear combination.
    pub(crate) precomputed: Assignment<V::ValueType>,
}

impl<V: Variable> View for LinearCombination<V> {
    type V = LinearCombinationView<V>;

    /// The terms with their weights as natural numbers, and the carried value.
    closed spec fn view(&self) -> LinearCombinationView<V> {
        LinearCombinationView { terms: weights_as_nat(self.terms@), eval: self.precomputed@ }
    }
}

impl<V: Variable> LinearCombination<V> {
    /// Every combination that exists is well formed: its carried value is the
    /// value of its terms.
    #[verifier::type_invariant]
    spec fn inv(self) -> bool {
        self@.wf()
    }

    /// Evaluates the linear combination expression: hands out the value that
    /// was carried along, without a look at the terms.
    pub fn eval(&self) -> (r: Assignment<V::ValueType>)
        ensures
            r@ == self@.eval,
            self@.wf(),
    {
        proof {
            use_type_invariant(self);
        }
        self.precomputed
    }

    /// The terms, in the order in which they were added.
    pub fn terms(&self) -> (r: &Vec<(V, V::ValueType)>)
        ensures
            weights_as_nat(r@) == self@.terms,
            self@.wf(),
    {
        proof {
            use_type_invariant(self);
        }
        &self.terms
    }
}

impl<V: IntoOpaque> LinearCombination<V> {
    /// Converts variables in the linear combination into opaque variables,
    /// and the weights and the value with them.
    pub fn into_opaque(self) -> (r: LinearCombination<V::OpaqueType>)
        ensures
            self@.widens_to(r@),
            r@.wf(),
    {
        proof {
            use_type_invariant(&self);
        }
        let ghost from = self@;
        let LinearCombination { terms, precomputed } = self;
        let ghost before = terms@;
        let mut widened: Vec<(V::OpaqueType, OpaqueScalar)> = Vec::new();
        for term in it: terms.into_iter()
            invariant
                it.seq() == before,
                widened@.len() == it.index(),
                forall|i: int|
                    0 <= i < widened@.len() ==> {
                        &&& (#[trigger] before[i]).0.widens_to(widened@[i].0)
                        &&& widened@[i].1.value() == before[i].1.value()
                    },
        {
            let (v, w) = term;
            widened.push((v.into_opaque(), w.into_opaque()));
        }
        let precomputed = precomputed.into_opaque();
        proof {
            let to = LinearCombinationView {
                terms: weights_as_nat(widened@),
                eval: precomputed@,
            };
            lemma_widened_wf(from, to);
        }
        LinearCombination { terms: widened, precomputed }
    }
}

/// Empty linear combination.
impl<V: Variable> Default for LinearCombination<V> {
    fn default() -> (r: Self)
        ensures
            r@ == LinearCombinationView::<V>::empty(),
            r@.wf(),
    {
        let terms = Vec::new();
        proof {
            lemma_empty_wf::<V>();
            assert(weights_as_nat::<V>(terms@) =~= Seq::empty());
        }
        LinearCombination { terms, precomputed: Assignment::Known(V::ValueType::zero()) }
    }
}

impl<V: Variable> IntoLC<V> for LinearCombination<V> {
    open spec fn lc_view(self) -> LinearCombinationView<V> {
        self@
    }

    fn into_lc(self) -> (r: LinearCombination<V>) {
        proof {
            use_type_invariant(&self);
        }
        self
    }
}

impl<V: Variable<ValueType = ClearScalar>> IntoLC<V> for ClearScalar {
    open spec fn lc_view(self) -> LinearCombinationView<V> {
        LinearCombinationView::constant(self.value())
    }

    fn into_lc(self) -> (r: LinearCombination<V>) {
        let terms = vec![(V::constant_one(), self)];
        proof {
            self.lemma_value_canonical();
            lemma_constant_wf::<V>(self.value());
            assert(weights_as_nat(terms@) =~= seq![(V::constant_one_spec(), self.value())]);
        }
        LinearCombination { terms, precomputed: Assignment::Known(self) }
    }
}

impl<V: Variable<ValueType = OpaqueScalar>> IntoLC<V> for OpaqueScalar {
    open spec fn lc_view(self) -> LinearCombinationView<V> {
        LinearCombinationView::constant(self.value())
    }

    fn into_lc(self) -> (r: LinearCombination<V>) {
        let terms = vec![(V::constant_one(), self)];
        proof {
            self.lemma_value_canonical();
            lemma_constant_wf::<V>(self.value());
            assert(weights_as_nat(terms@) =~= seq![(V::constant_one_spec(), self.value())]);
        }
        LinearCombination { terms, precomputed: Assignment::Known(self) }
    }
}

impl<V: Variable> IntoLC<V> for V {
    open spec fn lc_view(self) -> LinearCombinationView<V> {
        LinearCombinationView::variable(self)
    }

    fn into_lc(self) -> (r: LinearCombination<V>) {
        let precomputed = self.assignment();
        let ghost v = self;
        let terms = vec![(self, V::ValueType::one())];
        proof {
            lemma_variable_wf(v);
            assert(weights_as_nat(terms@) =~= seq![(v, 1nat)]);
        }
        LinearCombination { precomputed, terms }
    }
}

impl<V: Variable> IntoLC<V> for (V, V::ValueType) {
    open spec fn lc_view(self) -> LinearCombinationView<V> {
        LinearCombinationView::term(self.0, self.1.value())
    }

    fn into_lc(self) -> (r: LinearCombination<V>) {
        let precomputed = self.0.assignment() * Assignment::Known(self.1);
        let ghost term = (self.0, self.1.value());
        proof {
            self.1.lemma_value_canonical();
        }
        let terms = vec![self];
        proof {
            lemma_term_wf(term.0, term.1);
            assert(weights_as_nat(terms@) =~= seq![term]);
        }
        LinearCombination { precomputed, terms }
    }
}

/// Arithmetic on linear combinations.
impl<T: IntoLC<V>, V: Variable> Add<T> for LinearCombination<V> {
    type Output = LinearCombination<V>;

    /// Appends the terms of `other` and adds its value.
    fn add(self, other: T) -> (r: LinearCombination<V>)
        ensures
            r@ == self@.sum(other.lc_view()),
            r@.wf(),
    {
        let other = other.into_lc();
        proof {
            use_type_invariant(&self);
            use_type_invariant(&other);
            lemma_sum_wf(self@, other@);
        }
        let LinearCombination { terms: mut terms, precomputed } = self;
        let LinearCombination { terms: mut other_terms, precomputed: other_precomputed } = other;
        let ghost before = terms@;
        let ghost added = other_terms@;
        terms.append(&mut other_terms);
        assert(weights_as_nat(terms@) =~= weights_as_nat(before) + weights_as_nat(added));
        LinearCombination { terms, precomputed: precomputed + other_precomputed }
    }
}

/// `+` is specified by the `ensures` of `add`, over views. No spec function
/// gives the sum as a value, so `add_spec` is never consulted.
impl<T: IntoLC<V>, V: Variable> AddSpecImpl<T> for LinearCombination<V> {
    open spec fn obeys_add_spec() -> bool {
        false
    }

    open spec fn add_req(self, other: T) -> bool {
        true
    }

    open spec fn add_spec(self, other: T) -> LinearCombination<V> {
        self
    }
}

impl<T: IntoLC<V>, V: Variable> Sub<T> for LinearCombination<V> {
    type Output = LinearCombination<V>;

    /// Appends the terms of `other` with negated weights and subtracts its
    /// value.
    fn sub(self, other: T) -> (r: LinearCombination<V>)
        ensures
            r@ == self@.difference(other.lc_view()),
            r@.wf(),
    {
        let other = other.into_lc();
        proof {
            use_type_invariant(&self);
            use_type_invariant(&other);
            lemma_difference_wf(self@, other@);
        }
        let LinearCombination { terms: mut terms, precomputed } = self;
        let LinearCombination { terms: other_terms, precomputed: other_precomputed } = other;
        let ghost before = weights_as_nat(terms@);
        let ghost subtracted = weights_as_nat(other_terms@);
        for term in it: other_terms.into_iter()
            invariant
                weights_as_nat(it.seq()) == subtracted,
                weights_as_nat(terms@) =~= before + negated_terms(
                    subtracted.take(it.index() as int),
                ),
        {
            let ghost so_far = weights_as_nat(terms@);
            let (v, w) = term;
            terms.push((v, w.neg()));
            assert(weights_as_nat(terms@) =~= so_far.push((v, field_neg(w.value()))));
        }
        assert(subtracted.take(subtracted.len() as int) =~= subtracted);
        LinearCombination { terms, precomputed: precomputed - other_precomputed }
    }
}

/// `-` is specified by the `ensures` of `sub`, over views. No spec function
/// gives the difference as a value, so `sub_spec` is never consulted.
impl<T: IntoLC<V>, V: Variable> SubSpecImpl<T> for LinearCombination<V> {
    open spec fn obeys_sub_spec() -> bool {
        false
    }

    open spec fn sub_req(self, other: T) -> bool {
        true
    }

    open spec fn sub_spec(self, other: T) -> LinearCombination<V> {
        self
    }
}

/// Multiplying a linear combination by a constant.
impl<V: Variable> Mul<V::ValueType> for LinearCombination<V> {
    type Output = LinearCombination<V>;

    /// Multiplies every weight, and the value, by `scalar`.
    fn mul(self, scalar: V::ValueType) -> (r: LinearCombination<V>)
        ensures
            r@ == self@.scaled(scalar.value()),
            r@.wf(),
    {
        proof {
            use_type_invariant(&self);
            lemma_scaled_wf(self@, scalar.value());
        }
        let LinearCombination { terms: mut terms, precomputed } = self;
        let ghost before = weights_as_nat(terms@);
        let n: usize = terms.len();
        for i in 0..n
            invariant
                terms@.len() == n,
                before.len() == n,
                forall|j: int|
                    0 <= j < i ==> #[trigger] weights_as_nat(terms@)[j] == (
                        before[j].0,
                        field_mul(before[j].1, scalar.value()),
                    ),
                forall|j: int| i <= j < n ==> #[trigger] weights_as_nat(terms@)[j] == before[j],
        {
            let ghost so_far = terms@;
            let w = terms[i].1;
            terms[i].1 = w.mul(scalar);
            proof {
                let now = weights_as_nat(terms@);
                assert(weights_as_nat(so_far)[i as int] == before[i as int]);
                assert(forall|j: int|
                    0 <= j < n && j != i ==> #[trigger] now[j] == weights_as_nat(so_far)[j]);
            }
        }
        assert(weights_as_nat(terms@) =~= scaled_terms(before, scalar.value()));
        LinearCombination { terms, precomputed: precomputed * Assignment::Known(scalar) }
    }
}

/// `*` is specified by the `ensures` of `mul`, over views. No spec function
/// gives the product as a value, so `mul_spec` is never consulted.
impl<V: Variable> MulSpecImpl<V::ValueType> for LinearCombination<V> {
    open spec fn obeys_mul_spec() -> bool {
        false
    }

    open spec fn mul_req(self, scalar: V::ValueType) -> bool {
        true
    }

    open spec fn mul_spec(self, scalar: V::ValueType) -> LinearCombination<V> {
        self
    }
}

} // verus!
