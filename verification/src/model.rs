//! The mathematical content of a linear combination, and why every operation
//! keeps the carried value equal to the value of the terms.

use crate::assignment::{lifted_add, lifted_mul, lifted_neg, lifted_sub};
use crate::field::{
    field_mul, field_neg, group_order, lemma_field_add_associative, lemma_field_add_zero,
    lemma_field_mul_associative, lemma_field_mul_distributes, lemma_field_mul_neg,
    lemma_field_mul_one, lemma_field_neg_add, lemma_field_results_canonical,
    lemma_field_sub_is_add_neg,
};
use crate::linear_combination::{IntoOpaque, Variable};
use vstd::prelude::*;

verus! {

/// The mathematical content of a linear combination.
pub struct LinearCombinationView<V> {
    /// The weighted variables, in the order in which they were added, each
    /// weight as a natural number below the group order.
    pub terms: Seq<(V, nat)>,
    /// The value of the whole expression, where every variable's is known.
    pub eval: Option<nat>,
}

/// What one term adds to the value of a combination.
pub open spec fn term_value<V: Variable>(term: (V, nat)) -> Option<nat> {
    lifted_mul(term.0.assignment_spec(), Some(term.1))
}

/// The value of a list of terms: the sum of what each term adds, unknown as
/// soon as one variable's value is.
pub open spec fn sum_of_terms<V: Variable>(terms: Seq<(V, nat)>) -> Option<nat>
    decreases terms.len(),
{
    if terms.len() == 0 {
        Some(0nat)
    } else {
        lifted_add(sum_of_terms(terms.drop_last()), term_value(terms.last()))
    }
}

/// The terms with each weight replaced by its additive inverse.
pub open spec fn negated_terms<V>(terms: Seq<(V, nat)>) -> Seq<(V, nat)> {
    terms.map_values(|t: (V, nat)| (t.0, field_neg(t.1)))
}

/// The terms with each weight multiplied by `s`.
pub open spec fn scaled_terms<V>(terms: Seq<(V, nat)>, s: nat) -> Seq<(V, nat)> {
    terms.map_values(|t: (V, nat)| (t.0, field_mul(t.1, s)))
}

impl<V: Variable> LinearCombinationView<V> {
    /// Every weight is a canonical field element, and the value is that of the
    /// terms.
    pub open spec fn wf(self) -> bool {
        &&& forall|i: int|
            0 <= i < self.terms.len() ==> (#[trigger] self.terms[i]).1 < group_order()
        &&& self.eval == sum_of_terms(self.terms)
    }

    /// The combination without terms.
    pub open spec fn empty() -> Self {
        LinearCombinationView { terms: Seq::empty(), eval: Some(0nat) }
    }

    /// The combination that stands for a constant: the constant-one wire,
    /// weighted by the constant.
    pub open spec fn constant(c: nat) -> Self {
        LinearCombinationView { terms: seq![(V::constant_one_spec(), c)], eval: Some(c) }
    }

    /// The combination that stands for one variable: the variable with weight
    /// one, and the variable's own value.
    pub open spec fn variable(v: V) -> Self {
        LinearCombinationView { terms: seq![(v, 1nat)], eval: v.assignment_spec() }
    }

    /// The combination of one weighted variable.
    pub open spec fn term(v: V, w: nat) -> Self {
        LinearCombinationView { terms: seq![(v, w)], eval: term_value((v, w)) }
    }

    /// The sum of two combinations: the terms of the first, then those of the
    /// second, and the sum of the two values.
    pub open spec fn sum(self, other: Self) -> Self {
        LinearCombinationView {
            terms: self.terms + other.terms,
            eval: lifted_add(self.eval, other.eval),
        }
    }

    /// The difference of two combinations: the terms of the first, then those
    /// of the second with their weights negated, and the difference of the two
    /// values.
    pub open spec fn difference(self, other: Self) -> Self {
        LinearCombinationView {
            terms: self.terms + negated_terms(other.terms),
            eval: lifted_sub(self.eval, other.eval),
        }
    }

    /// The combination multiplied by a scalar: every weight multiplied by it,
    /// and the value too.
    pub open spec fn scaled(self, s: nat) -> Self {
        LinearCombinationView {
            terms: scaled_terms(self.terms, s),
            eval: lifted_mul(self.eval, Some(s)),
        }
    }
}

impl<V: IntoOpaque> LinearCombinationView<V> {
    /// Whether `opaque` is this combination with every variable and weight
    /// hidden: as many terms in the same order, each variable widened, each
    /// weight and the value unchanged.
    pub open spec fn widens_to(self, opaque: LinearCombinationView<V::OpaqueType>) -> bool {
        &&& opaque.terms.len() == self.terms.len()
        &&& forall|i: int|
            0 <= i < self.terms.len() ==> {
                &&& (#[trigger] self.terms[i]).0.widens_to(opaque.terms[i].0)
                &&& opaque.terms[i].1 == self.terms[i].1
            }
        &&& opaque.eval == self.eval
    }
}

/// The value of a list of terms is a canonical field element.
pub proof fn lemma_sum_of_terms_canonical<V: Variable>(terms: Seq<(V, nat)>)
    ensures
        sum_of_terms(terms) matches Some(x) ==> x < group_order(),
{
    if terms.len() > 0 {
        if let (Some(x), Some(y)) = (sum_of_terms(terms.drop_last()), term_value(terms.last())) {
            lemma_field_results_canonical(x, y);
        }
    }
}

/// The value of a single term is what that term adds.
pub proof fn lemma_sum_of_single_term<V: Variable>(term: (V, nat))
    ensures
        sum_of_terms(seq![term]) == term_value(term),
{
    assert(sum_of_terms(seq![term].drop_last()) == Some(0nat));
    if let (Some(a), Some(w)) = (term.0.assignment_spec(), Some(term.1)) {
        lemma_field_results_canonical(a, w);
        lemma_field_add_zero(field_mul(a, w));
    }
}

/// The value of two lists of terms, one after the other, is the sum of the
/// two values.
pub proof fn lemma_sum_of_concat<V: Variable>(x: Seq<(V, nat)>, y: Seq<(V, nat)>)
    ensures
        sum_of_terms(x + y) == lifted_add(sum_of_terms(x), sum_of_terms(y)),
    decreases y.len(),
{
    lemma_sum_of_terms_canonical(x);
    if y.len() == 0 {
        if let Some(a) = sum_of_terms(x) {
            lemma_field_add_zero(a);
        }
    } else {
        assert((x + y).drop_last() =~= x + y.drop_last());
        lemma_sum_of_concat(x, y.drop_last());
        if let (Some(a), Some(b), Some(c)) = (
            sum_of_terms(x),
            sum_of_terms(y.drop_last()),
            term_value(y.last()),
        ) {
            lemma_field_add_associative(a, b, c);
        }
    }
}

/// The combination without terms is well formed.
pub proof fn lemma_empty_wf<V: Variable>()
    ensures
        LinearCombinationView::<V>::empty().wf(),
{
}

/// A constant's combination is well formed.
pub proof fn lemma_constant_wf<V: Variable>(c: nat)
    requires
        c < group_order(),
    ensures
        LinearCombinationView::<V>::constant(c).wf(),
{
    V::lemma_constant_one_assignment();
    lemma_sum_of_single_term((V::constant_one_spec(), c));
    lemma_field_mul_one(c);
}

/// A variable's combination is well formed.
pub proof fn lemma_variable_wf<V: Variable>(v: V)
    ensures
        LinearCombinationView::variable(v).wf(),
{
    v.lemma_assignment_canonical();
    lemma_sum_of_single_term((v, 1nat));
    if let Some(a) = v.assignment_spec() {
        lemma_field_mul_one(a);
    }
}

/// A weighted variable's combination is well formed.
pub proof fn lemma_term_wf<V: Variable>(v: V, w: nat)
    requires
        w < group_order(),
    ensures
        LinearCombinationView::term(v, w).wf(),
{
    lemma_sum_of_single_term((v, w));
}

/// The sum of two well-formed combinations is well formed.
pub proof fn lemma_sum_wf<V: Variable>(a: LinearCombinationView<V>, b: LinearCombinationView<V>)
    requires
        a.wf(),
        b.wf(),
    ensures
        a.sum(b).wf(),
{
    lemma_sum_of_concat(a.terms, b.terms);
}

/// Negating every weight negates the value of the terms.
pub proof fn lemma_sum_of_negated<V: Variable>(terms: Seq<(V, nat)>)
    ensures
        sum_of_terms(negated_terms(terms)) == lifted_neg(sum_of_terms(terms)),
    decreases terms.len(),
{
    let negated = negated_terms(terms);
    if terms.len() == 0 {
        lemma_field_add_zero(0);
        lemma_field_sub_is_add_neg(0, 0);
    } else {
        assert(negated.drop_last() =~= negated_terms(terms.drop_last()));
        lemma_sum_of_negated(terms.drop_last());
        let (v, w) = terms.last();
        if let (Some(x), Some(a)) = (sum_of_terms(terms.drop_last()), v.assignment_spec()) {
            lemma_field_mul_neg(a, w);
            lemma_field_neg_add(x, field_mul(a, w));
        }
    }
}

/// Multiplying every weight by `s` multiplies the value of the terms by `s`.
pub proof fn lemma_sum_of_scaled<V: Variable>(terms: Seq<(V, nat)>, s: nat)
    ensures
        sum_of_terms(scaled_terms(terms, s)) == lifted_mul(sum_of_terms(terms), Some(s)),
    decreases terms.len(),
{
    let scaled = scaled_terms(terms, s);
    if terms.len() == 0 {
        lemma_field_add_zero(0);
    } else {
        assert(scaled.drop_last() =~= scaled_terms(terms.drop_last(), s));
        lemma_sum_of_scaled(terms.drop_last(), s);
        let (v, w) = terms.last();
        if let (Some(x), Some(a)) = (sum_of_terms(terms.drop_last()), v.assignment_spec()) {
            lemma_field_mul_associative(a, w, s);
            lemma_field_mul_distributes(x, field_mul(a, w), s);
        }
    }
}

/// The difference of two well-formed combinations is well formed.
pub proof fn lemma_difference_wf<V: Variable>(
    a: LinearCombinationView<V>,
    b: LinearCombinationView<V>,
)
    requires
        a.wf(),
        b.wf(),
    ensures
        a.difference(b).wf(),
{
    let negated = negated_terms(b.terms);
    lemma_sum_of_concat(a.terms, negated);
    lemma_sum_of_negated(b.terms);
    if let (Some(x), Some(y)) = (a.eval, b.eval) {
        lemma_field_sub_is_add_neg(x, y);
    }
    assert forall|i: int| 0 <= i < negated.len() implies (#[trigger] negated[i]).1
        < group_order() by {
        lemma_field_results_canonical(b.terms[i].1, 0);
    }
}

/// A well-formed combination multiplied by a scalar is well formed.
pub proof fn lemma_scaled_wf<V: Variable>(a: LinearCombinationView<V>, s: nat)
    requires
        a.wf(),
    ensures
        a.scaled(s).wf(),
{
    let scaled = scaled_terms(a.terms, s);
    lemma_sum_of_scaled(a.terms, s);
    assert forall|i: int| 0 <= i < scaled.len() implies (#[trigger] scaled[i]).1
        < group_order() by {
        lemma_field_results_canonical(a.terms[i].1, s);
    }
}

/// Hiding a well-formed combination gives a well-formed combination.
pub proof fn lemma_widened_wf<V: IntoOpaque>(
    a: LinearCombinationView<V>,
    opaque: LinearCombinationView<V::OpaqueType>,
)
    requires
        a.wf(),
        a.widens_to(opaque),
    ensures
        opaque.wf(),
{
    lemma_sum_of_widened(a.terms, opaque.terms);
    assert forall|i: int| 0 <= i < opaque.terms.len() implies (#[trigger] opaque.terms[i]).1
        < group_order() by {
        assert(a.terms[i].1 == opaque.terms[i].1);
    }
}

/// Hiding every variable of a list of terms does not change its value.
pub proof fn lemma_sum_of_widened<V: IntoOpaque>(
    terms: Seq<(V, nat)>,
    opaque: Seq<(V::OpaqueType, nat)>,
)
    requires
        opaque.len() == terms.len(),
        forall|i: int|
            0 <= i < terms.len() ==> {
                &&& (#[trigger] terms[i]).0.widens_to(opaque[i].0)
                &&& opaque[i].1 == terms[i].1
            },
    ensures
        sum_of_terms(opaque) == sum_of_terms(terms),
    decreases terms.len(),
{
    if terms.len() > 0 {
        lemma_sum_of_widened(terms.drop_last(), opaque.drop_last());
        terms.last().0.lemma_widening_keeps_assignment(opaque.last().0);
    }
}

} // verus!
