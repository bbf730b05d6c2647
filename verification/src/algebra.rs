//! What holds of every linear combination, whatever it was built from.
//!
//! The statements are over the mathematical content of the combinations, in
//! the terms in which the operations themselves are specified.

use crate::assignment::lifted_add;
use crate::field::{
    field_mul, group_order, lemma_field_add_zero, lemma_field_mul_distributes,
    lemma_field_mul_one,
};
use crate::linear_combination::{IntoOpaque, Variable};
use crate::model::{lemma_sum_of_terms_canonical, sum_of_terms, term_value, LinearCombinationView};
use vstd::prelude::*;

verus! {

/// The combination built by adding `parts`, one after the other, to the empty
/// combination.
pub open spec fn sum_of_all<V: Variable>(
    parts: Seq<LinearCombinationView<V>>,
) -> LinearCombinationView<V>
    decreases parts.len(),
{
    if parts.len() == 0 {
        LinearCombinationView::empty()
    } else {
        sum_of_all(parts.drop_last()).sum(parts.last())
    }
}

/// The empty combination is neutral: added to a combination, on either side,
/// it leaves terms and value as they are. Its own value is zero.
pub proof fn lemma_empty_is_neutral<V: Variable>(a: LinearCombinationView<V>)
    requires
        a.wf(),
    ensures
        a.sum(LinearCombinationView::empty()) == a,
        LinearCombinationView::empty().sum(a) == a,
        LinearCombinationView::<V>::empty().eval == Some(0nat),
{
    lemma_sum_of_terms_canonical(a.terms);
    if let Some(x) = a.eval {
        lemma_field_add_zero(x);
    }
}

/// Scaling is linear: scaling a sum is the same as summing the scaled parts,
/// term by term and in value. The value is unknown as soon as one part's is.
pub proof fn lemma_scaling_distributes_over_sum<V: Variable>(
    x: LinearCombinationView<V>,
    y: LinearCombinationView<V>,
    s: nat,
)
    ensures
        x.sum(y).scaled(s) == x.scaled(s).sum(y.scaled(s)),
        x.sum(y).scaled(s).eval == lifted_add(x.scaled(s).eval, y.scaled(s).eval),
        x.eval is None || y.eval is None ==> x.sum(y).scaled(s).eval is None,
{
    if let (Some(a), Some(b)) = (x.eval, y.eval) {
        lemma_field_mul_distributes(a, b, s);
    }
    assert(x.sum(y).scaled(s).terms =~= x.scaled(s).sum(y.scaled(s)).terms);
}

/// Scaling the combination of a variable gives the combination of that
/// variable weighted by the scalar, and scaling a constant's combination
/// gives that of the product.
pub proof fn lemma_scaling_a_single_term<V: Variable>(v: V, c: nat, s: nat)
    requires
        s < group_order(),
    ensures
        LinearCombinationView::variable(v).scaled(s) == LinearCombinationView::term(v, s),
        LinearCombinationView::<V>::constant(c).scaled(s) == LinearCombinationView::<V>::constant(
            field_mul(c, s),
        ),
{
    lemma_field_mul_one(s);
    assert(LinearCombinationView::variable(v).scaled(s).terms =~= seq![(v, s)]);
    assert(LinearCombinationView::<V>::constant(c).scaled(s).terms =~= seq![
        (V::constant_one_spec(), field_mul(c, s)),
    ]);
}

/// Terms are never merged: a sum has the terms of its first part, then those
/// of its second, each as it was.
pub proof fn lemma_sum_keeps_every_term<V: Variable>(
    a: LinearCombinationView<V>,
    b: LinearCombinationView<V>,
)
    ensures
        a.sum(b).terms.len() == a.terms.len() + b.terms.len(),
        forall|i: int| 0 <= i < a.terms.len() ==> a.sum(b).terms[i] == a.terms[i],
        forall|i: int| 0 <= i < b.terms.len() ==> a.sum(b).terms[a.terms.len() + i] == b.terms[i],
{
}

/// A combination built from single-term parts has as many terms as parts.
pub proof fn lemma_term_count_of_parts<V: Variable>(parts: Seq<LinearCombinationView<V>>)
    requires
        forall|i: int| 0 <= i < parts.len() ==> (#[trigger] parts[i]).terms.len() == 1,
    ensures
        sum_of_all(parts).terms.len() == parts.len(),
    decreases parts.len(),
{
    if parts.len() > 0 {
        lemma_term_count_of_parts(parts.drop_last());
    }
}

/// Term counts add up: with `a` built from `j` single-term parts and `b` from
/// `k`, their sum has `j + k` terms, also where a variable occurs in both.
pub proof fn lemma_term_count_is_additive<V: Variable>(
    a_parts: Seq<LinearCombinationView<V>>,
    b_parts: Seq<LinearCombinationView<V>>,
)
    requires
        forall|i: int| 0 <= i < a_parts.len() ==> (#[trigger] a_parts[i]).terms.len() == 1,
        forall|i: int| 0 <= i < b_parts.len() ==> (#[trigger] b_parts[i]).terms.len() == 1,
    ensures
        sum_of_all(a_parts).sum(sum_of_all(b_parts)).terms.len() == a_parts.len() + b_parts.len(),
{
    lemma_term_count_of_parts(a_parts);
    lemma_term_count_of_parts(b_parts);
}

/// One unknown variable makes the value of a list of terms unknown.
pub proof fn lemma_unknown_term_absorbs<V: Variable>(terms: Seq<(V, nat)>, i: int)
    requires
        0 <= i < terms.len(),
        terms[i].0.assignment_spec() is None,
    ensures
        sum_of_terms(terms) is None,
    decreases terms.len(),
{
    if i < terms.len() - 1 {
        lemma_unknown_term_absorbs(terms.drop_last(), i);
    }
}

/// Unknown absorbs: a well-formed combination with a term whose variable has
/// no value has no value, whatever the other terms are.
pub proof fn lemma_unknown_absorbs<V: Variable>(a: LinearCombinationView<V>, i: int)
    requires
        a.wf(),
        0 <= i < a.terms.len(),
        a.terms[i].0.assignment_spec() is None,
    ensures
        a.eval is None,
{
    lemma_unknown_term_absorbs(a.terms, i);
}

/// Unknown persists: every operation on a combination without a value gives
/// a combination without a value.
pub proof fn lemma_unknown_persists<V: Variable>(
    a: LinearCombinationView<V>,
    b: LinearCombinationView<V>,
    s: nat,
)
    requires
        a.eval is None,
    ensures
        a.sum(b).eval is None,
        b.sum(a).eval is None,
        a.difference(b).eval is None,
        b.difference(a).eval is None,
        a.scaled(s).eval is None,
{
}

/// Hiding keeps the structure: as many terms as before, and the same value.
pub proof fn lemma_widening_keeps_structure<V: IntoOpaque>(
    a: LinearCombinationView<V>,
    opaque: LinearCombinationView<V::OpaqueType>,
)
    requires
        a.widens_to(opaque),
    ensures
        opaque.terms.len() == a.terms.len(),
        opaque.eval == a.eval,
        a.eval is None <==> opaque.eval is None,
{
}

/// Hiding a constant's combination gives the same constant's combination of
/// the opaque kind.
pub proof fn lemma_widening_a_constant<V: IntoOpaque>(
    c: nat,
    opaque: LinearCombinationView<V::OpaqueType>,
)
    requires
        LinearCombinationView::<V>::constant(c).widens_to(opaque),
    ensures
        opaque == LinearCombinationView::<V::OpaqueType>::constant(c),
{
    let clear = LinearCombinationView::<V>::constant(c);
    assert(clear.terms[0].0.widens_to(opaque.terms[0].0));
    V::lemma_widening_keeps_constant_one(opaque.terms[0].0);
    assert(opaque.terms =~= LinearCombinationView::<V::OpaqueType>::constant(c).terms);
}

} // verus!
