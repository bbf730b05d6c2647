use linear_combination::{
    Assignment, ClearScalar, IntoLC, IntoOpaque, LinearCombination, OpaqueScalar, ScalarValue,
    Variable, Wire,
};

type ClearWire = Wire<ClearScalar>;

fn scalar(x: u64) -> ClearScalar {
    ClearScalar::from_u64(x)
}

fn known(x: u64) -> Assignment<ClearScalar> {
    Assignment::Known(scalar(x))
}

fn wire(position: usize, value: Option<u64>) -> ClearWire {
    let assignment = match value {
        Some(x) => known(x),
        None => Assignment::Unknown,
    };
    Wire::At { position, assignment }
}

fn example(x: ClearWire, y: ClearWire) -> LinearCombination<ClearWire> {
    (x, scalar(2)).into_lc() + (y, scalar(3)) + scalar(7)
}

#[test]
fn without_a_witness_the_value_is_unknown() {
    let x = wire(0, None);
    let y = wire(1, None);
    assert_eq!(x.assignment(), Assignment::Unknown);
    assert_eq!(y.assignment(), Assignment::Unknown);
    let l = example(x, y);
    assert_eq!(l.terms().len(), 3);
    assert_eq!(l.eval(), Assignment::Unknown);
}

#[test]
fn with_a_witness_the_value_is_computed() {
    let x = wire(0, Some(3));
    let y = wire(1, Some(5));
    assert_eq!(x.assignment(), known(3));
    assert_eq!(y.assignment(), known(5));
    let l = example(x, y);
    assert_eq!(l.eval(), known(2 * 3 + 3 * 5 + 7));
    assert_eq!(l.eval(), known(28));
    assert_eq!(l.terms(), &vec![(x, scalar(2)), (y, scalar(3)), (Wire::One, scalar(7))]);
}

#[test]
fn hiding_keeps_terms_and_value() {
    let l = example(wire(0, Some(3)), wire(1, Some(5)));
    let opaque: LinearCombination<Wire<OpaqueScalar>> = l.into_opaque();
    assert_eq!(opaque.terms().len(), 3);
    assert!(matches!(opaque.eval(), Assignment::Known(_)));
    let positions: Vec<Option<usize>> = opaque
        .terms()
        .iter()
        .map(|(v, _)| match v {
            Wire::One => None,
            Wire::At { position, .. } => Some(*position),
        })
        .collect();
    assert_eq!(positions, vec![Some(0), Some(1), None]);
}

#[test]
fn hiding_keeps_unknown() {
    let l = example(wire(0, Some(3)), wire(1, None));
    let opaque = l.into_opaque();
    assert_eq!(opaque.terms().len(), 3);
    assert!(matches!(opaque.eval(), Assignment::Unknown));
}

#[test]
fn empty_combination_has_value_zero() {
    let empty: LinearCombination<ClearWire> = LinearCombination::default();
    assert_eq!(empty.terms().len(), 0);
    assert_eq!(empty.eval(), known(0));
}

#[test]
fn adding_the_empty_combination_changes_nothing() {
    let x = wire(0, Some(3));
    let y = wire(1, Some(5));
    let l = example(x, y) + LinearCombination::default();
    assert_eq!(l.eval(), known(28));
    assert_eq!(l.terms(), example(x, y).terms());
    let r = LinearCombination::default() + example(x, y);
    assert_eq!(r.eval(), known(28));
    assert_eq!(r.terms(), example(x, y).terms());
    let u = example(x, wire(1, None)) + LinearCombination::default();
    assert_eq!(u.eval(), Assignment::Unknown);
}

#[test]
fn a_combination_converts_to_itself() {
    let x = wire(0, Some(3));
    let y = wire(1, Some(5));
    let l = example(x, y).into_lc();
    assert_eq!(l.eval(), known(28));
    assert_eq!(l.terms(), example(x, y).terms());
}

#[test]
fn a_constant_becomes_a_term_on_the_constant_one_wire() {
    let l: LinearCombination<ClearWire> = scalar(7).into_lc();
    assert_eq!(l.terms(), &vec![(Wire::One, scalar(7))]);
    assert_eq!(l.eval(), known(7));
}

#[test]
fn an_opaque_constant_becomes_a_term_on_the_constant_one_wire() {
    let l: LinearCombination<Wire<OpaqueScalar>> = scalar(7).into_opaque().into_lc();
    assert_eq!(l.terms().len(), 1);
    assert!(matches!(l.terms()[0].0, Wire::One));
    assert!(matches!(l.eval(), Assignment::Known(_)));
}

#[test]
fn a_variable_becomes_a_term_of_weight_one() {
    let x = wire(4, Some(9));
    let l = x.into_lc();
    assert_eq!(l.terms(), &vec![(x, scalar(1))]);
    assert_eq!(l.eval(), known(9));
    let u = wire(4, None).into_lc();
    assert_eq!(u.terms(), &vec![(wire(4, None), scalar(1))]);
    assert_eq!(u.eval(), Assignment::Unknown);
}

#[test]
fn a_weighted_variable_becomes_one_term() {
    let x = wire(4, Some(9));
    let l = (x, scalar(5)).into_lc();
    assert_eq!(l.terms(), &vec![(x, scalar(5))]);
    assert_eq!(l.eval(), known(45));
    let u = (wire(4, None), scalar(0)).into_lc();
    assert_eq!(u.eval(), Assignment::Unknown);
}

#[test]
fn the_constant_one_wire_reports_one() {
    assert_eq!(ClearWire::constant_one(), Wire::One);
    assert_eq!(ClearWire::constant_one().assignment(), known(1));
    let l = (ClearWire::constant_one(), scalar(6)).into_lc() + ClearWire::constant_one();
    assert_eq!(l.eval(), known(7));
}

#[test]
fn addition_appends_terms_in_order() {
    let x = wire(0, Some(3));
    let y = wire(1, Some(5));
    let a = (x, scalar(2)).into_lc() + y;
    let b = (y, scalar(4)).into_lc() + scalar(1);
    let sum = a + b;
    assert_eq!(
        sum.terms(),
        &vec![(x, scalar(2)), (y, scalar(1)), (y, scalar(4)), (Wire::One, scalar(1))]
    );
    assert_eq!(sum.eval(), known(2 * 3 + 5 + 4 * 5 + 1));
}

#[test]
fn term_counts_add_up_without_merging() {
    let x = wire(0, Some(3));
    // three parts, then two parts, the same variable in all of them
    let a = x.into_lc() + (x, scalar(2)) + x;
    let b = (x, scalar(5)).into_lc() + x;
    assert_eq!(a.terms().len(), 3);
    assert_eq!(b.terms().len(), 2);
    let sum = a + b;
    assert_eq!(sum.terms().len(), 3 + 2);
    assert_eq!(sum.eval(), known(3 * (1 + 2 + 1 + 5 + 1)));
}

#[test]
fn subtraction_negates_the_appended_weights() {
    let x = wire(0, Some(10));
    let y = wire(1, Some(4));
    let l = (x, scalar(3)).into_lc() - (y, scalar(2)) - scalar(5);
    assert_eq!(
        l.terms(),
        &vec![(x, scalar(3)), (y, scalar(2).neg()), (Wire::One, scalar(5).neg())]
    );
    assert_eq!(l.eval(), known(3 * 10 - 2 * 4 - 5));
}

#[test]
fn subtraction_below_zero_wraps_in_the_field() {
    let x = wire(0, Some(1));
    let l = x.into_lc() - scalar(3);
    assert_eq!(l.eval(), Assignment::Known(scalar(2).neg()));
}

#[test]
fn subtracting_a_combination_from_itself_gives_zero() {
    let x = wire(0, Some(3));
    let y = wire(1, Some(5));
    let l = example(x, y) - example(x, y);
    assert_eq!(l.terms().len(), 6);
    assert_eq!(l.eval(), known(0));
}

#[test]
fn multiplication_scales_every_weight_and_the_value() {
    let x = wire(0, Some(3));
    let y = wire(1, Some(5));
    let l = example(x, y) * scalar(10);
    assert_eq!(l.terms(), &vec![(x, scalar(20)), (y, scalar(30)), (Wire::One, scalar(70))]);
    assert_eq!(l.eval(), known(280));
}

#[test]
fn multiplication_of_the_empty_combination() {
    let l = LinearCombination::<ClearWire>::default() * scalar(10);
    assert_eq!(l.terms().len(), 0);
    assert_eq!(l.eval(), known(0));
}

#[test]
fn scaling_is_linear() {
    let x = wire(0, Some(3));
    let y = wire(1, Some(5));
    let s = scalar(11);
    let left = (x.into_lc() + y) * s;
    let right = (x, s).into_lc().eval() + (y, s).into_lc().eval();
    assert_eq!(left.eval(), right);
    assert_eq!(left.eval(), known((3 + 5) * 11));
    assert_eq!(left.terms(), ((x, s).into_lc() + (y, s)).terms());
}

#[test]
fn scaling_is_linear_for_constants() {
    let s = scalar(11);
    let four: LinearCombination<ClearWire> = scalar(4).into_lc();
    let six: LinearCombination<ClearWire> = scalar(6).into_lc();
    let scaled_four = (four * s).eval();
    let scaled_six = (six * s).eval();
    let sum: LinearCombination<ClearWire> = scalar(4).into_lc() + scalar(6);
    let scaled_sum = sum * s;
    assert_eq!(scaled_sum.eval(), scaled_four + scaled_six);
    assert_eq!(scaled_sum.eval(), known(110));
    assert_eq!(scaled_sum.terms(), &vec![(Wire::One, scalar(44)), (Wire::One, scalar(66))]);
}

#[test]
fn scaling_a_variable_gives_the_weighted_variable() {
    let x = wire(0, Some(3));
    let scaled = x.into_lc() * scalar(11);
    let weighted = (x, scalar(11)).into_lc();
    assert_eq!(scaled.terms(), weighted.terms());
    assert_eq!(scaled.eval(), weighted.eval());
    assert_eq!(scaled.eval(), known(33));
}

#[test]
fn scaling_is_linear_with_an_unknown() {
    let x = wire(0, Some(3));
    let y = wire(1, None);
    let s = scalar(11);
    let left = (x.into_lc() + y) * s;
    let right = (x, s).into_lc().eval() + (y, s).into_lc().eval();
    assert_eq!(left.eval(), Assignment::Unknown);
    assert_eq!(right, Assignment::Unknown);
}

#[test]
fn one_unknown_term_makes_the_value_unknown() {
    let x = wire(0, Some(3));
    let u = wire(1, None);
    let l = x.into_lc() + scalar(4) + (u, scalar(0));
    assert_eq!(l.eval(), Assignment::Unknown);
    let later = (l + x - scalar(1)) * scalar(0);
    assert_eq!(later.eval(), Assignment::Unknown);
    assert_eq!(later.terms().len(), 5);
    let cancelled = u.into_lc() - u;
    assert_eq!(cancelled.eval(), Assignment::Unknown);
    let inside = example(x, x) + (example(x, u) - scalar(2));
    assert_eq!(inside.eval(), Assignment::Unknown);
    assert!(matches!(inside.into_opaque().eval(), Assignment::Unknown));
}

#[test]
fn the_value_is_a_snapshot_of_the_terms() {
    let x = wire(0, Some(3));
    let y = wire(1, Some(5));
    let l = (example(x, y) - (y, scalar(2))) * scalar(3) + x;
    let mut recomputed = known(0);
    for (v, w) in l.terms().iter() {
        recomputed = recomputed + v.assignment() * Assignment::Known(*w);
    }
    assert_eq!(l.eval(), recomputed);
    assert_eq!(l.eval(), known((2 * 3 + 3 * 5 + 7 - 2 * 5) * 3 + 3));
}

#[test]
fn hiding_a_wire_keeps_its_position() {
    let x = wire(17, Some(3));
    match x.into_opaque() {
        Wire::At { position, assignment } => {
            assert_eq!(position, 17);
            assert!(matches!(assignment, Assignment::Known(_)));
        }
        Wire::One => panic!("a positioned wire became the constant-one wire"),
    }
    assert!(matches!(wire(17, None).into_opaque().assignment(), Assignment::Unknown));
    assert!(matches!(ClearWire::One.into_opaque(), Wire::One));
    assert!(matches!(ClearWire::One.into_opaque().assignment(), Assignment::Known(_)));
}

#[test]
fn opaque_combinations_take_opaque_weights() {
    let x = wire(0, Some(3)).into_opaque();
    let w = scalar(2).into_opaque();
    let l = (x, w).into_lc() + x + scalar(7).into_opaque();
    let l = (l - (x, w)) * w;
    assert_eq!(l.terms().len(), 4);
    assert!(matches!(l.eval(), Assignment::Known(_)));
    let hidden_again = l.into_opaque();
    assert_eq!(hidden_again.terms().len(), 4);
    assert!(matches!(hidden_again.eval(), Assignment::Known(_)));
}
