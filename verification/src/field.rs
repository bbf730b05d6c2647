//! The scalar field: integers modulo the prime order of the Ristretto group.
//!
//! A field element travels as 32 little-endian bytes. The arithmetic itself is
//! done by `curve25519_dalek`; this module says what each operation returns,
//! as a function on natural numbers, and proves the algebra that the rest of
//! the crate builds on.
//!
//! The six functions at the end of the module make the calls. Their contracts
//! are what `curve25519_dalek` documents of its scalars and are not proved
//! here; everything else in the crate is proved from them.

use curve25519_dalek::scalar::Scalar;
use vstd::arithmetic::div_mod::*;
use vstd::arithmetic::mul::*;
use vstd::prelude::*;

verus! {

/// The prime order of the group: 2^252 + 27742317777372353535851937790883648493.
pub open spec fn group_order() -> nat {
    0x1000_0000_0000_0000_0000_0000_0000_0000_14de_f9de_a2f7_9cd6_5812_631a_5cf5_d3ed_nat
}

/// The integer that a sequence of bytes encodes, least significant byte first.
pub open spec fn le_value(bytes: Seq<u8>) -> nat
    decreases bytes.len(),
{
    if bytes.len() == 0 {
        0
    } else {
        bytes[0] as nat + 256 * le_value(bytes.skip(1))
    }
}

/// Sum of two field elements.
pub open spec fn field_add(a: nat, b: nat) -> nat {
    (a + b) % group_order()
}

/// Difference of two field elements.
pub open spec fn field_sub(a: nat, b: nat) -> nat {
    ((a - b) % (group_order() as int)) as nat
}

/// Product of two field elements.
pub open spec fn field_mul(a: nat, b: nat) -> nat {
    (a * b) % group_order()
}

/// Additive inverse of a field element.
pub open spec fn field_neg(a: nat) -> nat {
    ((0 - a) % (group_order() as int)) as nat
}

/// Every result of the field operations is a canonical representative.
pub proof fn lemma_field_results_canonical(a: nat, b: nat)
    ensures
        field_add(a, b) < group_order(),
        field_sub(a, b) < group_order(),
        field_mul(a, b) < group_order(),
        field_neg(a) < group_order(),
{
    let m = group_order() as int;
    let x = a as int;
    let y = b as int;
    lemma_mod_bound(x + y, m);
    lemma_mod_bound(x - y, m);
    lemma_mod_bound(x * y, m);
    lemma_mod_bound(0 - x, m);
}

/// Zero is the neutral element of addition on canonical representatives.
pub proof fn lemma_field_add_zero(a: nat)
    requires
        a < group_order(),
    ensures
        field_add(a, 0) == a,
        field_add(0, a) == a,
{
    lemma_small_mod(a, group_order());
}

/// One is the neutral element of multiplication on canonical representatives.
pub proof fn lemma_field_mul_one(a: nat)
    requires
        a < group_order(),
    ensures
        field_mul(a, 1) == a,
        field_mul(1, a) == a,
{
    lemma_small_mod(a, group_order());
}

/// Addition in the field is associative.
pub proof fn lemma_field_add_associative(a: nat, b: nat, c: nat)
    ensures
        field_add(field_add(a, b), c) == field_add(a, field_add(b, c)),
{
    let m = group_order() as int;
    let x = a as int;
    let y = b as int;
    let z = c as int;
    lemma_add_mod_noop_right(z, x + y, m);
    lemma_add_mod_noop_right(x, y + z, m);
}

/// Multiplication in the field is associative.
pub proof fn lemma_field_mul_associative(a: nat, b: nat, c: nat)
    ensures
        field_mul(field_mul(a, b), c) == field_mul(a, field_mul(b, c)),
{
    let m = group_order() as int;
    let x = a as int;
    let y = b as int;
    let z = c as int;
    lemma_mul_mod_noop_left(x * y, z, m);
    lemma_mul_mod_noop_right(x, y * z, m);
    lemma_mul_is_associative(x, y, z);
}

/// Multiplication distributes over addition.
pub proof fn lemma_field_mul_distributes(a: nat, b: nat, s: nat)
    ensures
        field_mul(field_add(a, b), s) == field_add(field_mul(a, s), field_mul(b, s)),
{
    let m = group_order() as int;
    let x = a as int;
    let y = b as int;
    let z = s as int;
    lemma_mul_mod_noop_left(x + y, z, m);
    lemma_mul_is_distributive_add_other_way(z, x, y);
    lemma_add_mod_noop(x * z, y * z, m);
}

/// Subtracting is adding the additive inverse.
pub proof fn lemma_field_sub_is_add_neg(a: nat, b: nat)
    ensures
        field_sub(a, b) == field_add(a, field_neg(b)),
{
    let m = group_order() as int;
    let x = a as int;
    let y = b as int;
    lemma_mod_bound(0 - y, m);
    lemma_add_mod_noop_right(x, 0 - y, m);
}

/// The additive inverse of a sum is the sum of the additive inverses.
pub proof fn lemma_field_neg_add(a: nat, b: nat)
    ensures
        field_neg(field_add(a, b)) == field_add(field_neg(a), field_neg(b)),
{
    let m = group_order() as int;
    let x = a as int;
    let y = b as int;
    lemma_mod_bound(0 - x, m);
    lemma_mod_bound(0 - y, m);
    lemma_sub_mod_noop_right(0, x + y, m);
    lemma_add_mod_noop(0 - x, 0 - y, m);
}

/// Multiplying by an additive inverse gives the additive inverse of the product.
pub proof fn lemma_field_mul_neg(a: nat, b: nat)
    ensures
        field_mul(a, field_neg(b)) == field_neg(field_mul(a, b)),
{
    let m = group_order() as int;
    let x = a as int;
    let y = b as int;
    lemma_mod_bound(0 - y, m);
    lemma_mul_mod_noop_right(x, 0 - y, m);
    lemma_sub_mod_noop_right(0, x * y, m);
    assert(x * (0 - y) == 0 - x * y) by (nonlinear_arith);
}

/// Calls `Scalar::from_bytes_mod_order` and returns `to_bytes()` of the scalar
/// it made. The claim: the result encodes the argument's integer reduced
/// modulo the group order.
#[verifier::external_body]
pub(crate) fn reduce_bytes(bytes: &[u8; 32]) -> (r: [u8; 32])
    ensures
        le_value(r@) == le_value(bytes@) % group_order(),
{
    Scalar::from_bytes_mod_order(*bytes).to_bytes()
}

/// Calls `Scalar::from` on a `u64` and returns `to_bytes()` of the scalar it
/// made. The claim: the result encodes that integer.
#[verifier::external_body]
pub(crate) fn u64_bytes(x: u64) -> (r: [u8; 32])
    ensures
        le_value(r@) == x,
{
    Scalar::from(x).to_bytes()
}

/// Reduces both arguments with `Scalar::from_bytes_mod_order`, adds the two
/// scalars with dalek's `+`, and returns `to_bytes()` of the sum. The claim:
/// the result encodes the sum of the two encoded integers modulo the group
/// order.
#[verifier::external_body]
pub(crate) fn add_bytes(a: &[u8; 32], b: &[u8; 32]) -> (r: [u8; 32])
    ensures
        le_value(r@) == field_add(le_value(a@), le_value(b@)),
{
    (Scalar::from_bytes_mod_order(*a) + Scalar::from_bytes_mod_order(*b)).to_bytes()
}

/// Reduces both arguments with `Scalar::from_bytes_mod_order`, subtracts the
/// second scalar from the first with dalek's `-`, and returns `to_bytes()` of
/// the difference. The claim: the result encodes the difference of the two
/// encoded integers modulo the group order.
#[verifier::external_body]
pub(crate) fn sub_bytes(a: &[u8; 32], b: &[u8; 32]) -> (r: [u8; 32])
    ensures
        le_value(r@) == field_sub(le_value(a@), le_value(b@)),
{
    (Scalar::from_bytes_mod_order(*a) - Scalar::from_bytes_mod_order(*b)).to_bytes()
}

/// Reduces both arguments with `Scalar::from_bytes_mod_order`, multiplies the
/// two scalars with dalek's `*`, and returns `to_bytes()` of the product. The
/// claim: the result encodes the product of the two encoded integers modulo
/// the group order.
#[verifier::external_body]
pub(crate) fn mul_bytes(a: &[u8; 32], b: &[u8; 32]) -> (r: [u8; 32])
    ensures
        le_value(r@) == field_mul(le_value(a@), le_value(b@)),
{
    (Scalar::from_bytes_mod_order(*a) * Scalar::from_bytes_mod_order(*b)).to_bytes()
}

/// Reduces the argument with `Scalar::from_bytes_mod_order`, negates the
/// scalar with dalek's unary `-`, and returns `to_bytes()` of the result. The
/// claim: the result encodes the additive inverse, modulo the group order, of
/// the encoded integer.
#[verifier::external_body]
pub(crate) fn neg_bytes(a: &[u8; 32]) -> (r: [u8; 32])
    ensures
        le_value(r@) == field_neg(le_value(a@)),
{
    (-Scalar::from_bytes_mod_order(*a)).to_bytes()
}

} // verus!
