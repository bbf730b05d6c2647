use curve25519_dalek::scalar::Scalar;
use linear_combination::{ClearScalar, ScalarValue};

const ORDER: [u8; 32] = [
    0xed, 0xd3, 0xf5, 0x5c, 0x1a, 0x63, 0x12, 0x58, 0xd6, 0x9c, 0xf7, 0xa2, 0xde, 0xf9, 0xde, 0x14,
    0x00, 0x00, 0x00, 0x00, 0x00, 0x00, 0x00, 0x00, 0x00, 0x00, 0x00, 0x00, 0x00, 0x00, 0x00, 0x10,
];

fn order_plus(delta: i16) -> [u8; 32] {
    let mut bytes = ORDER;
    bytes[0] = (bytes[0] as i16 + delta) as u8;
    bytes
}

fn small(x: u8) -> [u8; 32] {
    let mut bytes = [0u8; 32];
    bytes[0] = x;
    bytes
}

#[test]
fn from_u64_is_little_endian() {
    let s = ClearScalar::from_u64(0x0102_0304_0506_0708);
    let mut expected = [0u8; 32];
    expected[..8].copy_from_slice(&[0x08, 0x07, 0x06, 0x05, 0x04, 0x03, 0x02, 0x01]);
    assert_eq!(s.to_bytes(), expected);
}

#[test]
fn from_u64_takes_the_largest_integer() {
    let s = ClearScalar::from_u64(u64::MAX);
    let mut expected = [0u8; 32];
    expected[..8].copy_from_slice(&[0xff; 8]);
    assert_eq!(s.to_bytes(), expected);
}

#[test]
fn zero_and_one_are_the_identities() {
    assert_eq!(ClearScalar::zero().to_bytes(), [0u8; 32]);
    assert_eq!(ClearScalar::one().to_bytes(), small(1));
    let x = ClearScalar::from_u64(1234);
    assert_eq!(x.add(ClearScalar::zero()), x);
    assert_eq!(x.mul(ClearScalar::one()), x);
    assert_eq!(x.mul(ClearScalar::zero()), ClearScalar::zero());
}

#[test]
fn addition_of_small_values() {
    let sum = ClearScalar::from_u64(3).add(ClearScalar::from_u64(5));
    assert_eq!(sum, ClearScalar::from_u64(8));
    assert_eq!(sum.to_bytes(), small(8));
}

#[test]
fn addition_wraps_at_the_group_order() {
    let top = ClearScalar::from_bytes_mod_order(order_plus(-1));
    assert_eq!(top.to_bytes(), order_plus(-1));
    assert_eq!(top.add(ClearScalar::one()), ClearScalar::zero());
    assert_eq!(top.add(ClearScalar::from_u64(3)), ClearScalar::from_u64(2));
}

#[test]
fn subtraction_of_small_values() {
    let difference = ClearScalar::from_u64(12).sub(ClearScalar::from_u64(5));
    assert_eq!(difference, ClearScalar::from_u64(7));
}

#[test]
fn subtraction_wraps_below_zero() {
    let difference = ClearScalar::from_u64(3).sub(ClearScalar::from_u64(5));
    assert_eq!(difference.to_bytes(), order_plus(-2));
}

#[test]
fn multiplication_of_small_values() {
    let product = ClearScalar::from_u64(6).mul(ClearScalar::from_u64(7));
    assert_eq!(product, ClearScalar::from_u64(42));
}

#[test]
fn multiplication_reduces() {
    // (l - 1) * (l - 1) = 1 modulo l
    let top = ClearScalar::from_bytes_mod_order(order_plus(-1));
    assert_eq!(top.mul(top), ClearScalar::one());
    // (l - 1) * 2 = l - 2 modulo l
    assert_eq!(top.mul(ClearScalar::from_u64(2)).to_bytes(), order_plus(-2));
}

#[test]
fn negation_gives_the_additive_inverse() {
    assert_eq!(ClearScalar::one().neg().to_bytes(), order_plus(-1));
    assert_eq!(ClearScalar::from_u64(2).neg().to_bytes(), order_plus(-2));
    assert_eq!(ClearScalar::zero().neg(), ClearScalar::zero());
    let x = ClearScalar::from_u64(77);
    assert_eq!(x.add(x.neg()), ClearScalar::zero());
    assert_eq!(x.neg().neg(), x);
}

#[test]
fn bytes_are_reduced_modulo_the_group_order() {
    assert_eq!(ClearScalar::from_bytes_mod_order(ORDER), ClearScalar::zero());
    assert_eq!(ClearScalar::from_bytes_mod_order(order_plus(2)), ClearScalar::from_u64(2));
    assert_eq!(ClearScalar::from_bytes_mod_order(small(9)), ClearScalar::from_u64(9));
    let all_ones = ClearScalar::from_bytes_mod_order([0xff; 32]);
    let expected: [u8; 32] = [
        0x1c, 0x95, 0x98, 0x8d, 0x74, 0x31, 0xec, 0xd6, 0x70, 0xcf, 0x7d, 0x73, 0xf4, 0x5b, 0xef,
        0xc6, 0xfe, 0xff, 0xff, 0xff, 0xff, 0xff, 0xff, 0xff, 0xff, 0xff, 0xff, 0xff, 0xff, 0xff,
        0xff, 0x0f,
    ];
    assert_eq!(all_ones.to_bytes(), expected);
}

#[test]
fn arithmetic_agrees_with_dalek() {
    let a_bytes = order_plus(-5);
    let b = 0xdead_beef_u64;
    let a = ClearScalar::from_bytes_mod_order(a_bytes);
    let da = Scalar::from_bytes_mod_order(a_bytes);
    let db = Scalar::from(b);
    assert_eq!(a.add(ClearScalar::from_u64(b)).to_bytes(), (da + db).to_bytes());
    assert_eq!(a.sub(ClearScalar::from_u64(b)).to_bytes(), (da - db).to_bytes());
    assert_eq!(a.mul(ClearScalar::from_u64(b)).to_bytes(), (da * db).to_bytes());
    assert_eq!(a.neg().to_bytes(), (-da).to_bytes());
}

#[test]
fn multiplication_distributes_over_addition() {
    let x = ClearScalar::from_bytes_mod_order(order_plus(-3));
    let y = ClearScalar::from_u64(11);
    let s = ClearScalar::from_bytes_mod_order([0x5a; 32]);
    assert_eq!(x.add(y).mul(s), x.mul(s).add(y.mul(s)));
}
