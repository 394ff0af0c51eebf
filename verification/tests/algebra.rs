use curve25519_dalek::constants::{RISTRETTO_BASEPOINT_COMPRESSED, RISTRETTO_BASEPOINT_POINT};
use curve25519_dalek::ristretto::{CompressedRistretto, RistrettoPoint as DalekPoint};
use curve25519_dalek::scalar::Scalar;
use sha3::Sha3_512;
use spl_c_tokens_prototype::ristretto::{BorshRistretto, RistrettoPoint};
use spl_c_tokens_prototype::scalar::BorshScalar;

/// The group order, least significant byte first.
const ORDER: [u8; 32] = [
    0xed, 0xd3, 0xf5, 0x5c, 0x1a, 0x63, 0x12, 0x58, 0xd6, 0x9c, 0xf7, 0xa2, 0xde, 0xf9, 0xde, 0x14,
    0x00, 0x00, 0x00, 0x00, 0x00, 0x00, 0x00, 0x00, 0x00, 0x00, 0x00, 0x00, 0x00, 0x00, 0x00, 0x10,
];

fn scalar(s: &Scalar) -> BorshScalar {
    BorshScalar::from_canonical_bytes(s.to_bytes()).unwrap()
}

fn point(p: &DalekPoint) -> RistrettoPoint {
    BorshRistretto::new(p.compress().to_bytes()).decompress().unwrap()
}

fn small(n: u8) -> [u8; 32] {
    let mut bytes = [0u8; 32];
    bytes[0] = n;
    bytes
}

#[test]
fn scalar_from_u64_is_little_endian() {
    let s = BorshScalar::from_u64(57);
    assert_eq!(s.to_bytes(), small(57));
    let big = BorshScalar::from_u64(0x0102_0304_0506_0708);
    let mut expect = [0u8; 32];
    expect[..8].copy_from_slice(&[8, 7, 6, 5, 4, 3, 2, 1]);
    assert_eq!(big.to_bytes(), expect);
    assert_eq!(BorshScalar::from_canonical_bytes(small(57)), Some(s));
}

#[test]
fn scalar_zero_and_one() {
    assert_eq!(BorshScalar::zero().to_bytes(), [0u8; 32]);
    assert_eq!(BorshScalar::one().to_bytes(), small(1));
}

#[test]
fn scalar_decoding_refuses_the_order_and_above() {
    assert_eq!(BorshScalar::from_canonical_bytes(ORDER), None);
    let mut below = ORDER;
    below[0] -= 1;
    assert!(BorshScalar::from_canonical_bytes(below).is_some());
    let mut above = ORDER;
    above[0] += 2;
    assert_eq!(BorshScalar::from_canonical_bytes(above), None);
    assert_eq!(BorshScalar::from_canonical_bytes([0xff; 32]), None);
}

#[test]
fn scalar_new_reduces_modulo_the_order() {
    let mut above = ORDER;
    above[0] += 2;
    assert_eq!(BorshScalar::new(above).to_bytes(), small(2));
    assert_eq!(BorshScalar::new(ORDER).to_bytes(), [0u8; 32]);
    assert_eq!(BorshScalar::new(small(9)).to_bytes(), small(9));
}

#[test]
fn scalar_arithmetic_on_small_numbers() {
    let six = BorshScalar::from_u64(6);
    let seven = BorshScalar::from_u64(7);
    assert_eq!(six.add(&seven).to_bytes(), small(13));
    assert_eq!(six.mul(&seven).to_bytes(), small(42));
    assert_eq!(seven.sub(&six).to_bytes(), small(1));
    assert!(six.mul(&seven).equals(&BorshScalar::from_u64(42)));
    assert!(!six.equals(&seven));
}

#[test]
fn scalar_subtraction_wraps_around_the_order() {
    let minus_one = BorshScalar::zero().sub(&BorshScalar::one());
    let mut expect = ORDER;
    expect[0] -= 1;
    assert_eq!(minus_one.to_bytes(), expect);
    assert_eq!(minus_one.add(&BorshScalar::one()).to_bytes(), [0u8; 32]);
    assert_eq!(minus_one.mul(&minus_one).to_bytes(), small(1));
}

#[test]
fn scalar_arithmetic_agrees_with_dalek() {
    let a = Scalar::hash_from_bytes::<Sha3_512>(b"first");
    let b = Scalar::hash_from_bytes::<Sha3_512>(b"second");
    assert_eq!(scalar(&a).add(&scalar(&b)).to_bytes(), (a + b).to_bytes());
    assert_eq!(scalar(&a).sub(&scalar(&b)).to_bytes(), (a - b).to_bytes());
    assert_eq!(scalar(&a).mul(&scalar(&b)).to_bytes(), (a * b).to_bytes());
}

#[test]
fn scalar_hash_agrees_with_dalek() {
    let expect = Scalar::hash_from_bytes::<Sha3_512>(b"confidential");
    assert_eq!(BorshScalar::hash_from_bytes(b"confidential").to_bytes(), expect.to_bytes());
    assert_ne!(
        BorshScalar::hash_from_bytes(b"confidential").to_bytes(),
        BorshScalar::hash_from_bytes(b"confidentiam").to_bytes()
    );
    assert_ne!(BorshScalar::hash_from_bytes(b"").to_bytes(), [0u8; 32]);
}

#[test]
fn random_scalars_are_canonical_and_differ() {
    let a = BorshScalar::random();
    let b = BorshScalar::random();
    assert!(Scalar::from_canonical_bytes(a.to_bytes()).is_some());
    assert!(Scalar::from_canonical_bytes(b.to_bytes()).is_some());
    assert_ne!(a.to_bytes(), b.to_bytes());
}

#[test]
fn identity_is_all_zero() {
    assert_eq!(RistrettoPoint::identity().compress().to_bytes(), [0u8; 32]);
    assert_eq!(BorshRistretto::identity().to_bytes(), [0u8; 32]);
    assert!(BorshRistretto::identity().decompress().is_some());
}

#[test]
fn basepoint_has_its_known_encoding() {
    let expect = [
        0xe2, 0xf2, 0xae, 0x0a, 0x6a, 0xbc, 0x4e, 0x71, 0xa8, 0x84, 0xa9, 0x61, 0xc5, 0x00, 0x51,
        0x5f, 0x58, 0xe3, 0x0b, 0x6a, 0xa5, 0x82, 0xdd, 0x8d, 0xb6, 0xa6, 0x59, 0x45, 0xe0, 0x8d,
        0x2d, 0x76,
    ];
    assert_eq!(RistrettoPoint::basepoint().compress().to_bytes(), expect);
    assert_eq!(RISTRETTO_BASEPOINT_COMPRESSED.to_bytes(), expect);
}

#[test]
fn decompress_refuses_what_is_no_encoding() {
    assert!(BorshRistretto::new([0xff; 32]).decompress().is_none());
    assert!(BorshRistretto::new(small(1)).decompress().is_none());
    let valid = RISTRETTO_BASEPOINT_COMPRESSED.to_bytes();
    let p = BorshRistretto::new(valid).decompress().unwrap();
    assert_eq!(p.compress().to_bytes(), valid);
    assert_eq!(
        CompressedRistretto(valid).decompress().is_some(),
        BorshRistretto::new(valid).decompress().is_some()
    );
}

#[test]
fn point_arithmetic_agrees_with_dalek() {
    let p = DalekPoint::hash_from_bytes::<Sha3_512>(b"p");
    let q = DalekPoint::hash_from_bytes::<Sha3_512>(b"q");
    let s = Scalar::hash_from_bytes::<Sha3_512>(b"s");
    assert_eq!(point(&p).add(&point(&q)).compress().to_bytes(), (p + q).compress().to_bytes());
    assert_eq!(point(&p).sub(&point(&q)).compress().to_bytes(), (p - q).compress().to_bytes());
    assert_eq!(point(&p).neg().compress().to_bytes(), (-p).compress().to_bytes());
    assert_eq!(point(&p).mul(&scalar(&s)).compress().to_bytes(), (s * p).compress().to_bytes());
    assert_eq!(
        RistrettoPoint::mul_base(&scalar(&s)).compress().to_bytes(),
        (s * RISTRETTO_BASEPOINT_POINT).compress().to_bytes()
    );
    assert_ne!(point(&p).add(&point(&q)).compress().to_bytes(), p.compress().to_bytes());
    assert_ne!(point(&p).mul(&scalar(&s)).compress().to_bytes(), p.compress().to_bytes());
}

#[test]
fn point_arithmetic_follows_the_logarithms() {
    let two = RistrettoPoint::mul_base(&BorshScalar::from_u64(2));
    let three = RistrettoPoint::mul_base(&BorshScalar::from_u64(3));
    let five = RistrettoPoint::mul_base(&BorshScalar::from_u64(5));
    let six = RistrettoPoint::mul_base(&BorshScalar::from_u64(6));
    assert!(two.add(&three).equals(&five));
    assert!(five.sub(&three).equals(&two));
    assert!(two.mul(&BorshScalar::from_u64(3)).equals(&six));
    assert!(two.add(&two.neg()).equals(&RistrettoPoint::identity()));
    assert!(RistrettoPoint::mul_base(&BorshScalar::one()).equals(&RistrettoPoint::basepoint()));
    assert!(RistrettoPoint::mul_base(&BorshScalar::zero()).equals(&RistrettoPoint::identity()));
    assert!(!two.equals(&three));
}

#[test]
fn hash_to_point_agrees_with_dalek() {
    let expect = DalekPoint::hash_from_bytes::<Sha3_512>(b"generator");
    assert_eq!(
        RistrettoPoint::hash_from_bytes(b"generator").compress().to_bytes(),
        expect.compress().to_bytes()
    );
    assert_ne!(
        RistrettoPoint::hash_from_bytes(b"generator").compress().to_bytes(),
        RistrettoPoint::hash_from_bytes(b"generatos").compress().to_bytes()
    );
}

#[test]
fn encodings_compare_by_bytes() {
    let a = BorshRistretto::new(small(3));
    let b = BorshRistretto::new(small(3));
    let c = BorshRistretto::new(small(4));
    assert!(a.equals(&b));
    assert!(!a.equals(&c));
    assert_eq!(a.to_bytes(), small(3));
}
