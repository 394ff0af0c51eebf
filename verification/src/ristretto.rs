//! Elements of the Ristretto group and their 32-byte encodings.
//!
//! The group is cyclic of prime order `group_order()` and the basepoint generates it,
//! so every element is `k` times the basepoint for exactly one `k` below the order.
//! Specifications identify an element with that `k`, its logarithm: adding elements
//! adds logarithms, multiplying by a scalar multiplies the logarithm, both modulo the
//! order. All group arithmetic is carried out by `curve25519_dalek`.

use vstd::prelude::*;
use curve25519_dalek::traits::Identity;
use crate::bytes::{bytes32_eq, zeros};
use crate::scalar::{group_order, le_value, BorshScalar};

verus! {

/// The encoding of `k` times the Ristretto basepoint.
pub uninterp spec fn ristretto_base_mul(k: nat) -> Seq<u8>;

/// The encoding of the element to which `RistrettoPoint::hash_from_bytes::<Sha3_512>`
/// maps `input`.
pub uninterp spec fn sha3_512_point(input: Seq<u8>) -> Seq<u8>;

/// Whether `bytes` is the encoding of a group element.
pub open spec fn is_point(bytes: Seq<u8>) -> bool {
    exists|k: nat| k < group_order() && #[trigger] ristretto_base_mul(k) == bytes
}

/// The logarithm of the element that `bytes` encodes: the multiple of the basepoint
/// that it is.
pub open spec fn point_log(bytes: Seq<u8>) -> nat {
    choose|k: nat| k < group_order() && #[trigger] ristretto_base_mul(k) == bytes
}

/// The sum of two logarithms.
pub open spec fn log_add(a: nat, b: nat) -> nat {
    (a + b) % group_order()
}

/// The difference of two logarithms.
pub open spec fn log_sub(a: nat, b: nat) -> nat {
    ((a - b) % (group_order() as int)) as nat
}

/// The logarithm of `s` times the element with logarithm `a`.
pub open spec fn log_mul(s: nat, a: nat) -> nat {
    (s * a) % group_order()
}

/// An encoding has a logarithm below the order, and is the encoding of that multiple
/// of the basepoint.
pub proof fn lemma_point_log(bytes: Seq<u8>)
    requires
        is_point(bytes),
    ensures
        point_log(bytes) < group_order(),
        ristretto_base_mul(point_log(bytes)) == bytes,
{
}

/// Two encodings with the same logarithm are the same bytes.
pub proof fn lemma_same_log_same_encoding(a: Seq<u8>, b: Seq<u8>)
    requires
        is_point(a),
        is_point(b),
        point_log(a) == point_log(b),
    ensures
        a == b,
{
    lemma_point_log(a);
    lemma_point_log(b);
}

/// Calls `CompressedRistretto::decompress`, which succeeds exactly on the canonical
/// encodings of group elements.
#[verifier::external_body]
fn dalek_is_point(bytes: &[u8; 32]) -> (ok: bool)
    ensures
        ok == is_point(bytes@),
{
    curve25519_dalek::ristretto::CompressedRistretto(*bytes).decompress().is_some()
}

/// Calls `CompressedRistretto::identity`: the identity element, whose logarithm is 0,
/// is encoded as 32 zero bytes.
#[verifier::external_body]
fn dalek_identity() -> (out: [u8; 32])
    ensures
        out@ == zeros(32),
        is_point(out@),
        point_log(out@) == 0,
{
    curve25519_dalek::ristretto::CompressedRistretto::identity().to_bytes()
}

/// Multiplies `RISTRETTO_BASEPOINT_TABLE` by the canonical scalar `s` and compresses
/// the product. Distinct scalars give distinct elements, so the logarithm of the
/// product is `s`.
#[verifier::external_body]
fn dalek_mul_base(s: &[u8; 32]) -> (out: [u8; 32])
    requires
        le_value(s@) < group_order(),
    ensures
        out@ == ristretto_base_mul(le_value(s@)),
        point_log(out@) == le_value(s@),
{
    let k = curve25519_dalek::scalar::Scalar::from_canonical_bytes(*s).unwrap();
    (&k * &curve25519_dalek::constants::RISTRETTO_BASEPOINT_TABLE).compress().to_bytes()
}

/// Calls `RistrettoPoint::hash_from_bytes` with SHA3-512 and compresses the element.
#[verifier::external_body]
fn dalek_hash_to_point(input: &[u8]) -> (out: [u8; 32])
    ensures
        out@ == sha3_512_point(input@),
        is_point(out@),
{
    curve25519_dalek::ristretto::RistrettoPoint::hash_from_bytes::<sha3::Sha3_512>(input)
        .compress()
        .to_bytes()
}

/// Decompresses both encodings, calls the `+` of `RistrettoPoint` and compresses the
/// sum.
#[verifier::external_body]
fn dalek_point_add(a: &[u8; 32], b: &[u8; 32]) -> (out: [u8; 32])
    requires
        is_point(a@),
        is_point(b@),
    ensures
        is_point(out@),
        point_log(out@) == log_add(point_log(a@), point_log(b@)),
{
    let p = curve25519_dalek::ristretto::CompressedRistretto(*a).decompress().unwrap();
    let q = curve25519_dalek::ristretto::CompressedRistretto(*b).decompress().unwrap();
    (p + q).compress().to_bytes()
}

/// Decompresses both encodings, calls the `-` of `RistrettoPoint` and compresses the
/// difference.
#[verifier::external_body]
fn dalek_point_sub(a: &[u8; 32], b: &[u8; 32]) -> (out: [u8; 32])
    requires
        is_point(a@),
        is_point(b@),
    ensures
        is_point(out@),
        point_log(out@) == log_sub(point_log(a@), point_log(b@)),
{
    let p = curve25519_dalek::ristretto::CompressedRistretto(*a).decompress().unwrap();
    let q = curve25519_dalek::ristretto::CompressedRistretto(*b).decompress().unwrap();
    (p - q).compress().to_bytes()
}

/// Decompresses the encoding, calls the `*` of `Scalar` and `RistrettoPoint` on the
/// canonical scalar `s` and the element, and compresses the product.
#[verifier::external_body]
fn dalek_point_mul(s: &[u8; 32], a: &[u8; 32]) -> (out: [u8; 32])
    requires
        le_value(s@) < group_order(),
        is_point(a@),
    ensures
        is_point(out@),
        point_log(out@) == log_mul(le_value(s@), point_log(a@)),
{
    let k = curve25519_dalek::scalar::Scalar::from_canonical_bytes(*s).unwrap();
    let p = curve25519_dalek::ristretto::CompressedRistretto(*a).decompress().unwrap();
    (k * p).compress().to_bytes()
}

/// 32 bytes that claim to encode a group element. Whether they do is found out by
/// `decompress`.
#[derive(Clone, Copy, Debug, PartialEq, Eq)]
pub struct BorshRistretto {
    /// The 32 bytes.
    pub bytes: [u8; 32],
}

impl View for BorshRistretto {
    type V = Seq<u8>;

    open spec fn view(&self) -> Seq<u8> {
        self.bytes@
    }
}

impl BorshRistretto {
    /// Wraps 32 bytes.
    pub fn new(bytes: [u8; 32]) -> (c: Self)
        ensures
            c@ == bytes@,
    {
        BorshRistretto { bytes }
    }

    /// The 32 bytes.
    pub fn to_bytes(&self) -> (bytes: [u8; 32])
        ensures
            bytes@ == self@,
    {
        self.bytes
    }

    /// The encoding of the identity element: 32 zero bytes.
    pub fn identity() -> (c: Self)
        ensures
            c@ == zeros(32),
            is_point(c@),
            point_log(c@) == 0,
    {
        BorshRistretto { bytes: dalek_identity() }
    }

    /// The element that these bytes encode, if they encode one.
    pub fn decompress(&self) -> (p: Option<RistrettoPoint>)
        ensures
            p.is_some() == is_point(self@),
            p matches Some(q) ==> q@ == self@,
    {
        if dalek_is_point(&self.bytes) {
            Some(RistrettoPoint { bytes: self.bytes })
        } else {
            None
        }
    }

    /// Whether two encodings are the same bytes.
    pub fn equals(&self, other: &BorshRistretto) -> (same: bool)
        ensures
            same == (self@ == other@),
    {
        bytes32_eq(&self.bytes, &other.bytes)
    }
}

/// A group element, held as its encoding.
#[derive(Clone, Copy, Debug, PartialEq, Eq)]
pub struct RistrettoPoint {
    bytes: [u8; 32],
}

impl View for RistrettoPoint {
    type V = Seq<u8>;

    closed spec fn view(&self) -> Seq<u8> {
        self.bytes@
    }
}

impl RistrettoPoint {
    #[verifier::type_invariant]
    pub open spec fn valid(self) -> bool {
        is_point(self@)
    }

    /// The logarithm of this element.
    pub open spec fn log(&self) -> nat {
        point_log(self@)
    }

    /// The identity element.
    pub fn identity() -> (p: Self)
        ensures
            p.log() == 0,
            p@ == zeros(32),
    {
        RistrettoPoint { bytes: dalek_identity() }
    }

    /// The basepoint, which generates the group.
    pub fn basepoint() -> (p: Self)
        ensures
            p.log() == 1,
            p@ == ristretto_base_mul(1),
    {
        let one = BorshScalar::one();
        let out = dalek_mul_base(&one.to_bytes());
        RistrettoPoint { bytes: out }
    }

    /// `s` times the basepoint.
    pub fn mul_base(s: &BorshScalar) -> (p: Self)
        ensures
            p.log() == s.value(),
            p@ == ristretto_base_mul(s.value()),
    {
        let bytes = s.to_bytes();
        let out = dalek_mul_base(&bytes);
        RistrettoPoint { bytes: out }
    }

    /// The element to which SHA3-512 hashes `input`.
    pub fn hash_from_bytes(input: &[u8]) -> (p: Self)
        ensures
            p@ == sha3_512_point(input@),
    {
        RistrettoPoint { bytes: dalek_hash_to_point(input) }
    }

    /// The sum of two elements.
    pub fn add(&self, rhs: &RistrettoPoint) -> (p: Self)
        ensures
            p.log() == log_add(self.log(), rhs.log()),
    {
        proof {
            use_type_invariant(self);
            use_type_invariant(rhs);
        }
        RistrettoPoint { bytes: dalek_point_add(&self.bytes, &rhs.bytes) }
    }

    /// The difference of two elements.
    pub fn sub(&self, rhs: &RistrettoPoint) -> (p: Self)
        ensures
            p.log() == log_sub(self.log(), rhs.log()),
    {
        proof {
            use_type_invariant(self);
            use_type_invariant(rhs);
        }
        RistrettoPoint { bytes: dalek_point_sub(&self.bytes, &rhs.bytes) }
    }

    /// The inverse of an element.
    pub fn neg(&self) -> (p: Self)
        ensures
            p.log() == log_sub(0, self.log()),
    {
        Self::identity().sub(self)
    }

    /// `s` times this element.
    pub fn mul(&self, s: &BorshScalar) -> (p: Self)
        ensures
            p.log() == log_mul(s.value(), self.log()),
    {
        proof {
            use_type_invariant(self);
        }
        let bytes = s.to_bytes();
        RistrettoPoint { bytes: dalek_point_mul(&bytes, &self.bytes) }
    }

    /// The encoding of this element.
    pub fn compress(&self) -> (c: BorshRistretto)
        ensures
            c@ == self@,
            is_point(c@),
    {
        proof {
            use_type_invariant(self);
        }
        BorshRistretto::new(self.bytes)
    }

    /// Whether two elements are the same; their encodings then are, too.
    pub fn equals(&self, other: &RistrettoPoint) -> (same: bool)
        ensures
            same == (self@ == other@),
            same == (self.log() == other.log()),
    {
        proof {
            use_type_invariant(self);
            use_type_invariant(other);
            if self.log() == other.log() {
                lemma_same_log_same_encoding(self@, other@);
            }
        }
        bytes32_eq(&self.bytes, &other.bytes)
    }
}

} // verus!
