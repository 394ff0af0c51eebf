//! Scalars: the integers modulo the order of the Ristretto group.
//!
//! A scalar is held as its canonical 32-byte little-endian encoding. Every arithmetic
//! step is carried out by `curve25519_dalek`; the functions here say what the result is
//! as a number modulo the group order.

use vstd::prelude::*;
use crate::bytes::bytes32_eq;

verus! {

/// The order of the Ristretto group, `2^252 + 27742317777372353535851937790883648493`.
pub open spec fn group_order() -> nat {
    7237005577332262213973186563042994240857116359379907606001950938285454250989nat
}

/// The number that a byte string denotes when read least significant byte first.
pub open spec fn le_value(bytes: Seq<u8>) -> nat
    decreases bytes.len(),
{
    if bytes.len() == 0 {
        0
    } else {
        bytes[0] as nat + 256 * le_value(bytes.skip(1))
    }
}

/// A 32-byte string is the canonical encoding of a scalar when it denotes a number
/// below the group order.
pub open spec fn is_canonical(bytes: Seq<u8>) -> bool {
    bytes.len() == 32 && le_value(bytes) < group_order()
}

/// The scalar that `Scalar::hash_from_bytes::<Sha3_512>` derives from `input`.
pub uninterp spec fn sha3_512_scalar(input: Seq<u8>) -> nat;

/// Calls `Scalar::from_canonical_bytes`, which accepts exactly the encodings of
/// numbers below the group order.
#[verifier::external_body]
fn dalek_is_canonical(bytes: &[u8; 32]) -> (ok: bool)
    ensures
        ok == (le_value(bytes@) < group_order()),
{
    curve25519_dalek::scalar::Scalar::from_canonical_bytes(*bytes).is_some()
}

/// Calls `Scalar::from_bytes_mod_order`, which reduces the 256-bit little-endian
/// number in `bytes` modulo the group order.
#[verifier::external_body]
fn dalek_reduce(bytes: &[u8; 32]) -> (out: [u8; 32])
    ensures
        le_value(out@) == le_value(bytes@) % group_order(),
{
    curve25519_dalek::scalar::Scalar::from_bytes_mod_order(*bytes).to_bytes()
}

/// Calls `Scalar::from(u64)`, which writes the integer into a zeroed encoding.
#[verifier::external_body]
fn dalek_from_u64(x: u64) -> (out: [u8; 32])
    ensures
        le_value(out@) == x,
{
    curve25519_dalek::scalar::Scalar::from(x).to_bytes()
}

/// Calls `Scalar::random` on the operating system's generator. The outcome differs
/// from call to call; it is always a reduced scalar.
#[verifier::external_body]
fn dalek_random() -> (out: [u8; 32])
    ensures
        le_value(out@) < group_order(),
{
    curve25519_dalek::scalar::Scalar::random(&mut rand_core::OsRng).to_bytes()
}

/// Calls `Scalar::hash_from_bytes` with SHA3-512, which hashes `input` to 64 bytes
/// and reduces them modulo the group order.
#[verifier::external_body]
fn dalek_hash_to_scalar(input: &[u8]) -> (out: [u8; 32])
    ensures
        le_value(out@) == sha3_512_scalar(input@),
        le_value(out@) < group_order(),
{
    curve25519_dalek::scalar::Scalar::hash_from_bytes::<sha3::Sha3_512>(input).to_bytes()
}

/// Calls the `+` of `Scalar` on two canonical scalars: addition modulo the group
/// order.
#[verifier::external_body]
fn dalek_scalar_add(a: &[u8; 32], b: &[u8; 32]) -> (out: [u8; 32])
    requires
        le_value(a@) < group_order(),
        le_value(b@) < group_order(),
    ensures
        le_value(out@) == (le_value(a@) + le_value(b@)) % group_order(),
{
    let x = curve25519_dalek::scalar::Scalar::from_canonical_bytes(*a).unwrap();
    let y = curve25519_dalek::scalar::Scalar::from_canonical_bytes(*b).unwrap();
    (x + y).to_bytes()
}

/// Calls the `-` of `Scalar` on two canonical scalars: subtraction modulo the group
/// order.
#[verifier::external_body]
fn dalek_scalar_sub(a: &[u8; 32], b: &[u8; 32]) -> (out: [u8; 32])
    requires
        le_value(a@) < group_order(),
        le_value(b@) < group_order(),
    ensures
        le_value(out@) == (le_value(a@) - le_value(b@)) % (group_order() as int),
{
    let x = curve25519_dalek::scalar::Scalar::from_canonical_bytes(*a).unwrap();
    let y = curve25519_dalek::scalar::Scalar::from_canonical_bytes(*b).unwrap();
    (x - y).to_bytes()
}

/// Calls the `*` of `Scalar` on two canonical scalars: multiplication modulo the group
/// order.
#[verifier::external_body]
fn dalek_scalar_mul(a: &[u8; 32], b: &[u8; 32]) -> (out: [u8; 32])
    requires
        le_value(a@) < group_order(),
        le_value(b@) < group_order(),
    ensures
        le_value(out@) == (le_value(a@) * le_value(b@)) % group_order(),
{
    let x = curve25519_dalek::scalar::Scalar::from_canonical_bytes(*a).unwrap();
    let y = curve25519_dalek::scalar::Scalar::from_canonical_bytes(*b).unwrap();
    (x * y).to_bytes()
}

/// A scalar in its canonical encoding.
#[derive(Clone, Copy, Debug, PartialEq, Eq)]
pub struct BorshScalar {
    bytes: [u8; 32],
}

impl View for BorshScalar {
    type V = Seq<u8>;

    closed spec fn view(&self) -> Seq<u8> {
        self.bytes@
    }
}

impl BorshScalar {
    #[verifier::type_invariant]
    closed spec fn canonical(self) -> bool {
        le_value(self.bytes@) < group_order()
    }

    /// The number below the group order that this scalar stands for.
    pub open spec fn value(&self) -> nat {
        le_value(self@)
    }

    /// The scalar that `bytes` denotes once reduced modulo the group order.
    pub fn new(bytes: [u8; 32]) -> (s: Self)
        ensures
            s.value() == le_value(bytes@) % group_order(),
            is_canonical(s@),
            is_canonical(bytes@) ==> s@ == bytes@,
    {
        if dalek_is_canonical(&bytes) {
            BorshScalar { bytes }
        } else {
            let reduced = dalek_reduce(&bytes);
            proof {
                vstd::arithmetic::div_mod::lemma_mod_bound(
                    le_value(bytes@) as int,
                    group_order() as int,
                );
            }
            BorshScalar { bytes: reduced }
        }
    }

    /// Decodes a scalar, refusing every encoding that is not canonical.
    pub fn from_canonical_bytes(bytes: [u8; 32]) -> (s: Option<Self>)
        ensures
            s.is_some() == is_canonical(bytes@),
            s matches Some(x) ==> x@ == bytes@,
    {
        if dalek_is_canonical(&bytes) {
            Some(BorshScalar { bytes })
        } else {
            None
        }
    }

    /// The canonical encoding.
    pub fn to_bytes(&self) -> (bytes: [u8; 32])
        ensures
            bytes@ == self@,
            is_canonical(bytes@),
    {
        proof {
            use_type_invariant(self);
        }
        self.bytes
    }

    /// The scalar equal to `x`.
    pub fn from_u64(x: u64) -> (s: Self)
        ensures
            s.value() == x,
            is_canonical(s@),
    {
        BorshScalar { bytes: dalek_from_u64(x) }
    }

    /// The scalar 0.
    pub fn zero() -> (s: Self)
        ensures
            s.value() == 0,
            is_canonical(s@),
    {
        Self::from_u64(0)
    }

    /// The scalar 1.
    pub fn one() -> (s: Self)
        ensures
            s.value() == 1,
            is_canonical(s@),
    {
        Self::from_u64(1)
    }

    /// A scalar drawn from the operating system's random generator.
    pub fn random() -> (s: Self)
        ensures
            is_canonical(s@),
    {
        BorshScalar { bytes: dalek_random() }
    }

    /// Hashes `input` to a scalar with SHA3-512.
    pub fn hash_from_bytes(input: &[u8]) -> (s: Self)
        ensures
            s.value() == sha3_512_scalar(input@),
            is_canonical(s@),
    {
        BorshScalar { bytes: dalek_hash_to_scalar(input) }
    }

    /// The sum modulo the group order.
    pub fn add(&self, rhs: &BorshScalar) -> (s: Self)
        ensures
            s.value() == (self.value() + rhs.value()) % group_order(),
            is_canonical(s@),
    {
        proof {
            use_type_invariant(self);
            use_type_invariant(rhs);
        }
        let out = dalek_scalar_add(&self.bytes, &rhs.bytes);
        proof {
            vstd::arithmetic::div_mod::lemma_mod_bound(
                (self.value() + rhs.value()) as int,
                group_order() as int,
            );
        }
        BorshScalar { bytes: out }
    }

    /// The difference modulo the group order.
    pub fn sub(&self, rhs: &BorshScalar) -> (s: Self)
        ensures
            s.value() == (self.value() - rhs.value()) % (group_order() as int),
            is_canonical(s@),
    {
        proof {
            use_type_invariant(self);
            use_type_invariant(rhs);
        }
        let out = dalek_scalar_sub(&self.bytes, &rhs.bytes);
        proof {
            vstd::arithmetic::div_mod::lemma_mod_bound(
                self.value() - rhs.value(),
                group_order() as int,
            );
        }
        BorshScalar { bytes: out }
    }

    /// The product modulo the group order.
    pub fn mul(&self, rhs: &BorshScalar) -> (s: Self)
        ensures
            s.value() == (self.value() * rhs.value()) % group_order(),
            is_canonical(s@),
    {
        proof {
            use_type_invariant(self);
            use_type_invariant(rhs);
        }
        let out = dalek_scalar_mul(&self.bytes, &rhs.bytes);
        proof {
            vstd::arithmetic::div_mod::lemma_mod_bound(
                (self.value() * rhs.value()) as int,
                group_order() as int,
            );
        }
        BorshScalar { bytes: out }
    }

    /// Whether two scalars have the same encoding.
    pub fn equals(&self, other: &BorshScalar) -> (same: bool)
        ensures
            same == (self@ == other@),
    {
        bytes32_eq(&self.bytes, &other.bytes)
    }
}

} // verus!
