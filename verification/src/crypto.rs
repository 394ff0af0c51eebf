//! Commitments: the two generators, Pedersen and ElGamal commitments, and the place
//! where a range-proof system is attached.

use vstd::prelude::*;
use crate::modular::{
    congruent, lemma_add_congruent, lemma_congruent_reduced, lemma_log_ops, lemma_mul_congruent,
};
use crate::ristretto::{
    is_point, log_add, log_mul, point_log, ristretto_base_mul, sha3_512_point, RistrettoPoint,
};
use crate::scalar::group_order;

pub use crate::proofs::ProofKnowledge;
pub use crate::ristretto::BorshRistretto;
pub use crate::scalar::BorshScalar;

verus! {

/// The encoding of the second generator: the element to which the encoding of the
/// basepoint is hashed.
pub open spec fn pedersen_h() -> Seq<u8> {
    sha3_512_point(ristretto_base_mul(1))
}

/// The logarithm of the commitment `open * G + val * H`, for generators with the
/// logarithms `g` and `h`.
pub open spec fn commit_log(g: nat, h: nat, open: nat, val: nat) -> nat {
    log_add(log_mul(open, g), log_mul(val, h))
}

/// The two generators under which commitments are made.
#[derive(Clone, Copy, Debug, PartialEq, Eq)]
pub struct CommitmentBase {
    /// The generator that carries the opening.
    pub G: RistrettoPoint,
    /// The generator that carries the committed value.
    pub H: RistrettoPoint,
}

impl CommitmentBase {
    /// Whether these are the standard generators: the basepoint, and the element to
    /// which its encoding is hashed.
    pub open spec fn is_standard(&self) -> bool {
        &&& self.G@ == ristretto_base_mul(1)
        &&& self.G.log() == 1
        &&& self.H@ == pedersen_h()
    }

    /// The logarithm of the commitment to `val` under the opening `open`.
    pub open spec fn commit_log(&self, open: nat, val: nat) -> nat {
        commit_log(self.G.log(), self.H.log(), open, val)
    }

    /// Whether `comm` encodes the commitment to `val` under the opening `open`.
    pub open spec fn opens(&self, comm: Seq<u8>, open: nat, val: nat) -> bool {
        is_point(comm) && point_log(comm) == self.commit_log(open, val)
    }

    /// The element `open * G + val * H`.
    pub fn combine(&self, open: &BorshScalar, val: &BorshScalar) -> (p: RistrettoPoint)
        ensures
            p.log() == self.commit_log(open.value(), val.value()),
            self.opens(p@, open.value(), val.value()),
    {
        let p = self.G.mul(open).add(&self.H.mul(val));
        proof {
            use_type_invariant(&p);
        }
        p
    }
}

impl Default for CommitmentBase {
    /// The standard generators.
    fn default() -> (base: CommitmentBase)
        ensures
            base.is_standard(),
    {
        let g = RistrettoPoint::basepoint();
        let g_bytes = g.compress().to_bytes();
        let h = RistrettoPoint::hash_from_bytes(g_bytes.as_slice());
        CommitmentBase { G: g, H: h }
    }
}

/// A Pedersen commitment, as the encoding of a group element.
#[derive(Clone, Copy, Debug, PartialEq, Eq)]
pub struct PedersenComm {
    /// The encoding of the commitment.
    pub comm: BorshRistretto,
}

impl View for PedersenComm {
    type V = Seq<u8>;

    open spec fn view(&self) -> Seq<u8> {
        self.comm@
    }
}

impl PedersenComm {
    /// Wraps an encoding.
    pub fn new(comm: BorshRistretto) -> (c: Self)
        ensures
            c@ == comm@,
    {
        PedersenComm { comm }
    }

    /// The encoding.
    pub fn getComm(&self) -> (comm: BorshRistretto)
        ensures
            comm@ == self@,
    {
        self.comm
    }

    /// Wraps 32 bytes.
    pub fn from_bytes(bytes: [u8; 32]) -> (c: Self)
        ensures
            c@ == bytes@,
    {
        PedersenComm { comm: BorshRistretto::new(bytes) }
    }

    /// The 32 bytes.
    pub fn to_bytes(&self) -> (bytes: [u8; 32])
        ensures
            bytes@ == self@,
    {
        self.comm.to_bytes()
    }

    /// Whether two commitments are the same bytes.
    pub fn equals(&self, other: &PedersenComm) -> (same: bool)
        ensures
            same == (self@ == other@),
    {
        self.comm.equals(&other.comm)
    }

    /// Whether `comm` is the commitment to `val` under the opening `open`.
    pub fn verify_commitment(
        comm: &PedersenComm,
        base: &CommitmentBase,
        open: &BorshScalar,
        val: &BorshScalar,
    ) -> (ok: bool)
        ensures
            ok == base.opens(comm@, open.value(), val.value()),
    {
        let expected = base.combine(open, val).compress();
        proof {
            if base.opens(comm@, open.value(), val.value()) {
                crate::ristretto::lemma_same_log_same_encoding(comm@, expected@);
            }
        }
        comm.comm.equals(&expected)
    }

    /// The sum of two commitments, when both decode.
    pub fn add(&self, other: &PedersenComm) -> (sum: Option<PedersenComm>)
        ensures
            sum.is_some() == (is_point(self@) && is_point(other@)),
            sum matches Some(c) ==> is_point(c@) && point_log(c@) == log_add(
                point_log(self@),
                point_log(other@),
            ),
    {
        match (self.comm.decompress(), other.comm.decompress()) {
            (Some(p), Some(q)) => Some(PedersenComm { comm: p.add(&q).compress() }),
            _ => None,
        }
    }
}

/// Commitments add up: the sum of a commitment to `v1` under `r1` and one to `v2`
/// under `r2` is the commitment to `v1 + v2` under `r1 + r2`.
pub proof fn lemma_commit_homomorphic(g: nat, h: nat, r1: nat, v1: nat, r2: nat, v2: nat)
    ensures
        log_add(commit_log(g, h, r1, v1), commit_log(g, h, r2, v2)) == commit_log(
            g,
            h,
            log_add(r1, r2),
            log_add(v1, v2),
        ),
{
    let c1 = commit_log(g, h, r1, v1);
    let c2 = commit_log(g, h, r2, v2);
    let r = log_add(r1, r2);
    let v = log_add(v1, v2);
    let (gi, hi) = (g as int, h as int);
    let (r1i, v1i, r2i, v2i) = (r1 as int, v1 as int, r2 as int, v2 as int);
    lemma_commit_log(g, h, r1, v1);
    lemma_commit_log(g, h, r2, v2);
    lemma_commit_log(g, h, r, v);
    lemma_log_ops(c1, c2);
    lemma_log_ops(r1, r2);
    lemma_log_ops(v1, v2);
    lemma_add_congruent(c1 as int, r1i * gi + v1i * hi, c2 as int, r2i * gi + v2i * hi);
    lemma_mul_congruent(r as int, r1i + r2i, gi, gi);
    lemma_mul_congruent(v as int, v1i + v2i, hi, hi);
    lemma_add_congruent(r * gi, (r1i + r2i) * gi, v * hi, (v1i + v2i) * hi);
    assert((r1i * gi + v1i * hi) + (r2i * gi + v2i * hi) == (r1i + r2i) * gi + (v1i + v2i) * hi)
        by (nonlinear_arith);
    lemma_congruent_reduced(log_add(c1, c2) as int, commit_log(g, h, r, v) as int);
}

/// The logarithm of a commitment is congruent to `open * g + val * h`.
pub proof fn lemma_commit_log(g: nat, h: nat, open: nat, val: nat)
    ensures
        congruent(commit_log(g, h, open, val) as int, (open * g + val * h) as int),
        commit_log(g, h, open, val) < group_order(),
{
    lemma_log_ops(open, g);
    lemma_log_ops(val, h);
    lemma_log_ops(log_mul(open, g), log_mul(val, h));
    lemma_add_congruent(
        log_mul(open, g) as int,
        (open * g) as int,
        log_mul(val, h) as int,
        (val * h) as int,
    );
}

/// The sum of two commitments opens to the sums of their openings and values.
pub proof fn lemma_sum_opens(
    base: CommitmentBase,
    a: Seq<u8>,
    r1: nat,
    v1: nat,
    b: Seq<u8>,
    r2: nat,
    v2: nat,
    sum: Seq<u8>,
)
    requires
        base.opens(a, r1, v1),
        base.opens(b, r2, v2),
        is_point(sum),
        point_log(sum) == log_add(point_log(a), point_log(b)),
    ensures
        base.opens(sum, log_add(r1, r2), log_add(v1, v2)),
{
    lemma_commit_homomorphic(base.G.log(), base.H.log(), r1, v1, r2, v2);
}

/// An ElGamal commitment: the opening times `G`, and the committed element plus the
/// opening times `H`.
#[derive(Clone, Copy, Debug, PartialEq, Eq)]
pub struct ElGamalComm {
    /// The encoding of `val + open * H`.
    pub comm_h: BorshRistretto,
    /// The encoding of `open * G`.
    pub comm_g: BorshRistretto,
}

impl ElGamalComm {
    /// Whether the first component is `open * G`.
    pub open spec fn opens_g(&self, base: CommitmentBase, open: nat) -> bool {
        is_point(self.comm_g@) && point_log(self.comm_g@) == log_mul(open, base.G.log())
    }

    /// Whether the second component is `val + open * H`.
    pub open spec fn opens_h(&self, base: CommitmentBase, open: nat, val: nat) -> bool {
        is_point(self.comm_h@) && point_log(self.comm_h@) == log_add(
            val,
            log_mul(open, base.H.log()),
        )
    }

    /// Commits to the element `val` under the opening `open`.
    pub fn commit(base: &CommitmentBase, open: &BorshScalar, val: &RistrettoPoint) -> (c: Self)
        ensures
            c.opens_g(*base, open.value()),
            c.opens_h(*base, open.value(), val.log()),
    {
        let c = ElGamalComm {
            comm_g: base.G.mul(open).compress(),
            comm_h: val.add(&base.H.mul(open)).compress(),
        };
        c
    }

    /// Whether both components of `comm` are those of the commitment to `val` under
    /// `open`.
    pub fn verify_commitment(
        comm: &ElGamalComm,
        base: &CommitmentBase,
        open: &BorshScalar,
        val: &RistrettoPoint,
    ) -> (ok: bool)
        ensures
            ok == (comm.opens_g(*base, open.value()) && comm.opens_h(
                *base,
                open.value(),
                val.log(),
            )),
    {
        let (ok_g, ok_h) = Self::verify_commitment_detailed(comm, base, open, val);
        ok_g && ok_h
    }

    /// Checks the two components of `comm` one by one: first `open * G`, then
    /// `val + open * H`.
    pub fn verify_commitment_detailed(
        comm: &ElGamalComm,
        base: &CommitmentBase,
        open: &BorshScalar,
        val: &RistrettoPoint,
    ) -> (ok: (bool, bool))
        ensures
            ok.0 == comm.opens_g(*base, open.value()),
            ok.1 == comm.opens_h(*base, open.value(), val.log()),
    {
        let expect_g = base.G.mul(open).compress();
        let expect_h = val.add(&base.H.mul(open)).compress();
        proof {
            if comm.opens_g(*base, open.value()) {
                crate::ristretto::lemma_same_log_same_encoding(comm.comm_g@, expect_g@);
            }
            if comm.opens_h(*base, open.value(), val.log()) {
                crate::ristretto::lemma_same_log_same_encoding(comm.comm_h@, expect_h@);
            }
        }
        (comm.comm_g.equals(&expect_g), comm.comm_h.equals(&expect_h))
    }
}

/// A range proof: bytes whose meaning belongs to the range-proof system in use.
#[derive(Clone, Debug, PartialEq, Eq)]
pub struct RangeProof {
    /// The proof as the range-proof system wrote it.
    pub bytes: Vec<u8>,
}

impl View for RangeProof {
    type V = Seq<u8>;

    open spec fn view(&self) -> Seq<u8> {
        self.bytes@
    }
}

/// The number of bits that committed amounts have.
pub const RANGE_BIT_LENGTH: usize = 64;

impl RangeProof {
    /// Whether `proof` shows that `commitment` hides a value of `bit_length` bits,
    /// under the generators with the encodings `g` and `h` and the transcript label
    /// `label`. No range-proof system is attached to this crate, and no proof is
    /// refused.
    pub open spec fn accepts(
        proof: Seq<u8>,
        commitment: Seq<u8>,
        bit_length: nat,
        g: Seq<u8>,
        h: Seq<u8>,
        label: Seq<u8>,
    ) -> bool {
        true
    }

    /// Wraps the bytes of a proof.
    pub fn new(bytes: Vec<u8>) -> (p: Self)
        ensures
            p@ == bytes@,
    {
        RangeProof { bytes }
    }

    /// The proof that goes with commitments made here: the empty one.
    pub fn empty() -> (p: Self)
        ensures
            p@ == Seq::<u8>::empty(),
    {
        RangeProof { bytes: Vec::new() }
    }

    /// Checks the proof against a commitment.
    pub fn verify(
        &self,
        commitment: &PedersenComm,
        bit_length: usize,
        base: &CommitmentBase,
        label: &[u8],
    ) -> (ok: bool)
        ensures
            ok == Self::accepts(
                self@,
                commitment@,
                bit_length as nat,
                base.G@,
                base.H@,
                label@,
            ),
    {
        true
    }

    /// A copy of the proof.
    pub fn duplicate(&self) -> (p: Self)
        ensures
            p@ == self@,
    {
        RangeProof { bytes: self.bytes.clone() }
    }
}

} // verus!
