//! Making and checking Pedersen commitments, and the proof of knowledge that binds a
//! linear combination of commitments to a blinding factor.

use vstd::prelude::*;
use crate::crypto::{CommitmentBase, RangeProof};
use crate::modular::{
    lemma_add_congruent, lemma_congruent_reduced, lemma_log_ops, lemma_mul_congruent,
};
use crate::ristretto::{is_point, log_add, log_mul, point_log, RistrettoPoint};
use crate::scalar::sha3_512_scalar;

pub use crate::crypto::PedersenComm;
pub use crate::ristretto::BorshRistretto;
pub use crate::scalar::BorshScalar;

verus! {

/// The generators of Pedersen commitments.
pub type PedersenBase = CommitmentBase;

/// A range proof as it travels inside a payload.
pub type BorshRangeProof = RangeProof;

/// The algorithms on Pedersen commitments.
pub struct Pedersen;

impl Pedersen {
    /// Commits to `val` under the opening `open`.
    pub fn commit_with(base: &PedersenBase, val: &BorshScalar, open: &BorshScalar) -> (comm:
        PedersenComm)
        ensures
            base.opens(comm@, open.value(), val.value()),
    {
        PedersenComm::new(base.combine(open, val).compress())
    }

    /// Commits to `val`, under `open` if one is given and under a freshly drawn
    /// opening otherwise. Returns the commitment with the opening used; verifying
    /// that pair against `val` succeeds.
    pub fn commit(base: &PedersenBase, val: &BorshScalar, open: Option<BorshScalar>) -> (out: (
        PedersenComm,
        BorshScalar,
    ))
        ensures
            base.opens(out.0@, out.1.value(), val.value()),
            open matches Some(o) ==> out.1@ == o@,
    {
        let opening = match open {
            Some(o) => o,
            None => BorshScalar::random(),
        };
        (Self::commit_with(base, val, &opening), opening)
    }

    /// Whether `comm` is the commitment to `val` under the opening `open`.
    pub fn verify_commitment(
        comm: &PedersenComm,
        base: &PedersenBase,
        open: &BorshScalar,
        val: &BorshScalar,
    ) -> (ok: bool)
        ensures
            ok == base.opens(comm@, open.value(), val.value()),
    {
        PedersenComm::verify_commitment(comm, base, open, val)
    }
}

/// The challenge that belongs to a nonce: the hash of its encoding.
pub open spec fn challenge_of(nonce: Seq<u8>) -> nat {
    sha3_512_scalar(nonce)
}

/// The equation `response * G == challenge * relation + nonce`, on logarithms.
pub open spec fn proof_equation(
    g: nat,
    response: nat,
    challenge: nat,
    relation: nat,
    nonce: nat,
) -> bool {
    log_mul(response, g) == log_add(log_mul(challenge, relation), nonce)
}

/// A proof that its maker knows the multiple of `G` that a given element, the
/// relation, is: a nonce and a response.
#[derive(Clone, Copy, Debug, PartialEq, Eq)]
pub struct ProofKnowledge {
    /// The nonce, a group element.
    pub nonce: BorshRistretto,
    /// The response, a scalar.
    pub scalar: BorshScalar,
}

impl ProofKnowledge {
    /// Whether the proof holds of the element with the logarithm `relation`: the
    /// nonce decodes, and the response satisfies the equation under the challenge
    /// that belongs to the nonce.
    pub open spec fn accepts(&self, g: nat, relation: nat) -> bool {
        is_point(self.nonce@) && proof_equation(
            g,
            self.scalar.value(),
            challenge_of(self.nonce@),
            relation,
            point_log(self.nonce@),
        )
    }

    /// Whether the proof was made for the blinding factor `k` from the nonce scalar
    /// `t`: the nonce is `t * G` and the response is `k * challenge + t`.
    pub open spec fn made_from(&self, g: nat, k: nat, t: nat) -> bool {
        &&& is_point(self.nonce@)
        &&& point_log(self.nonce@) == log_mul(t, g)
        &&& self.scalar.value() == log_add(log_mul(k, challenge_of(self.nonce@)), t)
    }

    /// The challenge that belongs to the nonce of this proof.
    pub fn challenge(&self) -> (c: BorshScalar)
        ensures
            c.value() == challenge_of(self.nonce@),
    {
        let bytes = self.nonce.to_bytes();
        BorshScalar::hash_from_bytes(bytes.as_slice())
    }

    /// Proves knowledge of `k` from the nonce scalar `t`. The proof holds of `k * G`.
    pub fn prove_with_nonce(base: &PedersenBase, k: &BorshScalar, t: &BorshScalar) -> (pok:
        ProofKnowledge)
        ensures
            pok.made_from(base.G.log(), k.value(), t.value()),
            pok.accepts(base.G.log(), log_mul(k.value(), base.G.log())),
    {
        let nonce = base.G.mul(t).compress();
        let pending = ProofKnowledge { nonce, scalar: *t };
        let c = pending.challenge();
        let response = k.mul(&c).add(t);
        let pok = ProofKnowledge { nonce, scalar: response };
        proof {
            lemma_proof_complete(base.G.log(), k.value(), t.value(), challenge_of(nonce@));
        }
        pok
    }

    /// Proves knowledge of `k` from a freshly drawn nonce scalar. The proof holds of
    /// `k * G`.
    pub fn prove(base: &PedersenBase, k: &BorshScalar) -> (pok: ProofKnowledge)
        ensures
            exists|t: nat| #[trigger] pok.made_from(base.G.log(), k.value(), t),
            pok.accepts(base.G.log(), log_mul(k.value(), base.G.log())),
    {
        let t = BorshScalar::random();
        let pok = Self::prove_with_nonce(base, k, &t);
        assert(pok.made_from(base.G.log(), k.value(), t.value()));
        pok
    }

    /// Whether the proof holds of `relation`.
    pub fn verify(&self, base: &PedersenBase, relation: &RistrettoPoint) -> (ok: bool)
        ensures
            ok == self.accepts(base.G.log(), relation.log()),
    {
        match self.nonce.decompress() {
            None => false,
            Some(nonce) => {
                let c = self.challenge();
                let left = base.G.mul(&self.scalar);
                let right = relation.mul(&c).add(&nonce);
                left.equals(&right)
            },
        }
    }
}

/// A proof made as prescribed is accepted: with the nonce `t * G` and the response
/// `k * c + t`, the equation holds of the relation `k * G` whatever the challenge
/// `c` is.
pub proof fn lemma_proof_complete(g: nat, k: nat, t: nat, c: nat)
    ensures
        proof_equation(g, log_add(log_mul(k, c), t), c, log_mul(k, g), log_mul(t, g)),
{
    let (gi, ki, ti, ci) = (g as int, k as int, t as int, c as int);
    let response = log_add(log_mul(k, c), t);
    let relation = log_mul(k, g);
    let nonce = log_mul(t, g);
    lemma_log_ops(k, c);
    lemma_log_ops(log_mul(k, c), t);
    lemma_log_ops(k, g);
    lemma_log_ops(t, g);
    lemma_log_ops(response, g);
    lemma_log_ops(c, relation);
    lemma_log_ops(log_mul(c, relation), nonce);
    // left: response * g ~ (k * c + t) * g
    lemma_add_congruent(log_mul(k, c) as int, ki * ci, ti, ti);
    lemma_mul_congruent(response as int, ki * ci + ti, gi, gi);
    // right: c * relation + nonce ~ c * (k * g) + t * g
    lemma_mul_congruent(ci, ci, relation as int, ki * gi);
    lemma_add_congruent(log_mul(c, relation) as int, ci * (ki * gi), nonce as int, ti * gi);
    assert((ki * ci + ti) * gi == ci * (ki * gi) + ti * gi) by (nonlinear_arith);
    lemma_congruent_reduced(
        log_mul(response, g) as int,
        log_add(log_mul(c, relation), nonce) as int,
    );
}

} // verus!
