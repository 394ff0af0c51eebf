//! The payloads of the instructions that carry cryptographic material: what they look
//! like on the wire, and when the program accepts them.

use vstd::prelude::*;
use vstd::bytes::{
    lemma_auto_spec_u32_to_from_le_bytes, lemma_auto_spec_u64_to_from_le_bytes,
    spec_u32_from_le_bytes, spec_u32_to_le_bytes, spec_u64_from_le_bytes, spec_u64_to_le_bytes,
};
use crate::bytes::{push32, read32};
use crate::crypto::{pedersen_h, CommitmentBase, PedersenComm, RangeProof, RANGE_BIT_LENGTH};
use crate::error::CTokenError;
use crate::modular::{
    congruent, lemma_add_congruent, lemma_congruent_reduced, lemma_log_add, lemma_log_mul,
    lemma_log_ops, lemma_log_sub, lemma_mul_congruent, lemma_sub_congruent,
};
use crate::proofs::{challenge_of, proof_equation, Pedersen, ProofKnowledge};
use crate::ristretto::{
    is_point, log_add, log_mul, log_sub, point_log, ristretto_base_mul, BorshRistretto,
};
use crate::scalar::{is_canonical, BorshScalar};
use crate::wire::{counted, push_counted, push_u64, read_bytes, read_count, read_u64};

verus! {

/// Payloads that the program checks cryptographically before it acts on them.
pub trait CryptoVerRequired {
    /// Whether the payload passes its checks.
    spec fn accepted(&self) -> bool;

    /// The error with which a payload that fails its checks is turned away.
    spec fn rejection(&self) -> CTokenError;

    /// Runs the checks.
    fn verify_crypto(&self) -> (out: Result<(), CTokenError>)
        ensures
            out.is_ok() == self.accepted(),
            out matches Err(e) ==> e == self.rejection(),
    ;
}

/// Whether the range proof of a payload is accepted for `commitment`, at 64 bits,
/// under the standard generators and the empty transcript label.
pub open spec fn range_accepted(range_proof: Seq<u8>, commitment: Seq<u8>) -> bool {
    RangeProof::accepts(
        range_proof,
        commitment,
        64,
        ristretto_base_mul(1),
        pedersen_h(),
        Seq::<u8>::empty(),
    )
}

/// Runs the range check of a payload.
fn check_range(range_proof: &RangeProof, commitment: &PedersenComm, base: &CommitmentBase) -> (ok:
    bool)
    requires
        base.is_standard(),
    ensures
        ok == range_accepted(range_proof@, commitment@),
{
    let label: [u8; 0] = [];
    assert(label@ =~= Seq::<u8>::empty());
    range_proof.verify(commitment, RANGE_BIT_LENGTH, base, label.as_slice())
}

/// The logarithm of the element of which the proof of a mint must hold: the output
/// commitment minus `amount * G`, where `G` is the basepoint.
pub open spec fn mint_relation(out: nat, amount: nat) -> nat {
    log_sub(out, log_mul(amount, 1))
}

/// What a `Mint` instruction carries: the amount in the clear, the commitment that
/// the new account is to hold, and the proofs that go with it.
#[derive(Clone, Debug, PartialEq, Eq)]
pub struct MintData {
    /// The amount of newly minted tokens.
    pub amount: u64,
    /// The commitment produced.
    pub out_comm: PedersenComm,
    /// The range proof for the commitment produced.
    pub range_proof: RangeProof,
    /// The proof of knowledge that ties the commitment to the amount.
    pub proof_knowledge: ProofKnowledge,
}

impl MintData {
    /// The payload on the wire: the amount least significant byte first, the
    /// commitment, the range proof behind its count, the nonce and the response.
    pub open spec fn encoding(&self) -> Seq<u8> {
        spec_u64_to_le_bytes(self.amount) + self.out_comm@ + counted(self.range_proof@)
            + self.proof_knowledge.nonce@ + self.proof_knowledge.scalar@
    }

    /// Whether `src` has the length that the count inside it announces.
    pub open spec fn well_framed(src: Seq<u8>) -> bool {
        src.len() >= 108 && src.len() - 108 == spec_u32_from_le_bytes(src.subrange(40, 44))
    }

    /// The error with which `src` is turned away, if it is: a frame that does not
    /// fit, or else a response that is not a canonical scalar.
    pub open spec fn decode_error(src: Seq<u8>) -> Option<CTokenError> {
        if !Self::well_framed(src) {
            Some(CTokenError::InvalidInstruction)
        } else if !is_canonical(src.subrange(src.len() - 32, src.len() as int)) {
            Some(CTokenError::InvalidProof)
        } else {
            None
        }
    }

    /// Whether `data` is the payload that `src` holds.
    pub open spec fn decodes_to(src: Seq<u8>, data: MintData) -> bool {
        let n = src.len() as int;
        &&& data.amount == spec_u64_from_le_bytes(src.subrange(0, 8))
        &&& data.out_comm@ == src.subrange(8, 40)
        &&& data.range_proof@ == src.subrange(44, n - 64)
        &&& data.proof_knowledge.nonce@ == src.subrange(n - 64, n - 32)
        &&& data.proof_knowledge.scalar@ == src.subrange(n - 32, n)
    }

    /// Whether two payloads hold the same values.
    pub open spec fn same(&self, other: MintData) -> bool {
        &&& self.amount == other.amount
        &&& self.out_comm@ == other.out_comm@
        &&& self.range_proof@ == other.range_proof@
        &&& self.proof_knowledge.nonce@ == other.proof_knowledge.nonce@
        &&& self.proof_knowledge.scalar@ == other.proof_knowledge.scalar@
    }

    /// A copy of the payload.
    pub fn duplicate(&self) -> (data: MintData)
        ensures
            self.same(data),
    {
        MintData {
            amount: self.amount,
            out_comm: self.out_comm,
            range_proof: self.range_proof.duplicate(),
            proof_knowledge: self.proof_knowledge,
        }
    }

    /// Writes the payload; what is written reads back as the same payload.
    pub fn encode(&self) -> (bytes: Vec<u8>)
        requires
            self.range_proof@.len() <= u32::MAX,
        ensures
            bytes@ == self.encoding(),
            Self::decode_error(bytes@) is None,
            Self::decodes_to(bytes@, *self),
    {
        let mut out: Vec<u8> = Vec::new();
        push_u64(&mut out, self.amount);
        push32(&mut out, &self.out_comm.to_bytes());
        push_counted(&mut out, &self.range_proof.bytes);
        push32(&mut out, &self.proof_knowledge.nonce.to_bytes());
        push32(&mut out, &self.proof_knowledge.scalar.to_bytes());
        proof {
            assert(out@ =~= self.encoding());
            lemma_mint_data_round_trip(*self);
        }
        out
    }

    /// Writes the payload, and fails on a range proof too long for its count.
    pub fn try_to_vec(&self) -> (out: Result<Vec<u8>, CTokenError>)
        ensures
            out.is_ok() == (self.range_proof@.len() <= u32::MAX),
            out matches Ok(bytes) ==> bytes@ == self.encoding() && Self::decode_error(bytes@)
                is None && Self::decodes_to(bytes@, *self),
            out matches Err(e) ==> e == CTokenError::InvalidInstruction,
    {
        if self.range_proof.bytes.len() > u32::MAX as usize {
            return Err(CTokenError::InvalidInstruction);
        }
        Ok(self.encode())
    }

    /// Reads a payload.
    pub fn try_from_slice(src: &[u8]) -> (out: Result<MintData, CTokenError>)
        ensures
            out matches Ok(data) ==> Self::decode_error(src@) is None && Self::decodes_to(
                src@,
                data,
            ),
            out matches Err(e) ==> Self::decode_error(src@) == Some(e),
    {
        let len: usize = src.len();
        if len < 108 {
            return Err(CTokenError::InvalidInstruction);
        }
        let count: usize = read_count(src, 40);
        if len - 108 != count {
            return Err(CTokenError::InvalidInstruction);
        }
        let response = match BorshScalar::from_canonical_bytes(read32(src, len - 32)) {
            Some(s) => s,
            None => {
                return Err(CTokenError::InvalidProof);
            },
        };
        Ok(
            MintData {
                amount: read_u64(src, 0),
                out_comm: PedersenComm::from_bytes(read32(src, 8)),
                range_proof: RangeProof::new(read_bytes(src, 44, len - 64)),
                proof_knowledge: ProofKnowledge {
                    nonce: BorshRistretto::new(read32(src, len - 64)),
                    scalar: response,
                },
            },
        )
    }
}

/// A payload that was written reads back as the same payload.
pub proof fn lemma_mint_data_round_trip(data: MintData)
    requires
        data.range_proof@.len() <= u32::MAX,
        is_canonical(data.proof_knowledge.scalar@),
    ensures
        MintData::decode_error(data.encoding()) is None,
        MintData::decodes_to(data.encoding(), data),
{
    lemma_auto_spec_u64_to_from_le_bytes();
    lemma_auto_spec_u32_to_from_le_bytes();
    let e = data.encoding();
    let n = e.len() as int;
    let count = spec_u32_to_le_bytes(data.range_proof@.len() as u32);
    assert(e.subrange(0, 8) =~= spec_u64_to_le_bytes(data.amount));
    assert(e.subrange(8, 40) =~= data.out_comm@);
    assert(e.subrange(40, 44) =~= count);
    assert(e.subrange(44, n - 64) =~= data.range_proof@);
    assert(e.subrange(n - 64, n - 32) =~= data.proof_knowledge.nonce@);
    assert(e.subrange(n - 32, n) =~= data.proof_knowledge.scalar@);
}

/// A byte string holds at most one payload.
pub proof fn lemma_mint_data_decoding_unique(src: Seq<u8>, a: MintData, b: MintData)
    requires
        MintData::decodes_to(src, a),
        MintData::decodes_to(src, b),
    ensures
        a.same(b),
{
}

impl CryptoVerRequired for MintData {
    /// A mint is accepted when its range proof is, its commitment decodes, and its
    /// proof of knowledge holds of the commitment minus `amount * G`.
    open spec fn accepted(&self) -> bool {
        &&& range_accepted(self.range_proof@, self.out_comm@)
        &&& is_point(self.out_comm@)
        &&& self.proof_knowledge.accepts(
            1,
            mint_relation(point_log(self.out_comm@), self.amount as nat),
        )
    }

    open spec fn rejection(&self) -> CTokenError {
        CTokenError::InvalidProof
    }

    fn verify_crypto(&self) -> (out: Result<(), CTokenError>) {
        let base = CommitmentBase::default();
        if !check_range(&self.range_proof, &self.out_comm, &base) {
            return Err(CTokenError::InvalidProof);
        }
        let out_comm = match self.out_comm.getComm().decompress() {
            Some(p) => p,
            None => {
                return Err(CTokenError::InvalidProof);
            },
        };
        let amount = base.G.mul(&BorshScalar::from_u64(self.amount));
        let relation = out_comm.sub(&amount);
        if self.proof_knowledge.verify(&base, &relation) {
            Ok(())
        } else {
            Err(CTokenError::InvalidProof)
        }
    }
}

/// The logarithm of the element of which the proof of the sender must hold: its new
/// commitment plus the interim commitment minus its old commitment.
pub open spec fn sender_relation(out: nat, interim: nat, input: nat) -> nat {
    log_sub(log_add(out, interim), input)
}

/// The logarithm of the element of which the proof of the receiver must hold: its
/// new commitment minus its old commitment minus the interim commitment.
pub open spec fn receiver_relation(out: nat, input: nat, interim: nat) -> nat {
    log_sub(log_sub(out, input), interim)
}

/// What the two proofs of a transfer say of the commitments once the interim
/// commitment is eliminated between them. The proof of the sender determines
/// `challenge_s` times its relation, namely `response_s * G - nonce_s`, and likewise
/// for the receiver; the two relations add up to the outputs minus the inputs. So
/// `challenge_r * (response_s * G - nonce_s) + challenge_s * (response_r * G - nonce_r)`
/// must be `challenge_s * challenge_r` times outputs minus inputs. All arguments are
/// logarithms or scalars.
pub open spec fn transfer_equation(
    g: nat,
    sender: (nat, nat, nat),
    receiver: (nat, nat, nat),
    inputs: (nat, nat),
    outputs: (nat, nat),
) -> bool {
    let (response_s, challenge_s, nonce_s) = sender;
    let (response_r, challenge_r, nonce_r) = receiver;
    log_add(
        log_mul(challenge_r, log_sub(log_mul(response_s, g), nonce_s)),
        log_mul(challenge_s, log_sub(log_mul(response_r, g), nonce_r)),
    ) == log_mul(
        log_mul(challenge_s, challenge_r),
        log_sub(log_add(outputs.0, outputs.1), log_add(inputs.0, inputs.1)),
    )
}

/// What a `Transfer` instruction carries. In each pair the first entry is the
/// sender's and the second the receiver's.
#[derive(Debug, PartialEq, Eq)]
pub struct TransferData {
    /// The commitments of the two source accounts.
    pub in_comms: (PedersenComm, PedersenComm),
    /// The commitments of the two destination accounts.
    pub out_comms: (PedersenComm, PedersenComm),
    /// The range proofs for the destination commitments.
    pub range_proofs: (RangeProof, RangeProof),
    /// The proofs of knowledge of the two parties.
    pub proofs_knowledge: (ProofKnowledge, ProofKnowledge),
}

impl TransferData {
    /// The payload on the wire: the four commitments, the two range proofs each
    /// behind its count, and the two proofs of knowledge, nonce before response.
    pub open spec fn encoding(&self) -> Seq<u8> {
        self.in_comms.0@ + self.in_comms.1@ + self.out_comms.0@ + self.out_comms.1@ + counted(
            self.range_proofs.0@,
        ) + counted(self.range_proofs.1@) + self.proofs_knowledge.0.nonce@
            + self.proofs_knowledge.0.scalar@ + self.proofs_knowledge.1.nonce@
            + self.proofs_knowledge.1.scalar@
    }

    /// The count in front of the first range proof.
    pub open spec fn first_count(src: Seq<u8>) -> int {
        spec_u32_from_le_bytes(src.subrange(128, 132)) as int
    }

    /// The count in front of the second range proof.
    pub open spec fn second_count(src: Seq<u8>) -> int {
        let at = 132 + Self::first_count(src);
        spec_u32_from_le_bytes(src.subrange(at, at + 4)) as int
    }

    /// Whether `src` has the length that the two counts inside it announce.
    pub open spec fn well_framed(src: Seq<u8>) -> bool {
        &&& src.len() >= 264
        &&& Self::first_count(src) <= src.len() - 264
        &&& Self::second_count(src) == src.len() - 264 - Self::first_count(src)
    }

    /// The error with which `src` is turned away, if it is: a frame that does not
    /// fit, or else a response that is not a canonical scalar.
    pub open spec fn decode_error(src: Seq<u8>) -> Option<CTokenError> {
        let n = src.len() as int;
        if !Self::well_framed(src) {
            Some(CTokenError::InvalidInstruction)
        } else if !is_canonical(src.subrange(n - 96, n - 64)) || !is_canonical(
            src.subrange(n - 32, n),
        ) {
            Some(CTokenError::InvalidProof)
        } else {
            None
        }
    }

    /// Whether `data` is the payload that `src` holds.
    pub open spec fn decodes_to(src: Seq<u8>, data: TransferData) -> bool {
        let n = src.len() as int;
        let first = Self::first_count(src);
        &&& data.in_comms.0@ == src.subrange(0, 32)
        &&& data.in_comms.1@ == src.subrange(32, 64)
        &&& data.out_comms.0@ == src.subrange(64, 96)
        &&& data.out_comms.1@ == src.subrange(96, 128)
        &&& data.range_proofs.0@ == src.subrange(132, 132 + first)
        &&& data.range_proofs.1@ == src.subrange(136 + first, n - 128)
        &&& data.proofs_knowledge.0.nonce@ == src.subrange(n - 128, n - 96)
        &&& data.proofs_knowledge.0.scalar@ == src.subrange(n - 96, n - 64)
        &&& data.proofs_knowledge.1.nonce@ == src.subrange(n - 64, n - 32)
        &&& data.proofs_knowledge.1.scalar@ == src.subrange(n - 32, n)
    }

    /// Whether two payloads hold the same values.
    pub open spec fn same(&self, other: TransferData) -> bool {
        &&& self.in_comms.0@ == other.in_comms.0@
        &&& self.in_comms.1@ == other.in_comms.1@
        &&& self.out_comms.0@ == other.out_comms.0@
        &&& self.out_comms.1@ == other.out_comms.1@
        &&& self.range_proofs.0@ == other.range_proofs.0@
        &&& self.range_proofs.1@ == other.range_proofs.1@
        &&& self.proofs_knowledge.0.nonce@ == other.proofs_knowledge.0.nonce@
        &&& self.proofs_knowledge.0.scalar@ == other.proofs_knowledge.0.scalar@
        &&& self.proofs_knowledge.1.nonce@ == other.proofs_knowledge.1.nonce@
        &&& self.proofs_knowledge.1.scalar@ == other.proofs_knowledge.1.scalar@
    }

    /// Whether both range proofs have a length that fits their count.
    pub open spec fn fits(&self) -> bool {
        self.range_proofs.0@.len() <= u32::MAX && self.range_proofs.1@.len() <= u32::MAX
    }

    /// A copy of the payload.
    pub fn duplicate(&self) -> (data: TransferData)
        ensures
            self.same(data),
    {
        TransferData {
            in_comms: self.in_comms,
            out_comms: self.out_comms,
            range_proofs: (self.range_proofs.0.duplicate(), self.range_proofs.1.duplicate()),
            proofs_knowledge: self.proofs_knowledge,
        }
    }

    /// Writes the payload; what is written reads back as the same payload.
    pub fn encode(&self) -> (bytes: Vec<u8>)
        requires
            self.fits(),
        ensures
            bytes@ == self.encoding(),
            Self::decode_error(bytes@) is None,
            Self::decodes_to(bytes@, *self),
    {
        let mut out: Vec<u8> = Vec::new();
        push32(&mut out, &self.in_comms.0.to_bytes());
        push32(&mut out, &self.in_comms.1.to_bytes());
        push32(&mut out, &self.out_comms.0.to_bytes());
        push32(&mut out, &self.out_comms.1.to_bytes());
        push_counted(&mut out, &self.range_proofs.0.bytes);
        push_counted(&mut out, &self.range_proofs.1.bytes);
        push32(&mut out, &self.proofs_knowledge.0.nonce.to_bytes());
        push32(&mut out, &self.proofs_knowledge.0.scalar.to_bytes());
        push32(&mut out, &self.proofs_knowledge.1.nonce.to_bytes());
        push32(&mut out, &self.proofs_knowledge.1.scalar.to_bytes());
        proof {
            assert(out@ =~= self.encoding());
            lemma_transfer_data_round_trip(*self);
        }
        out
    }

    /// Writes the payload, and fails on a range proof too long for its count.
    pub fn try_to_vec(&self) -> (out: Result<Vec<u8>, CTokenError>)
        ensures
            out.is_ok() == self.fits(),
            out matches Ok(bytes) ==> bytes@ == self.encoding() && Self::decode_error(bytes@)
                is None && Self::decodes_to(bytes@, *self),
            out matches Err(e) ==> e == CTokenError::InvalidInstruction,
    {
        if self.range_proofs.0.bytes.len() > u32::MAX as usize || self.range_proofs.1.bytes.len()
            > u32::MAX as usize {
            return Err(CTokenError::InvalidInstruction);
        }
        Ok(self.encode())
    }

    /// Reads a payload.
    pub fn try_from_slice(src: &[u8]) -> (out: Result<TransferData, CTokenError>)
        ensures
            out matches Ok(data) ==> Self::decode_error(src@) is None && Self::decodes_to(
                src@,
                data,
            ),
            out matches Err(e) ==> Self::decode_error(src@) == Some(e),
    {
        let len: usize = src.len();
        if len < 264 {
            return Err(CTokenError::InvalidInstruction);
        }
        let first: usize = read_count(src, 128);
        if first > len - 264 {
            return Err(CTokenError::InvalidInstruction);
        }
        let second: usize = read_count(src, 132 + first);
        if second != len - 264 - first {
            return Err(CTokenError::InvalidInstruction);
        }
        let response_s = BorshScalar::from_canonical_bytes(read32(src, len - 96));
        let response_r = BorshScalar::from_canonical_bytes(read32(src, len - 32));
        match (response_s, response_r) {
            (Some(s), Some(r)) => Ok(
                TransferData {
                    in_comms: (
                        PedersenComm::from_bytes(read32(src, 0)),
                        PedersenComm::from_bytes(read32(src, 32)),
                    ),
                    out_comms: (
                        PedersenComm::from_bytes(read32(src, 64)),
                        PedersenComm::from_bytes(read32(src, 96)),
                    ),
                    range_proofs: (
                        RangeProof::new(read_bytes(src, 132, 132 + first)),
                        RangeProof::new(read_bytes(src, 136 + first, len - 128)),
                    ),
                    proofs_knowledge: (
                        ProofKnowledge {
                            nonce: BorshRistretto::new(read32(src, len - 128)),
                            scalar: s,
                        },
                        ProofKnowledge {
                            nonce: BorshRistretto::new(read32(src, len - 64)),
                            scalar: r,
                        },
                    ),
                },
            ),
            _ => Err(CTokenError::InvalidProof),
        }
    }
}

/// A payload that was written reads back as the same payload.
pub proof fn lemma_transfer_data_round_trip(data: TransferData)
    requires
        data.fits(),
        is_canonical(data.proofs_knowledge.0.scalar@),
        is_canonical(data.proofs_knowledge.1.scalar@),
    ensures
        TransferData::decode_error(data.encoding()) is None,
        TransferData::decodes_to(data.encoding(), data),
{
    lemma_auto_spec_u32_to_from_le_bytes();
    let e = data.encoding();
    let n = e.len() as int;
    let first = data.range_proofs.0@.len() as int;
    let second = data.range_proofs.1@.len() as int;
    assert(e.subrange(128, 132) =~= spec_u32_to_le_bytes(first as u32));
    assert(e.subrange(132 + first, 136 + first) =~= spec_u32_to_le_bytes(second as u32));
    assert(e.subrange(0, 32) =~= data.in_comms.0@);
    assert(e.subrange(32, 64) =~= data.in_comms.1@);
    assert(e.subrange(64, 96) =~= data.out_comms.0@);
    assert(e.subrange(96, 128) =~= data.out_comms.1@);
    assert(e.subrange(132, 132 + first) =~= data.range_proofs.0@);
    assert(e.subrange(136 + first, n - 128) =~= data.range_proofs.1@);
    assert(e.subrange(n - 128, n - 96) =~= data.proofs_knowledge.0.nonce@);
    assert(e.subrange(n - 96, n - 64) =~= data.proofs_knowledge.0.scalar@);
    assert(e.subrange(n - 64, n - 32) =~= data.proofs_knowledge.1.nonce@);
    assert(e.subrange(n - 32, n) =~= data.proofs_knowledge.1.scalar@);
}

/// A byte string holds at most one payload.
pub proof fn lemma_transfer_data_decoding_unique(src: Seq<u8>, a: TransferData, b: TransferData)
    requires
        TransferData::decodes_to(src, a),
        TransferData::decodes_to(src, b),
    ensures
        a.same(b),
{
}

impl CryptoVerRequired for TransferData {
    /// A transfer is accepted when both range proofs are, the four commitments and
    /// the two nonces decode, and the two proofs of knowledge together satisfy the
    /// transfer equation under the basepoint.
    open spec fn accepted(&self) -> bool {
        let sender = self.proofs_knowledge.0;
        let receiver = self.proofs_knowledge.1;
        &&& range_accepted(self.range_proofs.0@, self.out_comms.0@)
        &&& range_accepted(self.range_proofs.1@, self.out_comms.1@)
        &&& is_point(self.in_comms.0@)
        &&& is_point(self.in_comms.1@)
        &&& is_point(self.out_comms.0@)
        &&& is_point(self.out_comms.1@)
        &&& is_point(sender.nonce@)
        &&& is_point(receiver.nonce@)
        &&& transfer_equation(
            1,
            (sender.scalar.value(), challenge_of(sender.nonce@), point_log(sender.nonce@)),
            (receiver.scalar.value(), challenge_of(receiver.nonce@), point_log(receiver.nonce@)),
            (point_log(self.in_comms.0@), point_log(self.in_comms.1@)),
            (point_log(self.out_comms.0@), point_log(self.out_comms.1@)),
        )
    }

    open spec fn rejection(&self) -> CTokenError {
        CTokenError::InvalidProof
    }

    fn verify_crypto(&self) -> (out: Result<(), CTokenError>) {
        let base = CommitmentBase::default();
        if !check_range(&self.range_proofs.0, &self.out_comms.0, &base) {
            return Err(CTokenError::InvalidProof);
        }
        if !check_range(&self.range_proofs.1, &self.out_comms.1, &base) {
            return Err(CTokenError::InvalidProof);
        }
        let sender = &self.proofs_knowledge.0;
        let receiver = &self.proofs_knowledge.1;
        let decoded = (
            self.in_comms.0.getComm().decompress(),
            self.in_comms.1.getComm().decompress(),
            self.out_comms.0.getComm().decompress(),
            self.out_comms.1.getComm().decompress(),
            sender.nonce.decompress(),
            receiver.nonce.decompress(),
        );
        match decoded {
            (Some(in_s), Some(in_r), Some(out_s), Some(out_r), Some(nonce_s), Some(nonce_r)) => {
                let challenge_s = sender.challenge();
                let challenge_r = receiver.challenge();
                let multiple_s = base.G.mul(&sender.scalar).sub(&nonce_s);
                let multiple_r = base.G.mul(&receiver.scalar).sub(&nonce_r);
                let left = multiple_s.mul(&challenge_r).add(&multiple_r.mul(&challenge_s));
                let balance = out_s.add(&out_r).sub(&in_s.add(&in_r));
                let right = balance.mul(&challenge_s.mul(&challenge_r));
                if left.equals(&right) {
                    Ok(())
                } else {
                    Err(CTokenError::InvalidProof)
                }
            },
            _ => Err(CTokenError::InvalidProof),
        }
    }
}

/// Summing the two relations eliminates the interim commitment: whenever the proof
/// of the sender holds of its relation and the proof of the receiver of its own,
/// for one and the same interim commitment, the transfer equation holds.
pub proof fn lemma_relations_give_transfer_equation(
    g: nat,
    sender: (nat, nat, nat),
    receiver: (nat, nat, nat),
    inputs: (nat, nat),
    outputs: (nat, nat),
    interim: nat,
)
    requires
        proof_equation(
            g,
            sender.0,
            sender.1,
            sender_relation(outputs.0, interim, inputs.0),
            sender.2,
        ),
        proof_equation(
            g,
            receiver.0,
            receiver.1,
            receiver_relation(outputs.1, inputs.1, interim),
            receiver.2,
        ),
    ensures
        transfer_equation(g, sender, receiver, inputs, outputs),
{
    let (ss, cs, ns) = (sender.0 as int, sender.1 as int, sender.2 as int);
    let (sr, cr, nr) = (receiver.0 as int, receiver.1 as int, receiver.2 as int);
    let (i0, i1, o0, o1, m) = (
        inputs.0 as int,
        inputs.1 as int,
        outputs.0 as int,
        outputs.1 as int,
        interim as int,
    );
    let rel_s = sender_relation(outputs.0, interim, inputs.0);
    let rel_r = receiver_relation(outputs.1, inputs.1, interim);
    // the relations as integers
    lemma_log_add(outputs.0, o0, interim, m);
    lemma_log_sub(log_add(outputs.0, interim), o0 + m, inputs.0, i0);
    lemma_log_sub(outputs.1, o1, inputs.1, i1);
    lemma_log_sub(log_sub(outputs.1, inputs.1), o1 - i1, interim, m);
    // response * G, by the two proof equations
    lemma_log_mul(sender.1, cs, rel_s, o0 + m - i0);
    lemma_log_add(log_mul(sender.1, rel_s), cs * (o0 + m - i0), sender.2, ns);
    lemma_log_mul(receiver.1, cr, rel_r, o1 - i1 - m);
    lemma_log_add(log_mul(receiver.1, rel_r), cr * (o1 - i1 - m), receiver.2, nr);
    let multiple_s = log_sub(log_mul(sender.0, g), sender.2);
    let multiple_r = log_sub(log_mul(receiver.0, g), receiver.2);
    lemma_log_sub(log_mul(sender.0, g), cs * (o0 + m - i0) + ns, sender.2, ns);
    lemma_log_sub(log_mul(receiver.0, g), cr * (o1 - i1 - m) + nr, receiver.2, nr);
    // the left side
    lemma_log_mul(receiver.1, cr, multiple_s, cs * (o0 + m - i0) + ns - ns);
    lemma_log_mul(sender.1, cs, multiple_r, cr * (o1 - i1 - m) + nr - nr);
    let left = log_add(log_mul(receiver.1, multiple_s), log_mul(sender.1, multiple_r));
    lemma_log_add(
        log_mul(receiver.1, multiple_s),
        cr * (cs * (o0 + m - i0) + ns - ns),
        log_mul(sender.1, multiple_r),
        cs * (cr * (o1 - i1 - m) + nr - nr),
    );
    // the right side
    lemma_log_mul(sender.1, cs, receiver.1, cr);
    lemma_log_add(outputs.0, o0, outputs.1, o1);
    lemma_log_add(inputs.0, i0, inputs.1, i1);
    let balance = log_sub(log_add(outputs.0, outputs.1), log_add(inputs.0, inputs.1));
    lemma_log_sub(log_add(outputs.0, outputs.1), o0 + o1, log_add(inputs.0, inputs.1), i0 + i1);
    let right = log_mul(log_mul(sender.1, receiver.1), balance);
    lemma_log_mul(log_mul(sender.1, receiver.1), cs * cr, balance, (o0 + o1) - (i0 + i1));
    assert(cr * (cs * (o0 + m - i0) + ns - ns) + cs * (cr * (o1 - i1 - m) + nr - nr) == (cs * cr)
        * ((o0 + o1) - (i0 + i1))) by (nonlinear_arith);
    lemma_log_ops(log_mul(receiver.1, multiple_s), log_mul(sender.1, multiple_r));
    lemma_log_ops(log_mul(sender.1, receiver.1), balance);
    lemma_congruent_reduced(left as int, right as int);
}

/// The transfer equation says no more than the two relations do: if it holds, and
/// the challenge of the sender has the inverse `inverse` modulo the group order, as
/// every challenge but 0 has, then there is an interim commitment for which the
/// proof of the sender holds of its relation and the proof of the receiver of its
/// own.
pub proof fn lemma_transfer_equation_gives_relations(
    g: nat,
    sender: (nat, nat, nat),
    receiver: (nat, nat, nat),
    inputs: (nat, nat),
    outputs: (nat, nat),
    inverse: nat,
)
    requires
        transfer_equation(g, sender, receiver, inputs, outputs),
        log_mul(sender.1, inverse) == 1,
    ensures
        exists|interim: nat|
            proof_equation(
                g,
                sender.0,
                sender.1,
                #[trigger] sender_relation(outputs.0, interim, inputs.0),
                sender.2,
            ) && proof_equation(
                g,
                receiver.0,
                receiver.1,
                receiver_relation(outputs.1, inputs.1, interim),
                receiver.2,
            ),
{
    let (ss, cs, ns) = (sender.0 as int, sender.1 as int, sender.2 as int);
    let (sr, cr, nr) = (receiver.0 as int, receiver.1 as int, receiver.2 as int);
    let (i0, i1, o0, o1) = (inputs.0 as int, inputs.1 as int, outputs.0 as int, outputs.1 as int);
    let (gi, inv) = (g as int, inverse as int);
    let e = cs * inv;
    let b = (o0 + o1) - (i0 + i1);
    let ms = ss * gi - ns;
    let mr = sr * gi - nr;
    // the two multiples, and the outputs minus the inputs
    let multiple_s = log_sub(log_mul(sender.0, g), sender.2);
    let multiple_r = log_sub(log_mul(receiver.0, g), receiver.2);
    let balance = log_sub(log_add(outputs.0, outputs.1), log_add(inputs.0, inputs.1));
    lemma_log_mul(sender.0, ss, g, gi);
    lemma_log_sub(log_mul(sender.0, g), ss * gi, sender.2, ns);
    lemma_log_mul(receiver.0, sr, g, gi);
    lemma_log_sub(log_mul(receiver.0, g), sr * gi, receiver.2, nr);
    lemma_log_add(outputs.0, o0, outputs.1, o1);
    lemma_log_add(inputs.0, i0, inputs.1, i1);
    lemma_log_sub(log_add(outputs.0, outputs.1), o0 + o1, log_add(inputs.0, inputs.1), i0 + i1);
    // the transfer equation on integers: cr * ms + cs * mr ~ (cs * cr) * b
    lemma_log_mul(receiver.1, cr, multiple_s, ms);
    lemma_log_mul(sender.1, cs, multiple_r, mr);
    lemma_log_add(
        log_mul(receiver.1, multiple_s),
        cr * ms,
        log_mul(sender.1, multiple_r),
        cs * mr,
    );
    lemma_log_mul(sender.1, cs, receiver.1, cr);
    lemma_log_mul(log_mul(sender.1, receiver.1), cs * cr, balance, b);
    assert(congruent(cr * ms + cs * mr, (cs * cr) * b));
    // cs * inv ~ 1
    lemma_log_mul(sender.1, cs, inverse, inv);
    assert(congruent(e, 1));
    // the interim commitment: inv * ms - o0 + i0
    let relation = log_mul(inverse, multiple_s);
    let interim = log_add(log_sub(relation, outputs.0), inputs.0);
    lemma_log_mul(inverse, inv, multiple_s, ms);
    lemma_log_sub(relation, inv * ms, outputs.0, o0);
    lemma_log_add(log_sub(relation, outputs.0), inv * ms - o0, inputs.0, i0);
    let m = inv * ms - o0 + i0;
    // the proof of the sender
    let rel_s = sender_relation(outputs.0, interim, inputs.0);
    lemma_log_add(outputs.0, o0, interim, m);
    lemma_log_sub(log_add(outputs.0, interim), o0 + m, inputs.0, i0);
    lemma_log_mul(sender.1, cs, rel_s, o0 + m - i0);
    lemma_log_add(log_mul(sender.1, rel_s), cs * (o0 + m - i0), sender.2, ns);
    lemma_mul_congruent(e, 1, ms, ms);
    lemma_add_congruent(e * ms, 1 * ms, ns, ns);
    assert(cs * (o0 + m - i0) + ns == e * ms + ns) by (nonlinear_arith)
        requires
            m == inv * ms - o0 + i0,
            e == cs * inv,
    ;
    assert(1 * ms + ns == ss * gi) by (nonlinear_arith)
        requires
            ms == ss * gi - ns,
    ;
    lemma_log_ops(sender.0, g);
    lemma_log_ops(log_mul(sender.1, rel_s), sender.2);
    lemma_congruent_reduced(
        log_mul(sender.0, g) as int,
        log_add(log_mul(sender.1, rel_s), sender.2) as int,
    );
    // the proof of the receiver: multiply the transfer equation by inv
    let rel_r = receiver_relation(outputs.1, inputs.1, interim);
    lemma_log_sub(outputs.1, o1, inputs.1, i1);
    lemma_log_sub(log_sub(outputs.1, inputs.1), o1 - i1, interim, m);
    lemma_log_mul(receiver.1, cr, rel_r, o1 - i1 - m);
    lemma_log_add(log_mul(receiver.1, rel_r), cr * (o1 - i1 - m), receiver.2, nr);
    lemma_mul_congruent(inv, inv, cr * ms + cs * mr, (cs * cr) * b);
    assert(inv * (cr * ms + cs * mr) == cr * (inv * ms) + e * mr) by (nonlinear_arith)
        requires
            e == cs * inv,
    ;
    assert(inv * ((cs * cr) * b) == e * (cr * b)) by (nonlinear_arith)
        requires
            e == cs * inv,
    ;
    lemma_mul_congruent(e, 1, mr, mr);
    lemma_mul_congruent(e, 1, cr * b, cr * b);
    lemma_add_congruent(cr * (inv * ms), cr * (inv * ms), e * mr, 1 * mr);
    // so cr * (inv * ms) + mr ~ cr * b, and mr ~ cr * b - cr * (inv * ms)
    assert(congruent(cr * (inv * ms) + 1 * mr, 1 * (cr * b)));
    lemma_sub_congruent(
        cr * (inv * ms) + 1 * mr,
        1 * (cr * b),
        cr * (inv * ms),
        cr * (inv * ms),
    );
    lemma_add_congruent(
        cr * (inv * ms) + 1 * mr - cr * (inv * ms),
        1 * (cr * b) - cr * (inv * ms),
        nr,
        nr,
    );
    assert(cr * (inv * ms) + 1 * mr - cr * (inv * ms) + nr == sr * gi) by (nonlinear_arith)
        requires
            mr == sr * gi - nr,
    ;
    assert(1 * (cr * b) - cr * (inv * ms) + nr == cr * (o1 - i1 - m) + nr) by (nonlinear_arith)
        requires
            m == inv * ms - o0 + i0,
            b == (o0 + o1) - (i0 + i1),
    ;
    lemma_log_ops(receiver.0, g);
    lemma_log_ops(log_mul(receiver.1, rel_r), receiver.2);
    lemma_congruent_reduced(
        log_mul(receiver.0, g) as int,
        log_add(log_mul(receiver.1, rel_r), receiver.2) as int,
    );
}

/// The two relations of a transfer add up to the outputs minus the inputs, whatever
/// the interim commitment is.
pub proof fn lemma_interim_cancels(inputs: (nat, nat), outputs: (nat, nat), interim: nat)
    ensures
        log_add(
            sender_relation(outputs.0, interim, inputs.0),
            receiver_relation(outputs.1, inputs.1, interim),
        ) == log_sub(log_add(outputs.0, outputs.1), log_add(inputs.0, inputs.1)),
{
    let (i0, i1, o0, o1, m) = (
        inputs.0 as int,
        inputs.1 as int,
        outputs.0 as int,
        outputs.1 as int,
        interim as int,
    );
    let rel_s = sender_relation(outputs.0, interim, inputs.0);
    let rel_r = receiver_relation(outputs.1, inputs.1, interim);
    lemma_log_add(outputs.0, o0, interim, m);
    lemma_log_sub(log_add(outputs.0, interim), o0 + m, inputs.0, i0);
    lemma_log_sub(outputs.1, o1, inputs.1, i1);
    lemma_log_sub(log_sub(outputs.1, inputs.1), o1 - i1, interim, m);
    lemma_log_add(rel_s, o0 + m - i0, rel_r, o1 - i1 - m);
    lemma_log_add(outputs.0, o0, outputs.1, o1);
    lemma_log_add(inputs.0, i0, inputs.1, i1);
    lemma_log_sub(log_add(outputs.0, outputs.1), o0 + o1, log_add(inputs.0, inputs.1), i0 + i1);
    lemma_log_ops(rel_s, rel_r);
    lemma_log_ops(log_add(outputs.0, outputs.1), log_add(inputs.0, inputs.1));
    lemma_congruent_reduced(
        log_add(rel_s, rel_r) as int,
        log_sub(log_add(outputs.0, outputs.1), log_add(inputs.0, inputs.1)) as int,
    );
}

/// Where the two relations of a transfer add up to the identity, which is so when
/// the blinding factors of the two parties cancel, the inputs add up to the same
/// element as the outputs.
pub proof fn lemma_balanced_transfer(inputs: (nat, nat), outputs: (nat, nat), interim: nat)
    requires
        log_add(
            sender_relation(outputs.0, interim, inputs.0),
            receiver_relation(outputs.1, inputs.1, interim),
        ) == 0,
    ensures
        log_add(inputs.0, inputs.1) == log_add(outputs.0, outputs.1),
{
    lemma_interim_cancels(inputs, outputs, interim);
    let ins = log_add(inputs.0, inputs.1);
    let outs = log_add(outputs.0, outputs.1);
    lemma_log_ops(inputs.0, inputs.1);
    lemma_log_ops(outputs.0, outputs.1);
    lemma_log_ops(outs, ins);
    // outs - ins is congruent to 0, so outs is congruent to ins
    lemma_add_congruent(outs - ins, 0, ins as int, ins as int);
    lemma_congruent_reduced(outs as int, ins as int);
}

/// What acceptance says of a mint whose nonce is `t * G`: the challenge times the
/// output commitment minus `amount * G` is the response minus `t`, times `G`. The
/// element of which the proof holds is thus a multiple of `G` that the maker of the
/// proof can name.
pub proof fn lemma_mint_accepted_blinding(data: MintData, t: nat)
    requires
        data.accepted(),
        point_log(data.proof_knowledge.nonce@) == log_mul(t, 1),
    ensures
        log_mul(
            challenge_of(data.proof_knowledge.nonce@),
            mint_relation(point_log(data.out_comm@), data.amount as nat),
        ) == log_mul(log_sub(data.proof_knowledge.scalar.value(), t), 1),
{
    let s = data.proof_knowledge.scalar.value();
    let c = challenge_of(data.proof_knowledge.nonce@);
    let n = point_log(data.proof_knowledge.nonce@);
    let relation = mint_relation(point_log(data.out_comm@), data.amount as nat);
    let (si, ci, ti, ri) = (s as int, c as int, t as int, relation as int);
    // s * 1 is congruent to c * relation + t
    lemma_log_mul(s, si, 1, 1);
    lemma_log_mul(c, ci, relation, ri);
    lemma_log_mul(t, ti, 1, 1);
    lemma_log_add(log_mul(c, relation), ci * ri, n, ti * 1);
    // so c * relation is congruent to (s - t) * 1
    lemma_sub_congruent(si * 1, ci * ri + ti * 1, ti, ti);
    lemma_log_sub(s, si, t, ti);
    lemma_log_mul(log_sub(s, t), si - ti, 1, 1);
    assert(si * 1 - ti == (si - ti) * 1) by (nonlinear_arith);
    assert(ci * ri + ti * 1 - ti == ci * ri) by (nonlinear_arith);
    lemma_log_ops(c, relation);
    lemma_log_ops(log_sub(s, t), 1);
    lemma_congruent_reduced(log_mul(c, relation) as int, log_mul(log_sub(s, t), 1) as int);
}

/// A mint whose output commitment is `(k + amount) * G` and whose proof is made for
/// `k` is accepted, if its range proof is.
pub proof fn lemma_mint_complete(data: MintData, k: nat, t: nat)
    requires
        range_accepted(data.range_proof@, data.out_comm@),
        is_point(data.out_comm@),
        point_log(data.out_comm@) == log_add(log_mul(k, 1), log_mul(data.amount as nat, 1)),
        data.proof_knowledge.made_from(1, k, t),
    ensures
        data.accepted(),
{
    let amount = data.amount as nat;
    let out = point_log(data.out_comm@);
    let (ki, ai) = (k as int, amount as int);
    lemma_log_mul(k, ki, 1, 1);
    lemma_log_mul(amount, ai, 1, 1);
    lemma_log_add(log_mul(k, 1), ki * 1, log_mul(amount, 1), ai * 1);
    lemma_log_sub(out, ki * 1 + ai * 1, log_mul(amount, 1), ai * 1);
    lemma_log_ops(out, log_mul(amount, 1));
    lemma_log_ops(k, 1);
    lemma_congruent_reduced(mint_relation(out, amount) as int, log_mul(k, 1) as int);
    crate::proofs::lemma_proof_complete(1, k, t, challenge_of(data.proof_knowledge.nonce@));
}

/// What a `CloseAccount` instruction carries: an amount in the clear, a commitment,
/// and the opening under which the commitment is claimed to hold the amount.
#[derive(Clone, Copy, Debug, PartialEq, Eq)]
pub struct CloseAccountData {
    /// The amount that the commitment is claimed to hold.
    pub amount: u64,
    /// The commitment.
    pub commitment: PedersenComm,
    /// The opening of the commitment.
    pub opening: BorshScalar,
}

impl CloseAccountData {
    /// The payload on the wire: the amount least significant byte first, the
    /// commitment and the opening.
    pub open spec fn encoding(&self) -> Seq<u8> {
        spec_u64_to_le_bytes(self.amount) + self.commitment@ + self.opening@
    }

    /// The error with which `src` is turned away, if it is: a wrong length, or else
    /// an opening that is not a canonical scalar.
    pub open spec fn decode_error(src: Seq<u8>) -> Option<CTokenError> {
        if src.len() != 72 {
            Some(CTokenError::InvalidInstruction)
        } else if !is_canonical(src.subrange(40, 72)) {
            Some(CTokenError::InvalidProof)
        } else {
            None
        }
    }

    /// Whether `data` is the payload that `src` holds.
    pub open spec fn decodes_to(src: Seq<u8>, data: CloseAccountData) -> bool {
        &&& data.amount == spec_u64_from_le_bytes(src.subrange(0, 8))
        &&& data.commitment@ == src.subrange(8, 40)
        &&& data.opening@ == src.subrange(40, 72)
    }

    /// Writes the payload; what is written reads back as the same payload.
    pub fn try_to_vec(&self) -> (out: Vec<u8>)
        ensures
            out@ == self.encoding(),
            Self::decode_error(out@) is None,
            Self::decodes_to(out@, *self),
    {
        let mut out: Vec<u8> = Vec::new();
        push_u64(&mut out, self.amount);
        push32(&mut out, &self.commitment.to_bytes());
        push32(&mut out, &self.opening.to_bytes());
        proof {
            assert(out@ =~= self.encoding());
            lemma_close_data_round_trip(*self);
        }
        out
    }

    /// Reads a payload.
    pub fn try_from_slice(src: &[u8]) -> (out: Result<CloseAccountData, CTokenError>)
        ensures
            out matches Ok(data) ==> Self::decode_error(src@) is None && Self::decodes_to(
                src@,
                data,
            ),
            out matches Err(e) ==> Self::decode_error(src@) == Some(e),
    {
        if src.len() != 72 {
            return Err(CTokenError::InvalidInstruction);
        }
        let opening = match BorshScalar::from_canonical_bytes(read32(src, 40)) {
            Some(s) => s,
            None => {
                return Err(CTokenError::InvalidProof);
            },
        };
        Ok(
            CloseAccountData {
                amount: read_u64(src, 0),
                commitment: PedersenComm::from_bytes(read32(src, 8)),
                opening,
            },
        )
    }
}

/// A payload that was written reads back as the same payload.
pub proof fn lemma_close_data_round_trip(data: CloseAccountData)
    requires
        is_canonical(data.opening@),
    ensures
        CloseAccountData::decode_error(data.encoding()) is None,
        CloseAccountData::decodes_to(data.encoding(), data),
{
    lemma_auto_spec_u64_to_from_le_bytes();
    let e = data.encoding();
    assert(e.subrange(0, 8) =~= spec_u64_to_le_bytes(data.amount));
    assert(e.subrange(8, 40) =~= data.commitment@);
    assert(e.subrange(40, 72) =~= data.opening@);
}

/// A byte string holds at most one payload.
pub proof fn lemma_close_data_decoding_unique(
    src: Seq<u8>,
    a: CloseAccountData,
    b: CloseAccountData,
)
    requires
        CloseAccountData::decodes_to(src, a),
        CloseAccountData::decodes_to(src, b),
    ensures
        a.amount == b.amount,
        a.commitment@ == b.commitment@,
        a.opening@ == b.opening@,
{
}

/// The logarithm of the second standard generator.
pub open spec fn standard_h() -> nat {
    point_log(pedersen_h())
}

impl CryptoVerRequired for CloseAccountData {
    /// A closing is accepted when the commitment is the one to `amount` under the
    /// opening, with the standard generators.
    open spec fn accepted(&self) -> bool {
        &&& is_point(self.commitment@)
        &&& point_log(self.commitment@) == crate::crypto::commit_log(
            1,
            standard_h(),
            self.opening.value(),
            self.amount as nat,
        )
    }

    open spec fn rejection(&self) -> CTokenError {
        CTokenError::OpeningInvalid
    }

    fn verify_crypto(&self) -> (out: Result<(), CTokenError>) {
        let base = CommitmentBase::default();
        let amount = BorshScalar::from_u64(self.amount);
        if Pedersen::verify_commitment(&self.commitment, &base, &self.opening, &amount) {
            Ok(())
        } else {
            Err(CTokenError::OpeningInvalid)
        }
    }
}

} // verus!
