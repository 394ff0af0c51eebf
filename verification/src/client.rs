//! The client side of a transfer: the sender and the receiver build the payload
//! between them, in two steps.
//!
//! The sender commits to what it keeps and to the amount it passes on, the interim
//! commitment, whose opening it reveals to the receiver. The receiver commits to its
//! new balance. Each proves knowledge of the blinding factor of its own relation; the
//! interim commitment enters the two relations with opposite signs and never leaves
//! the two clients.

use vstd::prelude::*;
use crate::crypto::{commit_log, CommitmentBase, PedersenComm, RangeProof};
use crate::error::CTokenError;
use crate::modular::{
    lemma_congruent_reduced, lemma_log_add, lemma_log_mul, lemma_log_ops, lemma_log_sub,
};
use crate::proofs::{challenge_of, Pedersen, ProofKnowledge};
use crate::ristretto::{is_point, log_add, log_mul, log_sub, point_log};
use crate::scalar::BorshScalar;
use crate::txdata::{
    lemma_mint_complete, lemma_relations_give_transfer_equation, range_accepted,
    receiver_relation, sender_relation, CryptoVerRequired, MintData, TransferData,
};

verus! {

/// The blinding factor of the relation of the sender: the opening of what it keeps,
/// plus the opening of the interim commitment, minus the opening of its source.
pub open spec fn sender_blinding(source: nat, destination: nat, interim: nat) -> nat {
    log_sub(log_add(destination, interim), source)
}

/// The blinding factor of the relation of the receiver: the opening of its new
/// balance, minus the opening of its source, minus the opening of the interim
/// commitment.
pub open spec fn receiver_blinding(source: nat, destination: nat, interim: nat) -> nat {
    log_sub(log_sub(destination, source), interim)
}

/// Builds the payload of a mint of `amount` from the blinding factor `blinding` and
/// the nonce scalar `nonce`: the output commitment is `(blinding + amount) * G`, and
/// the proof is made for `blinding`. The program accepts the payload.
pub fn mint_client_with(amount: u64, blinding: &BorshScalar, nonce: &BorshScalar) -> (data:
    MintData)
    ensures
        data.amount == amount,
        is_point(data.out_comm@),
        point_log(data.out_comm@) == log_add(
            log_mul(blinding.value(), 1),
            log_mul(amount as nat, 1),
        ),
        data.range_proof@ == Seq::<u8>::empty(),
        data.proof_knowledge.made_from(1, blinding.value(), nonce.value()),
        data.accepted(),
{
    let base = CommitmentBase::default();
    let out = base.G.mul(blinding).add(&base.G.mul(&BorshScalar::from_u64(amount)));
    let data = MintData {
        amount,
        out_comm: PedersenComm::new(out.compress()),
        range_proof: RangeProof::empty(),
        proof_knowledge: ProofKnowledge::prove_with_nonce(&base, blinding, nonce),
    };
    proof {
        lemma_mint_complete(data, blinding.value(), nonce.value());
    }
    data
}

/// Builds the payload of a mint of `amount` with a freshly drawn blinding factor and
/// nonce. The program accepts the payload. It is meant for trying the program out: a
/// real mint client should run in constant time.
pub fn sample_mint_client_for_test(amount: u64) -> (data: MintData)
    ensures
        data.amount == amount,
        data.accepted(),
{
    let blinding = BorshScalar::random();
    let nonce = BorshScalar::random();
    mint_client_with(amount, &blinding, &nonce)
}

/// What the sender hands to the receiver.
#[derive(Clone, Debug, PartialEq, Eq)]
pub struct SenderMessage {
    /// The amount that changes hands.
    pub amount: u64,
    /// The commitment of the source account of the sender.
    pub source_comm: PedersenComm,
    /// The commitment to what the sender keeps.
    pub destination_comm: PedersenComm,
    /// The range proof for what the sender keeps.
    pub range_proof: RangeProof,
    /// The interim commitment, to the amount that changes hands.
    pub interim_comm: PedersenComm,
    /// The opening of the interim commitment.
    pub interim_opening: BorshScalar,
    /// The proof of knowledge of the sender.
    pub proof_knowledge: ProofKnowledge,
}

impl SenderMessage {
    /// Whether the message is what a sender makes that holds `source_value` under
    /// the opening `source_opening`, keeps the rest under `destination_opening`, and
    /// draws the nonce scalar `nonce`.
    pub open spec fn made_from(
        &self,
        base: CommitmentBase,
        source_opening: nat,
        source_value: nat,
        destination_opening: nat,
        nonce: nat,
    ) -> bool {
        &&& self.amount <= source_value
        &&& base.opens(self.source_comm@, source_opening, source_value)
        &&& base.opens(
            self.destination_comm@,
            destination_opening,
            (source_value - self.amount) as nat,
        )
        &&& base.opens(self.interim_comm@, self.interim_opening.value(), self.amount as nat)
        &&& self.proof_knowledge.made_from(
            base.G.log(),
            sender_blinding(source_opening, destination_opening, self.interim_opening.value()),
            nonce,
        )
    }

    /// Whether the receiver can rely on the message: the interim commitment opens to
    /// the amount, the range proof is accepted, the three commitments decode, and
    /// the proof of knowledge holds of the relation of the sender.
    pub open spec fn sound(&self, base: CommitmentBase) -> bool {
        &&& base.opens(self.interim_comm@, self.interim_opening.value(), self.amount as nat)
        &&& RangeProof::accepts(
            self.range_proof@,
            self.destination_comm@,
            64,
            base.G@,
            base.H@,
            Seq::<u8>::empty(),
        )
        &&& is_point(self.source_comm@)
        &&& is_point(self.destination_comm@)
        &&& self.proof_knowledge.accepts(
            base.G.log(),
            sender_relation(
                point_log(self.destination_comm@),
                point_log(self.interim_comm@),
                point_log(self.source_comm@),
            ),
        )
    }

    /// Checks whether the receiver can rely on the message.
    pub fn verify(&self, base: &CommitmentBase) -> (out: Result<(), CTokenError>)
        ensures
            out.is_ok() == self.sound(*base),
            out matches Err(e) ==> e == CTokenError::InvalidProof,
    {
        let amount = BorshScalar::from_u64(self.amount);
        if !Pedersen::verify_commitment(&self.interim_comm, base, &self.interim_opening, &amount) {
            return Err(CTokenError::InvalidProof);
        }
        let label: [u8; 0] = [];
        assert(label@ =~= Seq::<u8>::empty());
        if !self.range_proof.verify(&self.destination_comm, 64, base, label.as_slice()) {
            return Err(CTokenError::InvalidProof);
        }
        let decoded = (
            self.source_comm.getComm().decompress(),
            self.destination_comm.getComm().decompress(),
            self.interim_comm.getComm().decompress(),
        );
        match decoded {
            (Some(source), Some(destination), Some(interim)) => {
                let relation = destination.add(&interim).sub(&source);
                if self.proof_knowledge.verify(base, &relation) {
                    Ok(())
                } else {
                    Err(CTokenError::InvalidProof)
                }
            },
            _ => Err(CTokenError::InvalidProof),
        }
    }
}

/// The step of the sender, with the three scalars it would draw given to it: the
/// opening of what it keeps, the opening of the interim commitment, and the nonce
/// scalar of its proof. Fails if the amount exceeds what the source holds.
pub fn sender_step_with(
    base: &CommitmentBase,
    source_comm: &PedersenComm,
    source_opening: &BorshScalar,
    source_value: u64,
    amount: u64,
    drawn: (&BorshScalar, &BorshScalar, &BorshScalar),
) -> (out: Result<SenderMessage, CTokenError>)
    ensures
        out.is_ok() == (amount <= source_value),
        out matches Err(e) ==> e == CTokenError::Overflow,
        out matches Ok(message) ==> {
            &&& message.amount == amount
            &&& message.source_comm@ == source_comm@
            &&& message.range_proof@ == Seq::<u8>::empty()
            &&& message.interim_opening@ == drawn.1@
            &&& base.opens(
                message.destination_comm@,
                drawn.0.value(),
                (source_value - amount) as nat,
            )
            &&& base.opens(message.interim_comm@, drawn.1.value(), amount as nat)
            &&& message.proof_knowledge.made_from(
                base.G.log(),
                sender_blinding(source_opening.value(), drawn.0.value(), drawn.1.value()),
                drawn.2.value(),
            )
            &&& base.opens(source_comm@, source_opening.value(), source_value as nat)
                ==> message.made_from(
                *base,
                source_opening.value(),
                source_value as nat,
                drawn.0.value(),
                drawn.2.value(),
            ) && message.sound(*base)
        },
{
    if amount > source_value {
        return Err(CTokenError::Overflow);
    }
    let (destination_opening, interim_opening, nonce) = drawn;
    let kept = BorshScalar::from_u64(source_value - amount);
    let passed = BorshScalar::from_u64(amount);
    let destination_comm = Pedersen::commit_with(base, &kept, destination_opening);
    let interim_comm = Pedersen::commit_with(base, &passed, interim_opening);
    let blinding = destination_opening.add(interim_opening).sub(source_opening);
    let proof_knowledge = ProofKnowledge::prove_with_nonce(base, &blinding, nonce);
    let message = SenderMessage {
        amount,
        source_comm: *source_comm,
        destination_comm,
        range_proof: RangeProof::empty(),
        interim_comm,
        interim_opening: *interim_opening,
        proof_knowledge,
    };
    proof {
        if base.opens(source_comm@, source_opening.value(), source_value as nat) {
            lemma_sender_relation(
                base.G.log(),
                base.H.log(),
                source_opening.value(),
                source_value as nat,
                destination_opening.value(),
                interim_opening.value(),
                amount as nat,
            );
        }
    }
    Ok(message)
}

/// The step of the sender, with freshly drawn scalars. Returns the message for the
/// receiver and the opening of what the sender keeps.
pub fn sender_step(
    base: &CommitmentBase,
    source_comm: &PedersenComm,
    source_opening: &BorshScalar,
    source_value: u64,
    amount: u64,
) -> (out: Result<(SenderMessage, BorshScalar), CTokenError>)
    ensures
        out.is_ok() == (amount <= source_value),
        out matches Err(e) ==> e == CTokenError::Overflow,
        out matches Ok((message, opening)) ==> {
            &&& message.amount == amount
            &&& message.source_comm@ == source_comm@
            &&& message.range_proof@ == Seq::<u8>::empty()
            &&& base.opens(
                message.destination_comm@,
                opening.value(),
                (source_value - amount) as nat,
            )
            &&& base.opens(
                message.interim_comm@,
                message.interim_opening.value(),
                amount as nat,
            )
            &&& base.opens(source_comm@, source_opening.value(), source_value as nat)
                ==> message.sound(*base) && exists|nonce: nat| #[trigger]
                message.made_from(
                    *base,
                    source_opening.value(),
                    source_value as nat,
                    opening.value(),
                    nonce,
                )
        },
{
    let destination_opening = BorshScalar::random();
    let interim_opening = BorshScalar::random();
    let nonce = BorshScalar::random();
    match sender_step_with(
        base,
        source_comm,
        source_opening,
        source_value,
        amount,
        (&destination_opening, &interim_opening, &nonce),
    ) {
        Ok(message) => {
            proof {
                assert(message.interim_opening.value() == interim_opening.value());
                if base.opens(source_comm@, source_opening.value(), source_value as nat) {
                    assert(message.sound(*base));
                    assert(message.made_from(
                        *base,
                        source_opening.value(),
                        source_value as nat,
                        destination_opening.value(),
                        nonce.value(),
                    ));
                    assert(exists|n: nat| #[trigger]
                        message.made_from(
                            *base,
                            source_opening.value(),
                            source_value as nat,
                            destination_opening.value(),
                            n,
                        ));
                }
            }
            Ok((message, destination_opening))
        },
        Err(e) => Err(e),
    }
}

/// The step of the receiver, with the two scalars it would draw given to it: the
/// opening of its new balance and the nonce scalar of its proof. Fails if the new
/// balance does not fit 64 bits. The payload names the sender first and the receiver
/// second; if the message of the sender was made as prescribed and the source of the
/// receiver opens as stated, the program accepts it.
pub fn receiver_step_with(
    base: &CommitmentBase,
    source_comm: &PedersenComm,
    source_opening: &BorshScalar,
    source_value: u64,
    message: &SenderMessage,
    drawn: (&BorshScalar, &BorshScalar),
) -> (out: Result<TransferData, CTokenError>)
    ensures
        out.is_ok() == (source_value + message.amount <= u64::MAX),
        out matches Err(e) ==> e == CTokenError::Overflow,
        out matches Ok(data) ==> {
            &&& data.in_comms.0@ == message.source_comm@
            &&& data.in_comms.1@ == source_comm@
            &&& data.out_comms.0@ == message.destination_comm@
            &&& data.range_proofs.0@ == message.range_proof@
            &&& data.range_proofs.1@ == Seq::<u8>::empty()
            &&& data.proofs_knowledge.0 == message.proof_knowledge
            &&& base.opens(
                data.out_comms.1@,
                drawn.0.value(),
                (source_value + message.amount) as nat,
            )
            &&& data.proofs_knowledge.1.made_from(
                base.G.log(),
                receiver_blinding(
                    source_opening.value(),
                    drawn.0.value(),
                    message.interim_opening.value(),
                ),
                drawn.1.value(),
            )
            &&& base.is_standard() && honest_transfer(
                *base,
                *message,
                source_comm@,
                source_opening.value(),
                source_value as nat,
            ) ==> data.accepted()
        },
{
    let balance = match source_value.checked_add(message.amount) {
        Some(balance) => balance,
        None => {
            return Err(CTokenError::Overflow);
        },
    };
    let (destination_opening, nonce) = drawn;
    let destination_comm = Pedersen::commit_with(
        base,
        &BorshScalar::from_u64(balance),
        destination_opening,
    );
    let blinding = destination_opening.sub(source_opening).sub(&message.interim_opening);
    let proof_knowledge = ProofKnowledge::prove_with_nonce(base, &blinding, nonce);
    let data = TransferData {
        in_comms: (message.source_comm, *source_comm),
        out_comms: (message.destination_comm, destination_comm),
        range_proofs: (message.range_proof.duplicate(), RangeProof::empty()),
        proofs_knowledge: (message.proof_knowledge, proof_knowledge),
    };
    proof {
        if base.is_standard() && honest_transfer(
            *base,
            *message,
            source_comm@,
            source_opening.value(),
            source_value as nat,
        ) {
            lemma_honest_transfer_accepted(
                *base,
                *message,
                source_opening.value(),
                source_value as nat,
                drawn.0.value(),
                drawn.1.value(),
                data,
            );
        }
    }
    Ok(data)
}

/// The step of the receiver, with freshly drawn scalars. Returns the payload and the
/// opening of the new balance of the receiver.
pub fn receiver_step(
    base: &CommitmentBase,
    source_comm: &PedersenComm,
    source_opening: &BorshScalar,
    source_value: u64,
    message: &SenderMessage,
) -> (out: Result<(TransferData, BorshScalar), CTokenError>)
    ensures
        out.is_ok() == (source_value + message.amount <= u64::MAX),
        out matches Err(e) ==> e == CTokenError::Overflow,
        out matches Ok((data, opening)) ==> {
            &&& data.in_comms.0@ == message.source_comm@
            &&& data.in_comms.1@ == source_comm@
            &&& data.out_comms.0@ == message.destination_comm@
            &&& data.range_proofs.0@ == message.range_proof@
            &&& data.range_proofs.1@ == Seq::<u8>::empty()
            &&& data.proofs_knowledge.0 == message.proof_knowledge
            &&& base.opens(
                data.out_comms.1@,
                opening.value(),
                (source_value + message.amount) as nat,
            )
            &&& base.is_standard() && honest_transfer(
                *base,
                *message,
                source_comm@,
                source_opening.value(),
                source_value as nat,
            ) ==> data.accepted()
        },
{
    let destination_opening = BorshScalar::random();
    let nonce = BorshScalar::random();
    match receiver_step_with(
        base,
        source_comm,
        source_opening,
        source_value,
        message,
        (&destination_opening, &nonce),
    ) {
        Ok(data) => Ok((data, destination_opening)),
        Err(e) => Err(e),
    }
}

/// Whether both parties of a transfer are honest: the message of the sender was made
/// as prescribed, from some source and scalars, and the source commitment of the
/// receiver opens to `source_value` under `source_opening`.
pub open spec fn honest_transfer(
    base: CommitmentBase,
    message: SenderMessage,
    source_comm: Seq<u8>,
    source_opening: nat,
    source_value: nat,
) -> bool {
    &&& exists|opening: nat, value: nat, kept: nat, nonce: nat| #[trigger]
        message.made_from(base, opening, value, kept, nonce)
    &&& base.opens(source_comm, source_opening, source_value)
}

/// The relation of the sender is its blinding factor times `G`: the committed
/// values cancel, and the openings add up to the blinding factor.
pub proof fn lemma_sender_relation(
    g: nat,
    h: nat,
    source_opening: nat,
    source_value: nat,
    destination_opening: nat,
    interim_opening: nat,
    amount: nat,
)
    requires
        amount <= source_value,
    ensures
        sender_relation(
            commit_log(g, h, destination_opening, (source_value - amount) as nat),
            commit_log(g, h, interim_opening, amount),
            commit_log(g, h, source_opening, source_value),
        ) == log_mul(sender_blinding(source_opening, destination_opening, interim_opening), g),
{
    let (gi, hi) = (g as int, h as int);
    let (rs, rd, ri) = (source_opening as int, destination_opening as int, interim_opening as int);
    let (v, a) = (source_value as int, amount as int);
    let kept = (source_value - amount) as nat;
    let out = commit_log(g, h, destination_opening, kept);
    let interim = commit_log(g, h, interim_opening, amount);
    let input = commit_log(g, h, source_opening, source_value);
    crate::crypto::lemma_commit_log(g, h, destination_opening, kept);
    crate::crypto::lemma_commit_log(g, h, interim_opening, amount);
    crate::crypto::lemma_commit_log(g, h, source_opening, source_value);
    lemma_log_add(out, rd * gi + (v - a) * hi, interim, ri * gi + a * hi);
    lemma_log_sub(
        log_add(out, interim),
        (rd * gi + (v - a) * hi) + (ri * gi + a * hi),
        input,
        rs * gi + v * hi,
    );
    let blinding = sender_blinding(source_opening, destination_opening, interim_opening);
    lemma_log_add(destination_opening, rd, interim_opening, ri);
    lemma_log_sub(log_add(destination_opening, interim_opening), rd + ri, source_opening, rs);
    lemma_log_mul(blinding, rd + ri - rs, g, gi);
    assert(((rd * gi + (v - a) * hi) + (ri * gi + a * hi)) - (rs * gi + v * hi) == (rd + ri - rs)
        * gi) by (nonlinear_arith);
    lemma_log_ops(log_add(out, interim), input);
    lemma_log_ops(blinding, g);
    lemma_congruent_reduced(
        sender_relation(out, interim, input) as int,
        log_mul(blinding, g) as int,
    );
}

/// The relation of the receiver is its blinding factor times `G`.
pub proof fn lemma_receiver_relation(
    g: nat,
    h: nat,
    source_opening: nat,
    source_value: nat,
    destination_opening: nat,
    interim_opening: nat,
    amount: nat,
)
    ensures
        receiver_relation(
            commit_log(g, h, destination_opening, source_value + amount),
            commit_log(g, h, source_opening, source_value),
            commit_log(g, h, interim_opening, amount),
        ) == log_mul(receiver_blinding(source_opening, destination_opening, interim_opening), g),
{
    let (gi, hi) = (g as int, h as int);
    let (rs, rd, ri) = (source_opening as int, destination_opening as int, interim_opening as int);
    let (v, a) = (source_value as int, amount as int);
    let out = commit_log(g, h, destination_opening, source_value + amount);
    let interim = commit_log(g, h, interim_opening, amount);
    let input = commit_log(g, h, source_opening, source_value);
    crate::crypto::lemma_commit_log(g, h, destination_opening, source_value + amount);
    crate::crypto::lemma_commit_log(g, h, interim_opening, amount);
    crate::crypto::lemma_commit_log(g, h, source_opening, source_value);
    lemma_log_sub(out, rd * gi + (v + a) * hi, input, rs * gi + v * hi);
    lemma_log_sub(
        log_sub(out, input),
        (rd * gi + (v + a) * hi) - (rs * gi + v * hi),
        interim,
        ri * gi + a * hi,
    );
    let blinding = receiver_blinding(source_opening, destination_opening, interim_opening);
    lemma_log_sub(destination_opening, rd, source_opening, rs);
    lemma_log_sub(log_sub(destination_opening, source_opening), rd - rs, interim_opening, ri);
    lemma_log_mul(blinding, rd - rs - ri, g, gi);
    assert(((rd * gi + (v + a) * hi) - (rs * gi + v * hi)) - (ri * gi + a * hi) == (rd - rs - ri)
        * gi) by (nonlinear_arith);
    lemma_log_ops(log_sub(out, input), interim);
    lemma_log_ops(blinding, g);
    lemma_congruent_reduced(
        receiver_relation(out, input, interim) as int,
        log_mul(blinding, g) as int,
    );
}

/// A transfer that both parties made as prescribed, under the standard generators,
/// is accepted.
pub proof fn lemma_honest_transfer_accepted(
    base: CommitmentBase,
    message: SenderMessage,
    source_opening: nat,
    source_value: nat,
    destination_opening: nat,
    nonce: nat,
    data: TransferData,
)
    requires
        base.is_standard(),
        honest_transfer(base, message, data.in_comms.1@, source_opening, source_value),
        data.in_comms.0@ == message.source_comm@,
        data.out_comms.0@ == message.destination_comm@,
        data.proofs_knowledge.0 == message.proof_knowledge,
        base.opens(
            data.out_comms.1@,
            destination_opening,
            source_value + message.amount as nat,
        ),
        data.proofs_knowledge.1.made_from(
            1,
            receiver_blinding(
                source_opening,
                destination_opening,
                message.interim_opening.value(),
            ),
            nonce,
        ),
        range_accepted(data.range_proofs.0@, data.out_comms.0@),
        range_accepted(data.range_proofs.1@, data.out_comms.1@),
    ensures
        data.accepted(),
{
    let (opening, value, kept, sender_nonce) = choose|
        opening: nat,
        value: nat,
        kept: nat,
        sender_nonce: nat,
    | #[trigger]
        message.made_from(base, opening, value, kept, sender_nonce);
    let h = base.H.log();
    let amount = message.amount as nat;
    let interim_opening = message.interim_opening.value();
    let sender = data.proofs_knowledge.0;
    let receiver = data.proofs_knowledge.1;
    let blinding_s = sender_blinding(opening, kept, interim_opening);
    let blinding_r = receiver_blinding(source_opening, destination_opening, interim_opening);
    lemma_sender_relation(1, h, opening, value, kept, interim_opening, amount);
    lemma_receiver_relation(
        1,
        h,
        source_opening,
        source_value,
        destination_opening,
        interim_opening,
        amount,
    );
    crate::proofs::lemma_proof_complete(1, blinding_s, sender_nonce, challenge_of(sender.nonce@));
    crate::proofs::lemma_proof_complete(1, blinding_r, nonce, challenge_of(receiver.nonce@));
    lemma_relations_give_transfer_equation(
        1,
        (sender.scalar.value(), challenge_of(sender.nonce@), point_log(sender.nonce@)),
        (receiver.scalar.value(), challenge_of(receiver.nonce@), point_log(receiver.nonce@)),
        (point_log(data.in_comms.0@), point_log(data.in_comms.1@)),
        (point_log(data.out_comms.0@), point_log(data.out_comms.1@)),
        point_log(message.interim_comm@),
    );
}

} // verus!
