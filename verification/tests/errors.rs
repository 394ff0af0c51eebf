use spl_c_tokens_prototype::error::{CTokenError, ProgramError};

const ALL: [CTokenError; 9] = [
    CTokenError::AlreadyInUse,
    CTokenError::InvalidInstruction,
    CTokenError::NotRentExempt,
    CTokenError::Overflow,
    CTokenError::InvalidProof,
    CTokenError::CommitmentMismatch,
    CTokenError::OpeningInvalid,
    CTokenError::MintMismatch,
    CTokenError::OwnerMismatch,
];

#[test]
fn error_codes_count_up_from_zero() {
    for (i, e) in ALL.iter().enumerate() {
        assert_eq!(e.code(), i as u32);
        assert_eq!(CTokenError::from_code(i as u32), Some(*e));
    }
    assert_eq!(CTokenError::from_code(9), None);
    assert_eq!(CTokenError::OwnerMismatch.code(), 8);
}

#[test]
fn error_messages() {
    assert_eq!(CTokenError::AlreadyInUse.message(), "Already in use");
    assert_eq!(CTokenError::InvalidInstruction.message(), "Invalid instruction");
    assert_eq!(
        CTokenError::NotRentExempt.message(),
        "Lamport balance below rent-exempt threshold"
    );
    assert_eq!(CTokenError::Overflow.message(), "Operation overflowed");
    assert_eq!(CTokenError::InvalidProof.message(), "Invalid proof");
    assert_eq!(CTokenError::CommitmentMismatch.message(), "Commitment mismatch");
    assert_eq!(CTokenError::OpeningInvalid.message(), "Opening invalid");
    assert_eq!(CTokenError::MintMismatch.message(), "Mint mismatch");
    assert_eq!(CTokenError::OwnerMismatch.message(), "OwnerMismatch");
}

#[test]
fn token_errors_reach_the_host_under_their_code() {
    for e in ALL.iter() {
        assert_eq!(ProgramError::from(*e), ProgramError::Custom(e.code()));
    }
    assert_eq!(ProgramError::from(CTokenError::InvalidProof), ProgramError::Custom(4));
    assert_ne!(ProgramError::from(CTokenError::InvalidProof), ProgramError::InvalidAccountData);
}
