//! The errors that the token program reports.

use vstd::prelude::*;
use vstd::std_specs::convert::FromSpecImpl;

verus! {

/// Errors that the token program itself raises.
#[derive(Clone, Copy, Debug, PartialEq, Eq, Structural)]
pub enum CTokenError {
    /// The record cannot be initialized because it already is.
    AlreadyInUse,
    /// The instruction has an unknown tag or a malformed body.
    InvalidInstruction,
    /// The lamport balance is below the rent-exempt threshold.
    NotRentExempt,
    /// An addition on 64-bit amounts overflowed.
    Overflow,
    /// A cryptographic check failed, or a scalar or an element did not decode.
    InvalidProof,
    /// The commitments named in the instruction are not those of the source accounts.
    CommitmentMismatch,
    /// The opening does not open the commitment.
    OpeningInvalid,
    /// The account belongs to a different mint.
    MintMismatch,
    /// The authority is not the one recorded in the mint.
    OwnerMismatch,
}

impl CTokenError {
    /// The number under which the host sees this error.
    pub open spec fn spec_code(self) -> u32 {
        match self {
            CTokenError::AlreadyInUse => 0,
            CTokenError::InvalidInstruction => 1,
            CTokenError::NotRentExempt => 2,
            CTokenError::Overflow => 3,
            CTokenError::InvalidProof => 4,
            CTokenError::CommitmentMismatch => 5,
            CTokenError::OpeningInvalid => 6,
            CTokenError::MintMismatch => 7,
            CTokenError::OwnerMismatch => 8,
        }
    }

    /// The text that describes this error.
    pub open spec fn spec_message(self) -> Seq<char> {
        match self {
            CTokenError::AlreadyInUse => "Already in use"@,
            CTokenError::InvalidInstruction => "Invalid instruction"@,
            CTokenError::NotRentExempt => "Lamport balance below rent-exempt threshold"@,
            CTokenError::Overflow => "Operation overflowed"@,
            CTokenError::InvalidProof => "Invalid proof"@,
            CTokenError::CommitmentMismatch => "Commitment mismatch"@,
            CTokenError::OpeningInvalid => "Opening invalid"@,
            CTokenError::MintMismatch => "Mint mismatch"@,
            CTokenError::OwnerMismatch => "OwnerMismatch"@,
        }
    }

    /// The number under which the host sees this error.
    pub fn code(&self) -> (c: u32)
        ensures
            c == self.spec_code(),
    {
        match self {
            CTokenError::AlreadyInUse => 0,
            CTokenError::InvalidInstruction => 1,
            CTokenError::NotRentExempt => 2,
            CTokenError::Overflow => 3,
            CTokenError::InvalidProof => 4,
            CTokenError::CommitmentMismatch => 5,
            CTokenError::OpeningInvalid => 6,
            CTokenError::MintMismatch => 7,
            CTokenError::OwnerMismatch => 8,
        }
    }

    /// The error with the given number, if there is one.
    pub fn from_code(c: u32) -> (e: Option<CTokenError>)
        ensures
            e.is_some() == (c <= 8),
            e matches Some(x) ==> x.spec_code() == c,
    {
        match c {
            0 => Some(CTokenError::AlreadyInUse),
            1 => Some(CTokenError::InvalidInstruction),
            2 => Some(CTokenError::NotRentExempt),
            3 => Some(CTokenError::Overflow),
            4 => Some(CTokenError::InvalidProof),
            5 => Some(CTokenError::CommitmentMismatch),
            6 => Some(CTokenError::OpeningInvalid),
            7 => Some(CTokenError::MintMismatch),
            8 => Some(CTokenError::OwnerMismatch),
            _ => None,
        }
    }

    /// The text that describes this error.
    pub fn message(&self) -> (m: &'static str)
        ensures
            m@ == self.spec_message(),
    {
        match self {
            CTokenError::AlreadyInUse => "Already in use",
            CTokenError::InvalidInstruction => "Invalid instruction",
            CTokenError::NotRentExempt => "Lamport balance below rent-exempt threshold",
            CTokenError::Overflow => "Operation overflowed",
            CTokenError::InvalidProof => "Invalid proof",
            CTokenError::CommitmentMismatch => "Commitment mismatch",
            CTokenError::OpeningInvalid => "Opening invalid",
            CTokenError::MintMismatch => "Mint mismatch",
            CTokenError::OwnerMismatch => "OwnerMismatch",
        }
    }
}

/// Errors as the host receives them: those of the token program under their number,
/// and those raised while the accounts of an instruction are fetched and decoded.
#[derive(Clone, Copy, Debug, PartialEq, Eq, Structural)]
pub enum ProgramError {
    /// An error of the token program, by its number.
    Custom(u32),
    /// The data of an account is not a record of the expected kind.
    InvalidAccountData,
    /// The instruction names fewer accounts than it needs.
    NotEnoughAccountKeys,
    /// The record exists but has not been initialized.
    UninitializedAccount,
}

impl From<CTokenError> for ProgramError {
    fn from(e: CTokenError) -> (p: ProgramError) {
        ProgramError::Custom(e.code())
    }
}

impl FromSpecImpl<CTokenError> for ProgramError {
    open spec fn obeys_from_spec() -> bool {
        true
    }

    open spec fn from_spec(e: CTokenError) -> ProgramError {
        ProgramError::Custom(e.spec_code())
    }
}

/// What an instruction handler returns.
pub type ProgramResult = Result<(), ProgramError>;

/// The host-level form of a token error.
pub open spec fn token_error(e: CTokenError) -> ProgramError {
    ProgramError::Custom(e.spec_code())
}

/// Two errors with the same number are the same error.
pub proof fn lemma_code_is_injective(a: CTokenError, b: CTokenError)
    requires
        a.spec_code() == b.spec_code(),
    ensures
        a == b,
{
}

} // verus!
