//! The instructions of the program: their form on the wire, and how a client builds
//! one together with the list of accounts that it works on.

use vstd::prelude::*;
use vstd::slice::slice_subrange;
use crate::bytes::push32;
use crate::error::{token_error, CTokenError, ProgramError};
use crate::pubkey::Pubkey;
use crate::txdata::{CloseAccountData, MintData, TransferData};

verus! {

/// The key of the account in which the host publishes its rent parameters,
/// `SysvarRent111111111111111111111111111111111`.
pub open spec fn rent_sysvar_key() -> Seq<u8> {
    seq![
        6u8, 167u8, 213u8, 23u8, 25u8, 44u8, 92u8, 81u8, 33u8, 140u8, 201u8, 76u8, 61u8, 74u8,
        241u8, 127u8, 88u8, 218u8, 238u8, 8u8, 155u8, 161u8, 253u8, 68u8, 227u8, 219u8, 217u8,
        138u8, 0u8, 0u8, 0u8, 0u8,
    ]
}

/// Calls `solana_program::sysvar::rent::id`, which returns the key that the text
/// `SysvarRent111111111111111111111111111111111` denotes.
#[verifier::external_body]
fn solana_rent_id() -> (key: [u8; 32])
    ensures
        key@ == rent_sysvar_key(),
{
    solana_program::sysvar::rent::id().to_bytes()
}

/// The key of the account in which the host publishes its rent parameters.
pub fn rent_sysvar_id() -> (key: Pubkey)
    ensures
        key@ == rent_sysvar_key(),
{
    Pubkey::new_from_array(solana_rent_id())
}

/// The key of this program, `CToken1111111111111111111111111111111111111`.
pub open spec fn program_key() -> Seq<u8> {
    seq![
        2u8, 239u8, 178u8, 217u8, 114u8, 211u8, 124u8, 222u8, 8u8, 208u8, 39u8, 100u8, 57u8, 186u8,
        53u8, 183u8, 172u8, 119u8, 7u8, 108u8, 162u8, 192u8, 248u8, 149u8, 135u8, 70u8, 165u8,
        224u8, 0u8, 0u8, 0u8, 0u8,
    ]
}

/// The key of this program.
pub fn id() -> (key: Pubkey)
    ensures
        key@ == program_key(),
{
    let key = Pubkey::new_from_array(
        [
            2, 239, 178, 217, 114, 211, 124, 222, 8, 208, 39, 100, 57, 186, 53, 183, 172, 119, 7,
            108, 162, 192, 248, 149, 135, 70, 165, 224, 0, 0, 0, 0,
        ],
    );
    assert(key@ =~= program_key());
    key
}

/// Whether `key` is the key of this program.
pub fn check_id(key: &Pubkey) -> (same: bool)
    ensures
        same == (key@ == program_key()),
{
    key.equals(&id())
}

/// The instructions of the program.
#[derive(Debug, PartialEq, Eq)]
pub enum CTokenInstruction {
    /// Initializes a new mint.
    ///
    /// Accounts: the mint to initialize (writable), the rent sysvar.
    InitializeMint {
        /// The key that may mint.
        mint_authority: Pubkey,
    },
    /// Mints new tokens into a fresh account.
    ///
    /// Accounts: the mint (writable), the account to mint to (writable), the minting
    /// authority (signer), the rent sysvar.
    Mint {
        /// The payload for the new tokens.
        mint_data: MintData,
    },
    /// Moves tokens from two source accounts into two fresh destination accounts.
    ///
    /// Accounts: the mint, the two sources (writable), the two destinations
    /// (writable), the rent sysvar.
    Transfer {
        /// The payload of the transfer.
        transfer_data: TransferData,
    },
    /// Closes an account whose commitment is opened.
    ///
    /// Accounts: the account to close (writable), the account that receives its
    /// lamports (writable).
    CloseAccount {
        /// The payload of the closing.
        close_data: CloseAccountData,
    },
}

impl CTokenInstruction {
    /// The byte that leads the instruction on the wire.
    pub open spec fn tag(&self) -> u8 {
        match self {
            CTokenInstruction::InitializeMint { .. } => 0,
            CTokenInstruction::Mint { .. } => 1,
            CTokenInstruction::Transfer { .. } => 2,
            CTokenInstruction::CloseAccount { .. } => 3,
        }
    }

    /// What follows the tag on the wire.
    pub open spec fn body(&self) -> Seq<u8> {
        match self {
            CTokenInstruction::InitializeMint { mint_authority } => mint_authority@,
            CTokenInstruction::Mint { mint_data } => mint_data.encoding(),
            CTokenInstruction::Transfer { transfer_data } => transfer_data.encoding(),
            CTokenInstruction::CloseAccount { close_data } => close_data.encoding(),
        }
    }

    /// The instruction on the wire: the tag, then the body.
    pub open spec fn encoding(&self) -> Seq<u8> {
        seq![self.tag()] + self.body()
    }

    /// Whether the range proofs inside the instruction have lengths that fit their
    /// counts.
    pub open spec fn packable(&self) -> bool {
        match self {
            CTokenInstruction::Mint { mint_data } => mint_data.range_proof@.len() <= u32::MAX,
            CTokenInstruction::Transfer { transfer_data } => transfer_data.fits(),
            _ => true,
        }
    }

    /// The error with which `input` is turned away, if it is: no tag, an unknown
    /// tag, or a body that its payload type turns away. An `InitializeMint` needs 32
    /// bytes of body and ignores what follows them.
    pub open spec fn decode_error(input: Seq<u8>) -> Option<CTokenError> {
        if input.len() == 0 {
            Some(CTokenError::InvalidInstruction)
        } else {
            let rest = input.skip(1);
            if input[0] == 0 {
                if rest.len() >= 32 {
                    None
                } else {
                    Some(CTokenError::InvalidInstruction)
                }
            } else if input[0] == 1 {
                MintData::decode_error(rest)
            } else if input[0] == 2 {
                TransferData::decode_error(rest)
            } else if input[0] == 3 {
                CloseAccountData::decode_error(rest)
            } else {
                Some(CTokenError::InvalidInstruction)
            }
        }
    }

    /// Whether `instruction` is the one that `input` holds.
    pub open spec fn decodes_to(input: Seq<u8>, instruction: CTokenInstruction) -> bool {
        let rest = input.skip(1);
        &&& input.len() > 0
        &&& input[0] == instruction.tag()
        &&& match instruction {
            CTokenInstruction::InitializeMint { mint_authority } => mint_authority@
                == rest.subrange(0, 32),
            CTokenInstruction::Mint { mint_data } => MintData::decodes_to(rest, mint_data),
            CTokenInstruction::Transfer { transfer_data } => TransferData::decodes_to(
                rest,
                transfer_data,
            ),
            CTokenInstruction::CloseAccount { close_data } => CloseAccountData::decodes_to(
                rest,
                close_data,
            ),
        }
    }

    /// Reads an instruction.
    pub fn unpack(input: &[u8]) -> (out: Result<CTokenInstruction, ProgramError>)
        ensures
            out matches Ok(instruction) ==> Self::decode_error(input@) is None
                && Self::decodes_to(input@, instruction),
            out matches Err(e) ==> Self::decode_error(input@) matches Some(t) && e
                == token_error(t),
    {
        if input.len() == 0 {
            return Err(ProgramError::from(CTokenError::InvalidInstruction));
        }
        let tag = input[0];
        let rest = slice_subrange(input, 1, input.len());
        assert(rest@ == input@.skip(1));
        if tag == 0 {
            match Self::unpack_pubkey(rest) {
                Ok((mint_authority, _)) => Ok(CTokenInstruction::InitializeMint { mint_authority }),
                Err(e) => Err(e),
            }
        } else if tag == 1 {
            match MintData::try_from_slice(rest) {
                Ok(mint_data) => Ok(CTokenInstruction::Mint { mint_data }),
                Err(e) => Err(ProgramError::from(e)),
            }
        } else if tag == 2 {
            match TransferData::try_from_slice(rest) {
                Ok(transfer_data) => Ok(CTokenInstruction::Transfer { transfer_data }),
                Err(e) => Err(ProgramError::from(e)),
            }
        } else if tag == 3 {
            match CloseAccountData::try_from_slice(rest) {
                Ok(close_data) => Ok(CTokenInstruction::CloseAccount { close_data }),
                Err(e) => Err(ProgramError::from(e)),
            }
        } else {
            Err(ProgramError::from(CTokenError::InvalidInstruction))
        }
    }

    /// Writes the instruction; what is written reads back as the same instruction.
    pub fn pack(&self) -> (out: Vec<u8>)
        requires
            self.packable(),
        ensures
            out@ == self.encoding(),
            Self::decode_error(out@) is None,
            Self::decodes_to(out@, *self),
    {
        let mut buf: Vec<u8> = Vec::new();
        match self {
            CTokenInstruction::InitializeMint { mint_authority } => {
                buf.push(0);
                push32(&mut buf, &mint_authority.0);
                assert(buf@ =~= self.encoding());
                assert(buf@.skip(1) =~= mint_authority@);
                assert(buf@.skip(1).subrange(0, 32) =~= mint_authority@);
            },
            CTokenInstruction::Mint { mint_data } => {
                buf.push(1);
                let body = mint_data.encode();
                buf.extend_from_slice(body.as_slice());
                assert(buf@.skip(1) =~= body@);
            },
            CTokenInstruction::Transfer { transfer_data } => {
                buf.push(2);
                let body = transfer_data.encode();
                buf.extend_from_slice(body.as_slice());
                assert(buf@.skip(1) =~= body@);
            },
            CTokenInstruction::CloseAccount { close_data } => {
                buf.push(3);
                let body = close_data.try_to_vec();
                buf.extend_from_slice(body.as_slice());
                assert(buf@.skip(1) =~= body@);
            },
        }
        assert(buf@ =~= self.encoding());
        buf
    }

    /// The place of the rent sysvar in the list of accounts of the instruction with
    /// the tag `tag`: the last place, for the instructions that initialize a record.
    pub open spec fn spec_rent_sysvar_index(tag: u8) -> Option<usize> {
        if tag == 0 {
            Some(1usize)
        } else if tag == 1 {
            Some(3usize)
        } else if tag == 2 {
            Some(5usize)
        } else {
            None
        }
    }

    /// The place of the rent sysvar in the list of accounts that the instruction in
    /// `input` works on, if it works on the rent sysvar.
    pub fn rent_sysvar_index(input: &[u8]) -> (index: Option<usize>)
        ensures
            index == (if input@.len() == 0 {
                None
            } else {
                Self::spec_rent_sysvar_index(input@[0])
            }),
    {
        if input.len() == 0 {
            None
        } else if input[0] == 0 {
            Some(1)
        } else if input[0] == 1 {
            Some(3)
        } else if input[0] == 2 {
            Some(5)
        } else {
            None
        }
    }

    /// Splits a key off the front of `input`.
    pub fn unpack_pubkey(input: &[u8]) -> (out: Result<(Pubkey, &[u8]), ProgramError>)
        ensures
            out.is_ok() == (input@.len() >= 32),
            out matches Ok((key, rest)) ==> key@ == input@.subrange(0, 32) && rest@
                == input@.skip(32),
            out matches Err(e) ==> e == token_error(CTokenError::InvalidInstruction),
    {
        if input.len() >= 32 {
            let key = Pubkey::new(slice_subrange(input, 0, 32));
            let rest = slice_subrange(input, 32, input.len());
            assert(rest@ == input@.skip(32));
            Ok((key, rest))
        } else {
            Err(ProgramError::from(CTokenError::InvalidInstruction))
        }
    }
}

/// How an instruction refers to one of its accounts.
#[derive(Clone, Copy, Debug, PartialEq, Eq)]
pub struct AccountMeta {
    /// The key of the account.
    pub pubkey: Pubkey,
    /// Whether the transaction must be signed with this key.
    pub is_signer: bool,
    /// Whether the instruction may change the account.
    pub is_writable: bool,
}

impl AccountMeta {
    /// An account that the instruction may change.
    pub fn new(pubkey: Pubkey, is_signer: bool) -> (meta: AccountMeta)
        ensures
            meta == (AccountMeta { pubkey, is_signer, is_writable: true }),
    {
        AccountMeta { pubkey, is_signer, is_writable: true }
    }

    /// An account that the instruction only reads.
    pub fn new_readonly(pubkey: Pubkey, is_signer: bool) -> (meta: AccountMeta)
        ensures
            meta == (AccountMeta { pubkey, is_signer, is_writable: false }),
    {
        AccountMeta { pubkey, is_signer, is_writable: false }
    }

    /// Whether this entry names the account with the key `key` as stated.
    pub open spec fn is(&self, key: Seq<u8>, is_signer: bool, is_writable: bool) -> bool {
        self.pubkey@ == key && self.is_signer == is_signer && self.is_writable == is_writable
    }
}

/// An instruction as it is handed to the host: the program, its accounts in order,
/// and the bytes of the instruction.
#[derive(Clone, Debug, PartialEq, Eq)]
pub struct Instruction {
    /// The program that executes the instruction.
    pub program_id: Pubkey,
    /// The accounts that the instruction works on.
    pub accounts: Vec<AccountMeta>,
    /// The instruction on the wire.
    pub data: Vec<u8>,
}

/// Builds an `InitializeMint` instruction.
pub fn initialize_mint(
    c_token_program_id: &Pubkey,
    mint_pubkey: &Pubkey,
    mint_authority_pubkey: &Pubkey,
) -> (out: Result<Instruction, ProgramError>)
    ensures
        out matches Ok(instruction) && {
            &&& instruction.program_id@ == c_token_program_id@
            &&& instruction.data@ == seq![0u8] + mint_authority_pubkey@
            &&& instruction.accounts@.len() == 2
            &&& instruction.accounts@[0].is(mint_pubkey@, false, true)
            &&& instruction.accounts@[1].is(rent_sysvar_key(), false, false)
        },
{
    let data = (CTokenInstruction::InitializeMint { mint_authority: *mint_authority_pubkey }).pack();
    let mut accounts: Vec<AccountMeta> = Vec::new();
    accounts.push(AccountMeta::new(*mint_pubkey, false));
    accounts.push(AccountMeta::new_readonly(rent_sysvar_id(), false));
    Ok(Instruction { program_id: *c_token_program_id, accounts, data })
}

/// Builds a `Mint` instruction. Fails on a range proof too long to be written.
pub fn mint(
    c_token_program_id: &Pubkey,
    mint_pubkey: &Pubkey,
    account_pubkey: &Pubkey,
    signer_pubkey: &Pubkey,
    mint_data: MintData,
) -> (out: Result<Instruction, ProgramError>)
    ensures
        out.is_ok() == (mint_data.range_proof@.len() <= u32::MAX),
        out matches Ok(instruction) ==> {
            &&& instruction.program_id@ == c_token_program_id@
            &&& instruction.data@ == seq![1u8] + mint_data.encoding()
            &&& instruction.accounts@.len() == 4
            &&& instruction.accounts@[0].is(mint_pubkey@, false, true)
            &&& instruction.accounts@[1].is(account_pubkey@, false, true)
            &&& instruction.accounts@[2].is(signer_pubkey@, true, false)
            &&& instruction.accounts@[3].is(rent_sysvar_key(), false, false)
        },
        out matches Err(e) ==> e == token_error(CTokenError::InvalidInstruction),
{
    if mint_data.range_proof.bytes.len() > u32::MAX as usize {
        return Err(ProgramError::from(CTokenError::InvalidInstruction));
    }
    let data = (CTokenInstruction::Mint { mint_data }).pack();
    let mut accounts: Vec<AccountMeta> = Vec::new();
    accounts.push(AccountMeta::new(*mint_pubkey, false));
    accounts.push(AccountMeta::new(*account_pubkey, false));
    accounts.push(AccountMeta::new_readonly(*signer_pubkey, true));
    accounts.push(AccountMeta::new_readonly(rent_sysvar_id(), false));
    Ok(Instruction { program_id: *c_token_program_id, accounts, data })
}

/// Builds a `Transfer` instruction. Fails on a range proof too long to be written.
pub fn transfer(
    c_token_program_id: &Pubkey,
    mint_pubkey: &Pubkey,
    source_pubkeys: (&Pubkey, &Pubkey),
    destination_pubkeys: (&Pubkey, &Pubkey),
    transfer_data: TransferData,
) -> (out: Result<Instruction, ProgramError>)
    ensures
        out.is_ok() == transfer_data.fits(),
        out matches Ok(instruction) ==> {
            &&& instruction.program_id@ == c_token_program_id@
            &&& instruction.data@ == seq![2u8] + transfer_data.encoding()
            &&& instruction.accounts@.len() == 6
            &&& instruction.accounts@[0].is(mint_pubkey@, false, false)
            &&& instruction.accounts@[1].is(source_pubkeys.0@, false, true)
            &&& instruction.accounts@[2].is(source_pubkeys.1@, false, true)
            &&& instruction.accounts@[3].is(destination_pubkeys.0@, false, true)
            &&& instruction.accounts@[4].is(destination_pubkeys.1@, false, true)
            &&& instruction.accounts@[5].is(rent_sysvar_key(), false, false)
        },
        out matches Err(e) ==> e == token_error(CTokenError::InvalidInstruction),
{
    if transfer_data.range_proofs.0.bytes.len() > u32::MAX as usize
        || transfer_data.range_proofs.1.bytes.len() > u32::MAX as usize {
        return Err(ProgramError::from(CTokenError::InvalidInstruction));
    }
    let data = (CTokenInstruction::Transfer { transfer_data }).pack();
    let mut accounts: Vec<AccountMeta> = Vec::new();
    accounts.push(AccountMeta::new_readonly(*mint_pubkey, false));
    accounts.push(AccountMeta::new(*source_pubkeys.0, false));
    accounts.push(AccountMeta::new(*source_pubkeys.1, false));
    accounts.push(AccountMeta::new(*destination_pubkeys.0, false));
    accounts.push(AccountMeta::new(*destination_pubkeys.1, false));
    accounts.push(AccountMeta::new_readonly(rent_sysvar_id(), false));
    Ok(Instruction { program_id: *c_token_program_id, accounts, data })
}

/// Builds a `CloseAccount` instruction.
pub fn close_account(
    c_token_program_id: &Pubkey,
    source_pubkey: &Pubkey,
    destination_pubkey: &Pubkey,
    close_data: CloseAccountData,
) -> (out: Result<Instruction, ProgramError>)
    ensures
        out matches Ok(instruction) && {
            &&& instruction.program_id@ == c_token_program_id@
            &&& instruction.data@ == seq![3u8] + close_data.encoding()
            &&& instruction.accounts@.len() == 2
            &&& instruction.accounts@[0].is(source_pubkey@, false, true)
            &&& instruction.accounts@[1].is(destination_pubkey@, false, true)
        },
{
    let data = (CTokenInstruction::CloseAccount { close_data }).pack();
    let mut accounts: Vec<AccountMeta> = Vec::new();
    accounts.push(AccountMeta::new(*source_pubkey, false));
    accounts.push(AccountMeta::new(*destination_pubkey, false));
    Ok(Instruction { program_id: *c_token_program_id, accounts, data })
}

} // verus!
