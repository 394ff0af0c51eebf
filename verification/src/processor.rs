//! The ledger: what each instruction does to the accounts it is given.
//!
//! Every handler decides first and writes last. What it decides is stated as a
//! function from the accounts before the instruction to the accounts after it, or to
//! the error with which the instruction is turned away; an instruction that is
//! turned away leaves every account as it was.

use vstd::prelude::*;
use vstd::bytes::spec_u64_from_le_bytes;
use crate::error::{token_error, CTokenError, ProgramError, ProgramResult};
use crate::instruction::CTokenInstruction;
use crate::pubkey::{AccountInfo, AccountState, Pubkey};
use crate::state::{account_record, mint_record, Account, Mint};
use crate::txdata::{CloseAccountData, CryptoVerRequired, MintData, TransferData};

verus! {

/// What a handler decides: the accounts after the instruction, or an error.
pub type Step = Result<Seq<AccountState>, ProgramError>;

/// The account with `data` as its record.
pub open spec fn with_data(account: AccountState, data: Seq<u8>) -> AccountState {
    AccountState { data, ..account }
}

/// The account with the balance `lamports`.
pub open spec fn with_lamports(account: AccountState, lamports: u64) -> AccountState {
    AccountState { lamports, ..account }
}

/// `InitializeMint` on the accounts `[mint, rent sysvar]`: the record of the mint must
/// be one that is not initialized, and the mint must be exempt from rent. The record
/// then names the authority, has supply 0, and is initialized.
pub open spec fn initialize_mint_step(accounts: Seq<AccountState>, authority: Seq<u8>) -> Step {
    if accounts.len() < 2 {
        Err(ProgramError::NotEnoughAccountKeys)
    } else if !Mint::decodable(accounts[0].data) {
        Err(ProgramError::InvalidAccountData)
    } else if accounts[0].data[40] == 1 {
        Err(token_error(CTokenError::AlreadyInUse))
    } else if !accounts[0].rent_exempt {
        Err(token_error(CTokenError::NotRentExempt))
    } else {
        Ok(accounts.update(0, with_data(accounts[0], mint_record(authority, 0, true))))
    }
}

/// `Mint` on the accounts `[mint, destination, authority, rent sysvar]`: the
/// destination must hold a record that is not initialized and be exempt from rent,
/// the payload must be accepted, the mint must be initialized and name the third
/// account as its authority, and the supply must not overflow. The destination then
/// holds the commitment of the payload under the key of the mint, and the supply has
/// grown by the amount.
pub open spec fn mint_step(accounts: Seq<AccountState>, mint_data: MintData) -> Step {
    if accounts.len() < 4 {
        Err(ProgramError::NotEnoughAccountKeys)
    } else if !Account::decodable(accounts[1].data) {
        Err(ProgramError::InvalidAccountData)
    } else if accounts[1].data[32] == 1 {
        Err(token_error(CTokenError::AlreadyInUse))
    } else if !accounts[1].rent_exempt {
        Err(token_error(CTokenError::NotRentExempt))
    } else if !mint_data.accepted() {
        Err(token_error(CTokenError::InvalidProof))
    } else if !Mint::decodable(accounts[0].data) {
        Err(ProgramError::InvalidAccountData)
    } else if accounts[0].data[40] != 1 {
        Err(ProgramError::UninitializedAccount)
    } else if accounts[2].key != accounts[0].data.subrange(0, 32) {
        Err(token_error(CTokenError::OwnerMismatch))
    } else if spec_u64_from_le_bytes(accounts[0].data.subrange(32, 40)) + mint_data.amount
        > u64::MAX {
        Err(token_error(CTokenError::Overflow))
    } else {
        let supply = (spec_u64_from_le_bytes(accounts[0].data.subrange(32, 40))
            + mint_data.amount) as u64;
        let mint = with_data(
            accounts[0],
            mint_record(accounts[0].data.subrange(0, 32), supply, true),
        );
        let destination = with_data(
            accounts[1],
            account_record(accounts[0].key, true, mint_data.out_comm@),
        );
        Ok(accounts.update(0, mint).update(1, destination))
    }
}

/// `Transfer` on the accounts `[mint, source, source, destination, destination, rent
/// sysvar]`: all four hold records; the sources hold the input commitments of the
/// payload and belong to the mint; the destinations are not initialized and are
/// exempt from rent; the payload is accepted. The sources then have no lamports left,
/// and the destinations hold the output commitments under the key of the mint.
pub open spec fn transfer_step(accounts: Seq<AccountState>, transfer_data: TransferData) -> Step {
    if accounts.len() < 6 {
        Err(ProgramError::NotEnoughAccountKeys)
    } else if !Account::decodable(accounts[1].data) || !Account::decodable(accounts[2].data)
        || !Account::decodable(accounts[3].data) || !Account::decodable(accounts[4].data) {
        Err(ProgramError::InvalidAccountData)
    } else if accounts[1].data.subrange(33, 65) != transfer_data.in_comms.0@
        || accounts[2].data.subrange(33, 65) != transfer_data.in_comms.1@ {
        Err(token_error(CTokenError::CommitmentMismatch))
    } else if accounts[1].data.subrange(0, 32) != accounts[0].key || accounts[2].data.subrange(
        0,
        32,
    ) != accounts[0].key {
        Err(token_error(CTokenError::MintMismatch))
    } else if accounts[3].data[32] == 1 || accounts[4].data[32] == 1 {
        Err(token_error(CTokenError::AlreadyInUse))
    } else if !accounts[3].rent_exempt || !accounts[4].rent_exempt {
        Err(token_error(CTokenError::NotRentExempt))
    } else if !transfer_data.accepted() {
        Err(token_error(CTokenError::InvalidProof))
    } else {
        let first = with_data(
            accounts[3],
            account_record(accounts[0].key, true, transfer_data.out_comms.0@),
        );
        let second = with_data(
            accounts[4],
            account_record(accounts[0].key, true, transfer_data.out_comms.1@),
        );
        Ok(
            accounts.update(1, with_lamports(accounts[1], 0)).update(
                2,
                with_lamports(accounts[2], 0),
            ).update(3, first).update(4, second),
        )
    }
}

/// `CloseAccount` on the accounts `[source, destination]`: the payload must be
/// accepted, and the two balances must add up without overflow. The destination then
/// has both balances and the source none; the records stay as they are.
pub open spec fn close_account_step(
    accounts: Seq<AccountState>,
    close_data: CloseAccountData,
) -> Step {
    if accounts.len() < 2 {
        Err(ProgramError::NotEnoughAccountKeys)
    } else if !close_data.accepted() {
        Err(token_error(CTokenError::OpeningInvalid))
    } else if accounts[0].lamports + accounts[1].lamports > u64::MAX {
        Err(token_error(CTokenError::Overflow))
    } else {
        let total = (accounts[0].lamports + accounts[1].lamports) as u64;
        Ok(
            accounts.update(0, with_lamports(accounts[0], 0)).update(
                1,
                with_lamports(accounts[1], total),
            ),
        )
    }
}

/// What an instruction decides on given accounts.
pub open spec fn instruction_step(accounts: Seq<AccountState>, instruction: CTokenInstruction)
    -> Step {
    match instruction {
        CTokenInstruction::InitializeMint { mint_authority } => initialize_mint_step(
            accounts,
            mint_authority@,
        ),
        CTokenInstruction::Mint { mint_data } => mint_step(accounts, mint_data),
        CTokenInstruction::Transfer { transfer_data } => transfer_step(accounts, transfer_data),
        CTokenInstruction::CloseAccount { close_data } => close_account_step(
            accounts,
            close_data,
        ),
    }
}

/// Whether a handler did what was decided: on success the accounts are those
/// decided, and on an error the error is the one decided and the accounts are as
/// before.
pub open spec fn applied(
    before: Seq<AccountState>,
    step: Step,
    after: Seq<AccountState>,
    out: ProgramResult,
) -> bool {
    match step {
        Ok(next) => out is Ok && after == next,
        Err(e) => out == Err::<(), ProgramError>(e) && after == before,
    }
}

/// The handlers of the program.
pub struct Processor {}

impl Processor {
    /// Handles an `InitializeMint` instruction.
    pub fn process_initialize_mint(accounts: &mut Vec<AccountInfo>, mint_authority: Pubkey) -> (out:
        ProgramResult)
        ensures
            applied(
                old(accounts).deep_view(),
                initialize_mint_step(old(accounts).deep_view(), mint_authority@),
                final(accounts).deep_view(),
                out,
            ),
            final(accounts)@.len() == old(accounts)@.len(),
    {
        if accounts.len() < 2 {
            return Err(ProgramError::NotEnoughAccountKeys);
        }
        let mint = match Mint::unpack_unchecked(accounts[0].data.as_slice()) {
            Ok(mint) => mint,
            Err(e) => {
                return Err(e);
            },
        };
        if mint.is_initialized {
            return Err(ProgramError::from(CTokenError::AlreadyInUse));
        }
        if !accounts[0].rent_exempt {
            return Err(ProgramError::from(CTokenError::NotRentExempt));
        }
        let record = Mint { mint_authority, supply: 0, is_initialized: true };
        accounts[0].data = record.encode();
        assert(accounts.deep_view() =~= old(accounts).deep_view().update(
            0,
            with_data(old(accounts).deep_view()[0], mint_record(mint_authority@, 0, true)),
        ));
        Ok(())
    }

    /// Handles a `Mint` instruction.
    pub fn process_mint(accounts: &mut Vec<AccountInfo>, mint_data: MintData) -> (out:
        ProgramResult)
        ensures
            applied(
                old(accounts).deep_view(),
                mint_step(old(accounts).deep_view(), mint_data),
                final(accounts).deep_view(),
                out,
            ),
            final(accounts)@.len() == old(accounts)@.len(),
    {
        if accounts.len() < 4 {
            return Err(ProgramError::NotEnoughAccountKeys);
        }
        let destination = match Account::unpack_unchecked(accounts[1].data.as_slice()) {
            Ok(account) => account,
            Err(e) => {
                return Err(e);
            },
        };
        if destination.is_initialized {
            return Err(ProgramError::from(CTokenError::AlreadyInUse));
        }
        if !accounts[1].rent_exempt {
            return Err(ProgramError::from(CTokenError::NotRentExempt));
        }
        match mint_data.verify_crypto() {
            Ok(()) => {},
            Err(e) => {
                return Err(ProgramError::from(e));
            },
        }
        let mint = match Mint::unpack(accounts[0].data.as_slice()) {
            Ok(mint) => mint,
            Err(e) => {
                return Err(e);
            },
        };
        if !accounts[2].key.equals(&mint.mint_authority) {
            return Err(ProgramError::from(CTokenError::OwnerMismatch));
        }
        let supply = match mint.supply.checked_add(mint_data.amount) {
            Some(supply) => supply,
            None => {
                return Err(ProgramError::from(CTokenError::Overflow));
            },
        };
        let new_destination = Account {
            mint: accounts[0].key,
            is_initialized: true,
            comm: mint_data.out_comm,
        };
        let new_mint = Mint { mint_authority: mint.mint_authority, supply, is_initialized: true };
        accounts[1].data = new_destination.encode();
        accounts[0].data = new_mint.encode();
        proof {
            let before = old(accounts).deep_view();
            assert(accounts.deep_view() =~= before.update(
                0,
                with_data(before[0], mint_record(before[0].data.subrange(0, 32), supply, true)),
            ).update(
                1,
                with_data(before[1], account_record(before[0].key, true, mint_data.out_comm@)),
            ));
        }
        Ok(())
    }

    /// Handles a `Transfer` instruction.
    pub fn process_transfer(accounts: &mut Vec<AccountInfo>, transfer_data: TransferData) -> (out:
        ProgramResult)
        ensures
            applied(
                old(accounts).deep_view(),
                transfer_step(old(accounts).deep_view(), transfer_data),
                final(accounts).deep_view(),
                out,
            ),
            final(accounts)@.len() == old(accounts)@.len(),
    {
        if accounts.len() < 6 {
            return Err(ProgramError::NotEnoughAccountKeys);
        }
        let parsed = (
            Account::unpack_unchecked(accounts[1].data.as_slice()),
            Account::unpack_unchecked(accounts[2].data.as_slice()),
            Account::unpack_unchecked(accounts[3].data.as_slice()),
            Account::unpack_unchecked(accounts[4].data.as_slice()),
        );
        let (source_s, source_r, destination_s, destination_r) = match parsed {
            (Ok(a), Ok(b), Ok(c), Ok(d)) => (a, b, c, d),
            _ => {
                return Err(ProgramError::InvalidAccountData);
            },
        };
        if !source_s.comm.equals(&transfer_data.in_comms.0) || !source_r.comm.equals(
            &transfer_data.in_comms.1,
        ) {
            return Err(ProgramError::from(CTokenError::CommitmentMismatch));
        }
        let mint_key = accounts[0].key;
        if !source_s.mint.equals(&mint_key) || !source_r.mint.equals(&mint_key) {
            return Err(ProgramError::from(CTokenError::MintMismatch));
        }
        if destination_s.is_initialized || destination_r.is_initialized {
            return Err(ProgramError::from(CTokenError::AlreadyInUse));
        }
        if !accounts[3].rent_exempt || !accounts[4].rent_exempt {
            return Err(ProgramError::from(CTokenError::NotRentExempt));
        }
        match transfer_data.verify_crypto() {
            Ok(()) => {},
            Err(e) => {
                return Err(ProgramError::from(e));
            },
        }
        let new_s = Account { mint: mint_key, is_initialized: true, comm: transfer_data.out_comms.0 };
        let new_r = Account { mint: mint_key, is_initialized: true, comm: transfer_data.out_comms.1 };
        accounts[1].lamports = 0;
        accounts[2].lamports = 0;
        accounts[3].data = new_s.encode();
        accounts[4].data = new_r.encode();
        proof {
            let before = old(accounts).deep_view();
            assert(accounts.deep_view() =~= before.update(1, with_lamports(before[1], 0)).update(
                2,
                with_lamports(before[2], 0),
            ).update(
                3,
                with_data(
                    before[3],
                    account_record(before[0].key, true, transfer_data.out_comms.0@),
                ),
            ).update(
                4,
                with_data(
                    before[4],
                    account_record(before[0].key, true, transfer_data.out_comms.1@),
                ),
            ));
        }
        Ok(())
    }

    /// Handles a `CloseAccount` instruction.
    pub fn process_close_account(
        accounts: &mut Vec<AccountInfo>,
        close_data: CloseAccountData,
    ) -> (out: ProgramResult)
        ensures
            applied(
                old(accounts).deep_view(),
                close_account_step(old(accounts).deep_view(), close_data),
                final(accounts).deep_view(),
                out,
            ),
            final(accounts)@.len() == old(accounts)@.len(),
    {
        if accounts.len() < 2 {
            return Err(ProgramError::NotEnoughAccountKeys);
        }
        match close_data.verify_crypto() {
            Ok(()) => {},
            Err(e) => {
                return Err(ProgramError::from(e));
            },
        }
        let total = match accounts[1].lamports.checked_add(accounts[0].lamports) {
            Some(total) => total,
            None => {
                return Err(ProgramError::from(CTokenError::Overflow));
            },
        };
        accounts[0].lamports = 0;
        accounts[1].lamports = total;
        proof {
            let before = old(accounts).deep_view();
            assert(accounts.deep_view() =~= before.update(0, with_lamports(before[0], 0)).update(
                1,
                with_lamports(before[1], total),
            ));
        }
        Ok(())
    }

    /// Reads the instruction in `input` and handles it. An instruction that does not
    /// decode is turned away with the error of its decoding.
    pub fn process(_program_id: &Pubkey, accounts: &mut Vec<AccountInfo>, input: &[u8]) -> (out:
        ProgramResult)
        ensures
            CTokenInstruction::decode_error(input@) matches Some(e) ==> out == Err::<
                (),
                ProgramError,
            >(token_error(e)) && final(accounts).deep_view() == old(accounts).deep_view(),
            CTokenInstruction::decode_error(input@) is None ==> exists|
                instruction: CTokenInstruction,
            |
                CTokenInstruction::decodes_to(input@, instruction) && applied(
                    old(accounts).deep_view(),
                    #[trigger] instruction_step(old(accounts).deep_view(), instruction),
                    final(accounts).deep_view(),
                    out,
                ),
            out is Err ==> final(accounts).deep_view() == old(accounts).deep_view(),
            final(accounts)@.len() == old(accounts)@.len(),
    {
        let instruction = match CTokenInstruction::unpack(input) {
            Ok(instruction) => instruction,
            Err(e) => {
                return Err(e);
            },
        };
        let ghost decoded = instruction;
        let out = match instruction {
            CTokenInstruction::InitializeMint { mint_authority } => {
                Self::process_initialize_mint(accounts, mint_authority)
            },
            CTokenInstruction::Mint { mint_data } => Self::process_mint(accounts, mint_data),
            CTokenInstruction::Transfer { transfer_data } => Self::process_transfer(
                accounts,
                transfer_data,
            ),
            CTokenInstruction::CloseAccount { close_data } => Self::process_close_account(
                accounts,
                close_data,
            ),
        };
        assert(applied(
            old(accounts).deep_view(),
            instruction_step(old(accounts).deep_view(), decoded),
            accounts.deep_view(),
            out,
        ));
        out
    }
}

/// An account that holds an initialized record holds the same record after every
/// instruction: no instruction initializes it again, and none changes its
/// commitment or its mint.
pub proof fn lemma_initialized_record_stays(
    accounts: Seq<AccountState>,
    instruction: CTokenInstruction,
    i: int,
)
    requires
        0 <= i < accounts.len(),
        Account::holds_initialized(accounts[i].data),
        instruction_step(accounts, instruction) is Ok,
    ensures
        instruction_step(accounts, instruction)->Ok_0.len() == accounts.len(),
        instruction_step(accounts, instruction)->Ok_0[i].data == accounts[i].data,
{
}

/// An instruction changes no key, no owner, and no answer of the rent oracle, and
/// neither adds nor removes an account.
pub proof fn lemma_step_keeps_identities(
    accounts: Seq<AccountState>,
    instruction: CTokenInstruction,
    i: int,
)
    requires
        0 <= i < accounts.len(),
        instruction_step(accounts, instruction) is Ok,
    ensures
        instruction_step(accounts, instruction)->Ok_0.len() == accounts.len(),
        instruction_step(accounts, instruction)->Ok_0[i].key == accounts[i].key,
        instruction_step(accounts, instruction)->Ok_0[i].owner == accounts[i].owner,
        instruction_step(accounts, instruction)->Ok_0[i].is_signer == accounts[i].is_signer,
{
}

} // verus!
