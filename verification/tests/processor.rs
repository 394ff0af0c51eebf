use solana_program::rent::Rent;
use solana_program::sysvar::Sysvar;
use spl_c_tokens_prototype::client::{
    mint_client_with, receiver_step, sample_mint_client_for_test, sender_step,
};
use spl_c_tokens_prototype::crypto::{CommitmentBase, PedersenComm, RangeProof};
use spl_c_tokens_prototype::error::{CTokenError, ProgramError, ProgramResult};
use spl_c_tokens_prototype::instruction::{
    close_account, id, initialize_mint, mint, rent_sysvar_id, transfer, AccountMeta, Instruction,
};
use spl_c_tokens_prototype::processor::Processor;
use spl_c_tokens_prototype::proofs::{Pedersen, ProofKnowledge};
use spl_c_tokens_prototype::pubkey::{AccountInfo, Pubkey};
use spl_c_tokens_prototype::scalar::BorshScalar;
use spl_c_tokens_prototype::state::{Account, Mint};
use spl_c_tokens_prototype::txdata::{CloseAccountData, CryptoVerRequired, MintData, TransferData};

/// An account as the host keeps it between instructions.
#[derive(Clone, Debug, PartialEq)]
struct SolanaAccount {
    lamports: u64,
    data: Vec<u8>,
    owner: Pubkey,
}

impl SolanaAccount {
    fn new(lamports: u64, space: usize, owner: &Pubkey) -> Self {
        SolanaAccount { lamports, data: vec![0; space], owner: *owner }
    }

    fn default() -> Self {
        SolanaAccount { lamports: 0, data: vec![], owner: Pubkey::default() }
    }
}

fn new_unique() -> Pubkey {
    Pubkey::new_from_array(solana_program::pubkey::Pubkey::new_unique().to_bytes())
}

fn account_minimum_balance() -> u64 {
    Rent::default().minimum_balance(Account::get_packed_len())
}

fn mint_minimum_balance() -> u64 {
    Rent::default().minimum_balance(Mint::get_packed_len())
}

fn rent_sysvar() -> SolanaAccount {
    let key = solana_program::sysvar::rent::id();
    let owner = solana_program::pubkey::Pubkey::new_from_array([0; 32]);
    let mut lamports = 1u64;
    let mut data = vec![0u8; Rent::size_of()];
    {
        let mut info = solana_program::account_info::AccountInfo::new(
            &key,
            false,
            true,
            &mut lamports,
            &mut data,
            &owner,
            false,
            0,
        );
        Rent::default().to_account_info(&mut info).unwrap();
    }
    SolanaAccount { lamports: 1, data, owner: Pubkey::new_from_array(owner.to_bytes()) }
}

/// The rent parameters that the list of accounts carries, if it carries any.
fn rent_of(metas: &[AccountMeta], accounts: &[&mut SolanaAccount]) -> Option<Rent> {
    for (meta, account) in metas.iter().zip(accounts.iter()) {
        if meta.pubkey == rent_sysvar_id() {
            let key = solana_program::pubkey::Pubkey::new_from_array(meta.pubkey.to_bytes());
            let owner = solana_program::pubkey::Pubkey::new_from_array(account.owner.to_bytes());
            let mut lamports = account.lamports;
            let mut data = account.data.clone();
            let info = solana_program::account_info::AccountInfo::new(
                &key,
                false,
                false,
                &mut lamports,
                &mut data,
                &owner,
                false,
                0,
            );
            return Rent::from_account_info(&info).ok();
        }
    }
    None
}

fn do_process_instruction(
    instruction: Instruction,
    mut accounts: Vec<&mut SolanaAccount>,
) -> ProgramResult {
    let rent = rent_of(&instruction.accounts, &accounts);
    let mut infos: Vec<AccountInfo> = instruction
        .accounts
        .iter()
        .zip(accounts.iter())
        .map(|(meta, account)| AccountInfo {
            key: meta.pubkey,
            is_signer: meta.is_signer,
            is_writable: meta.is_writable,
            lamports: account.lamports,
            data: account.data.clone(),
            owner: account.owner,
            rent_exempt: match &rent {
                Some(rent) => rent.is_exempt(account.lamports, account.data.len()),
                None => false,
            },
        })
        .collect();
    let out = Processor::process(&instruction.program_id, &mut infos, &instruction.data);
    for (info, account) in infos.into_iter().zip(accounts.iter_mut()) {
        account.lamports = info.lamports;
        account.data = info.data;
    }
    out
}

fn token(e: CTokenError) -> ProgramError {
    ProgramError::from(e)
}

/// A mint, initialized with the given authority and supply.
fn mint_account(program_id: &Pubkey, authority: &Pubkey, supply: u64) -> SolanaAccount {
    let mut account = SolanaAccount::new(mint_minimum_balance(), Mint::get_packed_len(), program_id);
    let record = Mint { mint_authority: *authority, supply, is_initialized: true };
    Mint::pack(record, &mut account.data).unwrap();
    account
}

/// A rent-exempt account whose record has not been initialized.
fn fresh_account(program_id: &Pubkey) -> SolanaAccount {
    SolanaAccount::new(account_minimum_balance(), Account::get_packed_len(), program_id)
}

/// A rent-exempt account that holds `comm` under `mint`.
fn holding(program_id: &Pubkey, mint: &Pubkey, comm: PedersenComm) -> SolanaAccount {
    let mut account = fresh_account(program_id);
    Account::pack(Account { mint: *mint, is_initialized: true, comm }, &mut account.data).unwrap();
    account
}

/// What the end-to-end transfer works on.
struct Ledger {
    program_id: Pubkey,
    mint_key: Pubkey,
    keys: [Pubkey; 4],
    mint: SolanaAccount,
    sources: [SolanaAccount; 2],
    destinations: [SolanaAccount; 2],
    rent: SolanaAccount,
    data: TransferData,
    openings: (BorshScalar, BorshScalar),
}

/// The sender holds 77 and the receiver 10, minted by one mint; 55 are to change
/// hands.
fn ledger() -> Ledger {
    let program_id = id();
    let mint_key = new_unique();
    let base = CommitmentBase::default();
    let (comm_a, r_a) = Pedersen::commit(&base, &BorshScalar::from_u64(77), None);
    let (comm_b, r_b) = Pedersen::commit(&base, &BorshScalar::from_u64(10), None);
    let (message, opening_a) = sender_step(&base, &comm_a, &r_a, 77, 55).unwrap();
    assert_eq!(message.verify(&base), Ok(()));
    let (data, opening_b) = receiver_step(&base, &comm_b, &r_b, 10, &message).unwrap();
    Ledger {
        program_id,
        mint_key,
        keys: [new_unique(), new_unique(), new_unique(), new_unique()],
        mint: mint_account(&program_id, &new_unique(), 87),
        sources: [
            holding(&program_id, &mint_key, comm_a),
            holding(&program_id, &mint_key, comm_b),
        ],
        destinations: [fresh_account(&program_id), fresh_account(&program_id)],
        rent: rent_sysvar(),
        data,
        openings: (opening_a, opening_b),
    }
}

fn submit_transfer(ledger: &mut Ledger, data: TransferData) -> ProgramResult {
    let instruction = transfer(
        &ledger.program_id,
        &ledger.mint_key,
        (&ledger.keys[0], &ledger.keys[1]),
        (&ledger.keys[2], &ledger.keys[3]),
        data,
    )
    .unwrap();
    let [source_a, source_b] = &mut ledger.sources;
    let [destination_a, destination_b] = &mut ledger.destinations;
    do_process_instruction(
        instruction,
        vec![&mut ledger.mint, source_a, source_b, destination_a, destination_b, &mut ledger.rent],
    )
}

fn snapshot(ledger: &Ledger) -> Vec<SolanaAccount> {
    vec![
        ledger.mint.clone(),
        ledger.sources[0].clone(),
        ledger.sources[1].clone(),
        ledger.destinations[0].clone(),
        ledger.destinations[1].clone(),
        ledger.rent.clone(),
    ]
}

#[test]
fn processor_test_initialize_mint() {
    let program_id = id();
    let mint_authority_key = new_unique();
    let mint_key = new_unique();
    let mut mint_account = SolanaAccount::new(57, Mint::get_packed_len(), &program_id);
    let mut rent_sysvar = rent_sysvar();

    // mint is not rent exempt
    assert_eq!(
        Err(CTokenError::NotRentExempt.into()),
        do_process_instruction(
            initialize_mint(&program_id, &mint_authority_key, &mint_key).unwrap(),
            vec![&mut mint_account, &mut rent_sysvar],
        )
    );

    mint_account.lamports = mint_minimum_balance();

    // create new mint
    do_process_instruction(
        initialize_mint(&program_id, &mint_authority_key, &mint_key).unwrap(),
        vec![&mut mint_account, &mut rent_sysvar],
    )
    .unwrap();

    // create twice
    assert_eq!(
        Err(CTokenError::AlreadyInUse.into()),
        do_process_instruction(
            initialize_mint(&program_id, &mint_key, &mint_authority_key).unwrap(),
            vec![&mut mint_account, &mut rent_sysvar]
        )
    );
}

#[test]
fn processor_test_mint() {
    let program_id = id();

    let mint_key = new_unique();
    let mut mint_account =
        SolanaAccount::new(mint_minimum_balance(), Mint::get_packed_len(), &program_id);

    let mint_authority_key = new_unique();
    let mut mint_authority_account = SolanaAccount::default();

    let mut rent_sysvar = rent_sysvar();

    // create new mint with owner
    do_process_instruction(
        initialize_mint(&program_id, &mint_key, &mint_authority_key).unwrap(),
        vec![&mut mint_account, &mut rent_sysvar],
    )
    .unwrap();

    // create an account
    let account_key = new_unique();
    let mut account_account =
        SolanaAccount::new(account_minimum_balance(), Account::get_packed_len(), &program_id);

    let mint_data = sample_mint_client_for_test(57);

    do_process_instruction(
        mint(&program_id, &mint_key, &account_key, &mint_authority_key, mint_data.duplicate())
            .unwrap(),
        vec![
            &mut mint_account,
            &mut account_account,
            &mut mint_authority_account,
            &mut rent_sysvar,
        ],
    )
    .unwrap();

    // The mint supply should be updated.
    let mint_state = Mint::unpack_unchecked(&mint_account.data).unwrap();
    assert_eq!(mint_state.supply, 57);

    // The commitment in the associated account should be updated.
    let account = Account::unpack_unchecked(&account_account.data).unwrap();
    assert_eq!(account.comm, mint_data.out_comm);

    // test for account already-in-use error
    assert_eq!(
        Err(CTokenError::AlreadyInUse.into()),
        do_process_instruction(
            mint(&program_id, &mint_key, &account_key, &mint_authority_key, mint_data.duplicate())
                .unwrap(),
            vec![
                &mut mint_account,
                &mut account_account,
                &mut mint_authority_account,
                &mut rent_sysvar
            ],
        )
    );

    // create another account to test supply accumulation
    let account2_key = new_unique();
    let mut account2_account =
        SolanaAccount::new(account_minimum_balance(), Account::get_packed_len(), &program_id);

    let mint_data = sample_mint_client_for_test(43);

    do_process_instruction(
        mint(&program_id, &mint_key, &account2_key, &mint_authority_key, mint_data.duplicate())
            .unwrap(),
        vec![
            &mut mint_account,
            &mut account2_account,
            &mut mint_authority_account,
            &mut rent_sysvar,
        ],
    )
    .unwrap();

    // The mint supply should be updated.
    let mint_state = Mint::unpack_unchecked(&mint_account.data).unwrap();
    assert_eq!(mint_state.supply, 100);

    // The commitment in the associated account should be updated.
    let account = Account::unpack_unchecked(&account2_account.data).unwrap();
    assert_eq!(account.comm, mint_data.out_comm);
}

#[test]
fn initialize_mint_sets_authority_supply_and_flag() {
    let program_id = id();
    let (mint_key, authority) = (new_unique(), new_unique());
    let mut mint_account =
        SolanaAccount::new(mint_minimum_balance(), Mint::get_packed_len(), &program_id);
    let mut rent = rent_sysvar();
    do_process_instruction(
        initialize_mint(&program_id, &mint_key, &authority).unwrap(),
        vec![&mut mint_account, &mut rent],
    )
    .unwrap();
    let record = Mint::unpack(&mint_account.data).unwrap();
    assert_eq!(record, Mint { mint_authority: authority, supply: 0, is_initialized: true });
    assert_eq!(mint_account.lamports, mint_minimum_balance());
    let before = mint_account.clone();
    assert_eq!(
        do_process_instruction(
            initialize_mint(&program_id, &mint_key, &new_unique()).unwrap(),
            vec![&mut mint_account, &mut rent],
        ),
        Err(token(CTokenError::AlreadyInUse))
    );
    assert_eq!(mint_account, before);
}

#[test]
fn mint_by_a_wrong_authority_is_an_owner_mismatch() {
    let program_id = id();
    let (mint_key, authority, intruder) = (new_unique(), new_unique(), new_unique());
    let mut mint_account = mint_account(&program_id, &authority, 0);
    let mut account = fresh_account(&program_id);
    let mut signer = SolanaAccount::default();
    let mut rent = rent_sysvar();
    let before = (mint_account.clone(), account.clone());
    assert_eq!(
        do_process_instruction(
            mint(&program_id, &mint_key, &new_unique(), &intruder, sample_mint_client_for_test(57))
                .unwrap(),
            vec![&mut mint_account, &mut account, &mut signer, &mut rent],
        ),
        Err(token(CTokenError::OwnerMismatch))
    );
    assert_eq!((mint_account, account), before);
}

#[test]
fn mint_records_the_key_of_the_mint_in_the_account() {
    let program_id = id();
    let (mint_key, authority, account_key) = (new_unique(), new_unique(), new_unique());
    let mut mint_account = mint_account(&program_id, &authority, 1000);
    let mut account = fresh_account(&program_id);
    let mut signer = SolanaAccount::default();
    let mut rent = rent_sysvar();
    let data = mint_client_with(57, &BorshScalar::from_u64(5), &BorshScalar::from_u64(6));
    do_process_instruction(
        mint(&program_id, &mint_key, &account_key, &authority, data.duplicate()).unwrap(),
        vec![&mut mint_account, &mut account, &mut signer, &mut rent],
    )
    .unwrap();
    assert_eq!(
        Account::unpack(&account.data),
        Ok(Account { mint: mint_key, is_initialized: true, comm: data.out_comm })
    );
    assert_eq!(
        Mint::unpack(&mint_account.data),
        Ok(Mint { mint_authority: authority, supply: 1057, is_initialized: true })
    );
    assert_eq!(account.lamports, account_minimum_balance());
}

#[test]
fn mint_that_fails_its_proof_is_an_invalid_proof() {
    let program_id = id();
    let (mint_key, authority) = (new_unique(), new_unique());
    let mut mint_account = mint_account(&program_id, &authority, 0);
    let mut account = fresh_account(&program_id);
    let mut signer = SolanaAccount::default();
    let mut rent = rent_sysvar();
    let good = sample_mint_client_for_test(57);
    assert_eq!(good.verify_crypto(), Ok(()));
    let wrong_amount = MintData { amount: 58, ..good.duplicate() };
    assert_eq!(wrong_amount.verify_crypto(), Err(CTokenError::InvalidProof));
    let zeroed = MintData {
        amount: 57,
        out_comm: PedersenComm::from_bytes([0; 32]),
        range_proof: RangeProof::empty(),
        proof_knowledge: ProofKnowledge {
            nonce: PedersenComm::from_bytes([0; 32]).getComm(),
            scalar: BorshScalar::zero(),
        },
    };
    assert_eq!(zeroed.verify_crypto(), Err(CTokenError::InvalidProof));
    let undecodable = MintData { out_comm: PedersenComm::from_bytes([0xff; 32]), ..good };
    assert_eq!(undecodable.verify_crypto(), Err(CTokenError::InvalidProof));
    let before = (mint_account.clone(), account.clone());
    for data in [wrong_amount, zeroed, undecodable] {
        assert_eq!(
            do_process_instruction(
                mint(&program_id, &mint_key, &new_unique(), &authority, data).unwrap(),
                vec![&mut mint_account, &mut account, &mut signer, &mut rent],
            ),
            Err(token(CTokenError::InvalidProof))
        );
        assert_eq!((mint_account.clone(), account.clone()), before);
    }
}

#[test]
fn mint_into_an_account_that_is_not_rent_exempt() {
    let program_id = id();
    let (mint_key, authority) = (new_unique(), new_unique());
    let mut mint_account = mint_account(&program_id, &authority, 0);
    let mut account =
        SolanaAccount::new(account_minimum_balance() - 1, Account::get_packed_len(), &program_id);
    let mut signer = SolanaAccount::default();
    let mut rent = rent_sysvar();
    assert_eq!(
        do_process_instruction(
            mint(&program_id, &mint_key, &new_unique(), &authority, sample_mint_client_for_test(1))
                .unwrap(),
            vec![&mut mint_account, &mut account, &mut signer, &mut rent],
        ),
        Err(token(CTokenError::NotRentExempt))
    );
    assert_eq!(account.data, vec![0u8; 65]);
}

#[test]
fn mint_that_overflows_the_supply() {
    let program_id = id();
    let (mint_key, authority) = (new_unique(), new_unique());
    let mut mint_account = mint_account(&program_id, &authority, u64::MAX - 56);
    let mut account = fresh_account(&program_id);
    let mut signer = SolanaAccount::default();
    let mut rent = rent_sysvar();
    let before = (mint_account.clone(), account.clone());
    assert_eq!(
        do_process_instruction(
            mint(&program_id, &mint_key, &new_unique(), &authority, sample_mint_client_for_test(57))
                .unwrap(),
            vec![&mut mint_account, &mut account, &mut signer, &mut rent],
        ),
        Err(token(CTokenError::Overflow))
    );
    assert_eq!((mint_account.clone(), account.clone()), before);
    do_process_instruction(
        mint(&program_id, &mint_key, &new_unique(), &authority, sample_mint_client_for_test(56))
            .unwrap(),
        vec![&mut mint_account, &mut account, &mut signer, &mut rent],
    )
    .unwrap();
    assert_eq!(Mint::unpack(&mint_account.data).unwrap().supply, u64::MAX);
}

#[test]
fn mint_against_records_of_the_wrong_kind() {
    let program_id = id();
    let (mint_key, authority) = (new_unique(), new_unique());
    let mut rent = rent_sysvar();
    let mut signer = SolanaAccount::default();
    let build = |amount| {
        mint(&program_id, &mint_key, &new_unique(), &authority, sample_mint_client_for_test(amount))
            .unwrap()
    };

    // the mint has not been initialized
    let mut blank_mint =
        SolanaAccount::new(mint_minimum_balance(), Mint::get_packed_len(), &program_id);
    let mut account = fresh_account(&program_id);
    assert_eq!(
        do_process_instruction(
            build(1),
            vec![&mut blank_mint, &mut account, &mut signer, &mut rent]
        ),
        Err(ProgramError::UninitializedAccount)
    );

    // the mint account holds no mint record
    let mut short_mint = SolanaAccount::new(mint_minimum_balance(), 40, &program_id);
    assert_eq!(
        do_process_instruction(
            build(1),
            vec![&mut short_mint, &mut account, &mut signer, &mut rent]
        ),
        Err(ProgramError::InvalidAccountData)
    );

    // the destination holds no account record
    let mut good_mint = mint_account(&program_id, &authority, 0);
    let mut short_account = SolanaAccount::new(account_minimum_balance(), 64, &program_id);
    assert_eq!(
        do_process_instruction(
            build(1),
            vec![&mut good_mint, &mut short_account, &mut signer, &mut rent]
        ),
        Err(ProgramError::InvalidAccountData)
    );

    // an account is missing
    assert_eq!(
        do_process_instruction(build(1), vec![&mut good_mint, &mut account, &mut signer]),
        Err(ProgramError::NotEnoughAccountKeys)
    );
    assert_eq!(account.data, vec![0u8; 65]);
}

#[test]
fn instructions_that_do_not_decode_change_nothing() {
    let program_id = id();
    let mut infos = vec![AccountInfo::new(new_unique(), 5, vec![1, 2, 3], program_id, true)];
    let before = infos.clone();
    for input in [vec![], vec![9u8], vec![0u8; 10], vec![1u8; 50], vec![3u8; 72]] {
        assert_eq!(
            Processor::process(&program_id, &mut infos, &input),
            Err(token(CTokenError::InvalidInstruction))
        );
        assert_eq!(infos, before);
    }
    let mut init = vec![0u8];
    init.extend_from_slice(&[7; 32]);
    assert_eq!(
        Processor::process(&program_id, &mut infos, &init),
        Err(ProgramError::NotEnoughAccountKeys)
    );
    assert_eq!(infos, before);
}

#[test]
fn end_to_end_transfer() {
    let mut ledger = ledger();
    let data = ledger.data.duplicate();
    assert_eq!(data.verify_crypto(), Ok(()));
    submit_transfer(&mut ledger, data).unwrap();

    // both sources are closed, and keep their records
    assert_eq!(ledger.sources[0].lamports, 0);
    assert_eq!(ledger.sources[1].lamports, 0);
    assert_eq!(
        Account::unpack(&ledger.sources[0].data).unwrap().comm,
        ledger.data.in_comms.0
    );
    assert_eq!(
        Account::unpack(&ledger.sources[1].data).unwrap().comm,
        ledger.data.in_comms.1
    );

    // the destinations hold commitments to 22 and to 65
    let base = CommitmentBase::default();
    let kept = Account::unpack(&ledger.destinations[0].data).unwrap();
    let received = Account::unpack(&ledger.destinations[1].data).unwrap();
    assert_eq!(kept.mint, ledger.mint_key);
    assert_eq!(received.mint, ledger.mint_key);
    assert_eq!(kept.comm, ledger.data.out_comms.0);
    assert_eq!(received.comm, ledger.data.out_comms.1);
    assert!(Pedersen::verify_commitment(
        &kept.comm,
        &base,
        &ledger.openings.0,
        &BorshScalar::from_u64(22)
    ));
    assert!(Pedersen::verify_commitment(
        &received.comm,
        &base,
        &ledger.openings.1,
        &BorshScalar::from_u64(65)
    ));
    assert!(!Pedersen::verify_commitment(
        &kept.comm,
        &base,
        &ledger.openings.0,
        &BorshScalar::from_u64(77)
    ));
    assert_eq!(ledger.destinations[0].lamports, account_minimum_balance());

    // the supply of the mint is what it was
    assert_eq!(Mint::unpack(&ledger.mint.data).unwrap().supply, 87);

    // the destinations cannot be initialized a second time
    let before = snapshot(&ledger);
    let again = ledger.data.duplicate();
    assert_eq!(submit_transfer(&mut ledger, again), Err(token(CTokenError::AlreadyInUse)));
    assert_eq!(snapshot(&ledger), before);
}

#[test]
fn transfer_with_tampered_input_commitments_is_a_commitment_mismatch() {
    let mut ledger = ledger();
    let before = snapshot(&ledger);
    let mut bytes = ledger.data.in_comms.0.to_bytes();
    bytes[0] ^= 1;
    let tampered = TransferData {
        in_comms: (PedersenComm::from_bytes(bytes), ledger.data.in_comms.1),
        ..ledger.data.duplicate()
    };
    assert_eq!(submit_transfer(&mut ledger, tampered), Err(token(CTokenError::CommitmentMismatch)));
    let mut bytes = ledger.data.in_comms.1.to_bytes();
    bytes[31] ^= 0x80;
    let tampered = TransferData {
        in_comms: (ledger.data.in_comms.0, PedersenComm::from_bytes(bytes)),
        ..ledger.data.duplicate()
    };
    assert_eq!(submit_transfer(&mut ledger, tampered), Err(token(CTokenError::CommitmentMismatch)));
    assert_eq!(snapshot(&ledger), before);
}

#[test]
fn transfer_with_a_random_response_is_an_invalid_proof() {
    let mut ledger = ledger();
    let before = snapshot(&ledger);
    let sender = ProofKnowledge {
        nonce: ledger.data.proofs_knowledge.0.nonce,
        scalar: BorshScalar::random(),
    };
    let forged = TransferData {
        proofs_knowledge: (sender, ledger.data.proofs_knowledge.1),
        ..ledger.data.duplicate()
    };
    assert_eq!(forged.verify_crypto(), Err(CTokenError::InvalidProof));
    assert_eq!(submit_transfer(&mut ledger, forged), Err(token(CTokenError::InvalidProof)));
    assert_eq!(snapshot(&ledger), before);

    let receiver = ProofKnowledge {
        nonce: ledger.data.proofs_knowledge.1.nonce,
        scalar: ledger.data.proofs_knowledge.1.scalar.add(&BorshScalar::one()),
    };
    let forged = TransferData {
        proofs_knowledge: (ledger.data.proofs_knowledge.0, receiver),
        ..ledger.data.duplicate()
    };
    assert_eq!(submit_transfer(&mut ledger, forged), Err(token(CTokenError::InvalidProof)));
    assert_eq!(snapshot(&ledger), before);
}

#[test]
fn transfer_that_does_not_balance_is_an_invalid_proof() {
    let mut ledger = ledger();
    let before = snapshot(&ledger);
    let base = CommitmentBase::default();
    let (inflated, _) = Pedersen::commit(&base, &BorshScalar::from_u64(66), None);
    let forged = TransferData {
        out_comms: (ledger.data.out_comms.0, inflated),
        ..ledger.data.duplicate()
    };
    assert_eq!(submit_transfer(&mut ledger, forged), Err(token(CTokenError::InvalidProof)));
    let undecodable = TransferData {
        out_comms: (PedersenComm::from_bytes([0xff; 32]), ledger.data.out_comms.1),
        ..ledger.data.duplicate()
    };
    assert_eq!(submit_transfer(&mut ledger, undecodable), Err(token(CTokenError::InvalidProof)));
    assert_eq!(snapshot(&ledger), before);
}

#[test]
fn transfer_from_an_account_of_another_mint_is_a_mint_mismatch() {
    let mut ledger = ledger();
    let other = new_unique();
    ledger.sources[1] = holding(&ledger.program_id, &other, ledger.data.in_comms.1);
    let before = snapshot(&ledger);
    let data = ledger.data.duplicate();
    assert_eq!(submit_transfer(&mut ledger, data), Err(token(CTokenError::MintMismatch)));
    assert_eq!(snapshot(&ledger), before);
}

#[test]
fn transfer_into_an_account_that_is_in_use_or_not_rent_exempt() {
    let mut ledger = ledger();
    ledger.destinations[1].lamports = account_minimum_balance() - 1;
    let before = snapshot(&ledger);
    let data = ledger.data.duplicate();
    assert_eq!(submit_transfer(&mut ledger, data), Err(token(CTokenError::NotRentExempt)));
    assert_eq!(snapshot(&ledger), before);

    let mut ledger = self::ledger();
    ledger.destinations[0] =
        holding(&ledger.program_id, &ledger.mint_key, PedersenComm::from_bytes([0; 32]));
    let before = snapshot(&ledger);
    let data = ledger.data.duplicate();
    assert_eq!(submit_transfer(&mut ledger, data), Err(token(CTokenError::AlreadyInUse)));
    assert_eq!(snapshot(&ledger), before);
}

#[test]
fn transfer_on_records_of_the_wrong_kind_or_too_few_accounts() {
    let mut ledger = ledger();
    ledger.destinations[1].data.push(0);
    let data = ledger.data.duplicate();
    assert_eq!(submit_transfer(&mut ledger, data), Err(ProgramError::InvalidAccountData));

    let mut ledger = self::ledger();
    let instruction = transfer(
        &ledger.program_id,
        &ledger.mint_key,
        (&ledger.keys[0], &ledger.keys[1]),
        (&ledger.keys[2], &ledger.keys[3]),
        ledger.data.duplicate(),
    )
    .unwrap();
    let [source_a, source_b] = &mut ledger.sources;
    let [destination_a, destination_b] = &mut ledger.destinations;
    assert_eq!(
        do_process_instruction(
            instruction,
            vec![&mut ledger.mint, source_a, source_b, destination_a, destination_b],
        ),
        Err(ProgramError::NotEnoughAccountKeys)
    );
}

#[test]
fn close_account_with_the_right_opening_moves_the_lamports() {
    let mut ledger = ledger();
    let data = ledger.data.duplicate();
    submit_transfer(&mut ledger, data).unwrap();
    let program_id = ledger.program_id;
    let kept = Account::unpack(&ledger.destinations[0].data).unwrap();
    let mut receiver = SolanaAccount::new(5, 0, &program_id);
    let record = ledger.destinations[0].data.clone();

    // a mismatched opening
    let wrong = CloseAccountData {
        amount: 22,
        commitment: kept.comm,
        opening: ledger.openings.0.add(&BorshScalar::one()),
    };
    assert_eq!(wrong.verify_crypto(), Err(CTokenError::OpeningInvalid));
    let before = (ledger.destinations[0].clone(), receiver.clone());
    assert_eq!(
        do_process_instruction(
            close_account(&program_id, &ledger.keys[2], &new_unique(), wrong).unwrap(),
            vec![&mut ledger.destinations[0], &mut receiver],
        ),
        Err(token(CTokenError::OpeningInvalid))
    );
    assert_eq!((ledger.destinations[0].clone(), receiver.clone()), before);

    // a mismatched amount
    let wrong = CloseAccountData { amount: 23, commitment: kept.comm, opening: ledger.openings.0 };
    assert_eq!(
        do_process_instruction(
            close_account(&program_id, &ledger.keys[2], &new_unique(), wrong).unwrap(),
            vec![&mut ledger.destinations[0], &mut receiver],
        ),
        Err(token(CTokenError::OpeningInvalid))
    );

    // the right amount, commitment and opening
    let right = CloseAccountData { amount: 22, commitment: kept.comm, opening: ledger.openings.0 };
    assert_eq!(right.verify_crypto(), Ok(()));
    do_process_instruction(
        close_account(&program_id, &ledger.keys[2], &new_unique(), right).unwrap(),
        vec![&mut ledger.destinations[0], &mut receiver],
    )
    .unwrap();
    assert_eq!(ledger.destinations[0].lamports, 0);
    assert_eq!(receiver.lamports, 5 + account_minimum_balance());
    assert_eq!(ledger.destinations[0].data, record);
}

#[test]
fn close_account_that_overflows_the_balance_or_lacks_an_account() {
    let program_id = id();
    let base = CommitmentBase::default();
    let (commitment, opening) = Pedersen::commit(&base, &BorshScalar::from_u64(22), None);
    let data = CloseAccountData { amount: 22, commitment, opening };
    let mut source = holding(&program_id, &new_unique(), commitment);
    let mut rich = SolanaAccount::new(u64::MAX, 0, &program_id);
    let before = (source.clone(), rich.clone());
    assert_eq!(
        do_process_instruction(
            close_account(&program_id, &new_unique(), &new_unique(), data).unwrap(),
            vec![&mut source, &mut rich],
        ),
        Err(token(CTokenError::Overflow))
    );
    assert_eq!((source.clone(), rich), before);
    assert_eq!(
        do_process_instruction(
            close_account(&program_id, &new_unique(), &new_unique(), data).unwrap(),
            vec![&mut source],
        ),
        Err(ProgramError::NotEnoughAccountKeys)
    );
}

#[test]
fn an_account_is_initialized_at_most_once() {
    let mut ledger = ledger();
    let data = ledger.data.duplicate();
    submit_transfer(&mut ledger, data).unwrap();
    let program_id = ledger.program_id;
    let authority = Mint::unpack(&ledger.mint.data).unwrap().mint_authority;
    let mut signer = SolanaAccount::default();

    // a spent source keeps its record; refunding it does not make it fresh
    ledger.sources[0].lamports = account_minimum_balance();
    let record = ledger.sources[0].data.clone();
    assert_eq!(
        do_process_instruction(
            mint(
                &program_id,
                &ledger.mint_key,
                &ledger.keys[0],
                &authority,
                sample_mint_client_for_test(1)
            )
            .unwrap(),
            vec![&mut ledger.mint, &mut ledger.sources[0], &mut signer, &mut ledger.rent],
        ),
        Err(token(CTokenError::AlreadyInUse))
    );
    assert_eq!(ledger.sources[0].data, record);

    // a closed account keeps its record, too
    let kept = Account::unpack(&ledger.destinations[0].data).unwrap();
    let close = CloseAccountData { amount: 22, commitment: kept.comm, opening: ledger.openings.0 };
    let mut receiver = SolanaAccount::new(0, 0, &program_id);
    do_process_instruction(
        close_account(&program_id, &ledger.keys[2], &new_unique(), close).unwrap(),
        vec![&mut ledger.destinations[0], &mut receiver],
    )
    .unwrap();
    ledger.destinations[0].lamports = account_minimum_balance();
    let record = ledger.destinations[0].data.clone();
    assert_eq!(
        do_process_instruction(
            mint(
                &program_id,
                &ledger.mint_key,
                &ledger.keys[2],
                &authority,
                sample_mint_client_for_test(1)
            )
            .unwrap(),
            vec![&mut ledger.mint, &mut ledger.destinations[0], &mut signer, &mut ledger.rent],
        ),
        Err(token(CTokenError::AlreadyInUse))
    );
    assert_eq!(ledger.destinations[0].data, record);
    assert_eq!(Mint::unpack(&ledger.mint.data).unwrap().supply, 87);
}

#[test]
fn handlers_can_be_called_without_the_wire() {
    let program_id = id();
    let authority = new_unique();
    let mut infos = vec![
        AccountInfo::new(new_unique(), 1, vec![0; 41], program_id, true),
        AccountInfo::new(rent_sysvar_id(), 1, vec![], Pubkey::default(), false),
    ];
    assert_eq!(Processor::process_initialize_mint(&mut infos, authority), Ok(()));
    assert_eq!(
        Mint::unpack(&infos[0].data),
        Ok(Mint { mint_authority: authority, supply: 0, is_initialized: true })
    );
    let copy = infos[0].duplicate();
    assert_eq!(copy, infos[0]);
    assert_eq!(infos[0].with_lamports(9).lamports, 9);
    assert_eq!(infos[0].with_data(vec![1]).data, vec![1]);

    infos[0].rent_exempt = false;
    infos[0].data = vec![0; 41];
    assert_eq!(
        Processor::process_initialize_mint(&mut infos, authority),
        Err(token(CTokenError::NotRentExempt))
    );
    assert_eq!(infos[0].data, vec![0; 41]);

    let mut two = vec![
        AccountInfo::new(new_unique(), 3, vec![], program_id, true),
        AccountInfo::new(new_unique(), 4, vec![], program_id, true),
    ];
    let close = CloseAccountData {
        amount: 0,
        commitment: PedersenComm::from_bytes([0; 32]),
        opening: BorshScalar::zero(),
    };
    assert_eq!(Processor::process_close_account(&mut two, close), Ok(()));
    assert_eq!((two[0].lamports, two[1].lamports), (0, 7));
    assert_eq!(
        Processor::process_mint(&mut two, sample_mint_client_for_test(1)),
        Err(ProgramError::NotEnoughAccountKeys)
    );
    let data = ledger().data;
    assert_eq!(Processor::process_transfer(&mut two, data), Err(ProgramError::NotEnoughAccountKeys));
}
