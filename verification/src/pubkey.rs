//! Account keys, and what the host hands over of an account.

use vstd::prelude::*;
use crate::bytes::{bytes32_eq, read32};

verus! {

/// The key of an account: 32 bytes.
#[derive(Clone, Copy, Debug, PartialEq, Eq, Hash)]
pub struct Pubkey(pub [u8; 32]);

impl View for Pubkey {
    type V = Seq<u8>;

    open spec fn view(&self) -> Seq<u8> {
        self.0@
    }
}

impl Default for Pubkey {
    /// The key of 32 zero bytes.
    fn default() -> (key: Pubkey)
        ensures
            key@ == crate::bytes::zeros(32),
    {
        let key = Pubkey([0u8; 32]);
        assert(key@ =~= crate::bytes::zeros(32));
        key
    }
}

impl Pubkey {
    /// The key made of the 32 bytes of `bytes`.
    pub fn new(bytes: &[u8]) -> (key: Pubkey)
        requires
            bytes@.len() == 32,
        ensures
            key@ == bytes@,
    {
        let key = Pubkey(read32(bytes, 0));
        assert(bytes@.subrange(0, 32) =~= bytes@);
        key
    }

    /// The key made of `bytes`.
    pub fn new_from_array(bytes: [u8; 32]) -> (key: Pubkey)
        ensures
            key@ == bytes@,
    {
        Pubkey(bytes)
    }

    /// The 32 bytes of the key.
    pub fn to_bytes(&self) -> (bytes: [u8; 32])
        ensures
            bytes@ == self@,
    {
        self.0
    }

    /// Whether two keys are the same bytes.
    pub fn equals(&self, other: &Pubkey) -> (same: bool)
        ensures
            same == (self@ == other@),
    {
        bytes32_eq(&self.0, &other.0)
    }
}

/// Keys with the same bytes are the same key.
pub proof fn lemma_pubkey_ext(a: Pubkey, b: Pubkey)
    requires
        a@ == b@,
    ensures
        a == b,
{
    assert(a.0 =~= b.0);
}

/// What the host hands over of an account for one instruction, and takes back after
/// it.
#[derive(Clone, Debug, PartialEq, Eq)]
pub struct AccountInfo {
    /// The key of the account.
    pub key: Pubkey,
    /// Whether the transaction was signed with this key.
    pub is_signer: bool,
    /// Whether the instruction may change the account.
    pub is_writable: bool,
    /// The balance of the account.
    pub lamports: u64,
    /// The record that the account holds.
    pub data: Vec<u8>,
    /// The program that owns the account.
    pub owner: Pubkey,
    /// The answer of the host's rent oracle: whether the balance exempts an account
    /// with data of this length from rent.
    pub rent_exempt: bool,
}

/// An account as specifications see it.
pub struct AccountState {
    pub key: Seq<u8>,
    pub is_signer: bool,
    pub is_writable: bool,
    pub lamports: u64,
    pub data: Seq<u8>,
    pub owner: Seq<u8>,
    pub rent_exempt: bool,
}

impl View for AccountInfo {
    type V = AccountState;

    open spec fn view(&self) -> AccountState {
        AccountState {
            key: self.key@,
            is_signer: self.is_signer,
            is_writable: self.is_writable,
            lamports: self.lamports,
            data: self.data@,
            owner: self.owner@,
            rent_exempt: self.rent_exempt,
        }
    }
}

impl DeepView for AccountInfo {
    type V = AccountState;

    open spec fn deep_view(&self) -> AccountState {
        self@
    }
}

impl AccountInfo {
    /// An account with the given key, balance, data and owner, which has not signed.
    pub fn new(key: Pubkey, lamports: u64, data: Vec<u8>, owner: Pubkey, rent_exempt: bool) -> (a:
        AccountInfo)
        ensures
            a@ == (AccountState {
                key: key@,
                is_signer: false,
                is_writable: true,
                lamports,
                data: data@,
                owner: owner@,
                rent_exempt,
            }),
    {
        AccountInfo { key, is_signer: false, is_writable: true, lamports, data, owner, rent_exempt }
    }

    /// A copy of the account.
    pub fn duplicate(&self) -> (a: AccountInfo)
        ensures
            a@ == self@,
    {
        AccountInfo {
            key: self.key,
            is_signer: self.is_signer,
            is_writable: self.is_writable,
            lamports: self.lamports,
            data: self.data.clone(),
            owner: self.owner,
            rent_exempt: self.rent_exempt,
        }
    }

    /// The account with `data` in place of its record.
    pub fn with_data(&self, data: Vec<u8>) -> (a: AccountInfo)
        ensures
            a@ == (AccountState { data: data@, ..self@ }),
    {
        AccountInfo {
            key: self.key,
            is_signer: self.is_signer,
            is_writable: self.is_writable,
            lamports: self.lamports,
            data,
            owner: self.owner,
            rent_exempt: self.rent_exempt,
        }
    }

    /// The account with the balance `lamports`.
    pub fn with_lamports(&self, lamports: u64) -> (a: AccountInfo)
        ensures
            a@ == (AccountState { lamports, ..self@ }),
    {
        AccountInfo {
            key: self.key,
            is_signer: self.is_signer,
            is_writable: self.is_writable,
            lamports,
            data: self.data.clone(),
            owner: self.owner,
            rent_exempt: self.rent_exempt,
        }
    }
}

} // verus!
