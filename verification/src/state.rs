//! The two records of the ledger, and their fixed-width forms in account data.

use vstd::prelude::*;
use vstd::bytes::{
    lemma_auto_spec_u64_to_from_le_bytes, spec_u64_from_le_bytes, spec_u64_to_le_bytes,
    u64_from_le_bytes, u64_to_le_bytes,
};
use vstd::slice::slice_subrange;
use crate::bytes::{push32, read32};
use crate::crypto::PedersenComm;
use crate::error::ProgramError;
use crate::pubkey::Pubkey;

verus! {

/// The byte that stands for a flag.
pub open spec fn flag_byte(flag: bool) -> u8 {
    if flag {
        1u8
    } else {
        0u8
    }
}

/// The record of a mint in account data: the authority, the supply least significant
/// byte first, and the flag.
pub open spec fn mint_record(authority: Seq<u8>, supply: u64, initialized: bool) -> Seq<u8> {
    authority + spec_u64_to_le_bytes(supply) + seq![flag_byte(initialized)]
}

/// The record of an account in account data: the mint, the flag, the commitment.
pub open spec fn account_record(mint: Seq<u8>, initialized: bool, comm: Seq<u8>) -> Seq<u8> {
    mint + seq![flag_byte(initialized)] + comm
}

/// Records have their fixed lengths: 41 bytes for a mint and 65 for an account, with
/// the flag in its place.
pub proof fn lemma_record_layout(key: Seq<u8>, supply: u64, initialized: bool, comm: Seq<u8>)
    requires
        key.len() == 32,
        comm.len() == 32,
    ensures
        mint_record(key, supply, initialized).len() == 41,
        mint_record(key, supply, initialized)[40] == flag_byte(initialized),
        account_record(key, initialized, comm).len() == 65,
        account_record(key, initialized, comm)[32] == flag_byte(initialized),
{
    lemma_auto_spec_u64_to_from_le_bytes();
}

/// The record of a mint.
#[derive(Clone, Copy, Debug, PartialEq, Eq)]
pub struct Mint {
    /// The key that may mint.
    pub mint_authority: Pubkey,
    /// The sum of all amounts minted so far.
    pub supply: u64,
    /// Whether the mint has been initialized.
    pub is_initialized: bool,
}

impl Default for Mint {
    /// The record of zero bytes: no authority, nothing minted, not initialized.
    fn default() -> (mint: Mint)
        ensures
            mint.mint_authority@ == crate::bytes::zeros(32),
            mint.supply == 0,
            !mint.is_initialized,
    {
        Mint { mint_authority: Pubkey::default(), supply: 0, is_initialized: false }
    }
}

impl Mint {
    /// The length of the record in account data.
    pub const LEN: usize = 41;

    /// The record in account data.
    pub open spec fn encoding(&self) -> Seq<u8> {
        mint_record(self.mint_authority@, self.supply, self.is_initialized)
    }

    /// Whether `src` is the form of a record: 41 bytes, the last of them 0 or 1.
    pub open spec fn decodable(src: Seq<u8>) -> bool {
        src.len() == 41 && src[40] <= 1
    }

    /// Whether `mint` is the record that `src` holds.
    pub open spec fn decodes_to(src: Seq<u8>, mint: Mint) -> bool {
        &&& mint.mint_authority@ == src.subrange(0, 32)
        &&& mint.supply == spec_u64_from_le_bytes(src.subrange(32, 40))
        &&& mint.is_initialized == (src[40] == 1)
    }

    /// The length of the record in account data.
    pub fn get_packed_len() -> (len: usize)
        ensures
            len == 41,
    {
        41
    }

    /// Whether the mint has been initialized.
    pub fn is_initialized(&self) -> (flag: bool)
        ensures
            flag == self.is_initialized,
    {
        self.is_initialized
    }

    /// The record in account data.
    pub fn encode(&self) -> (out: Vec<u8>)
        ensures
            out@ == self.encoding(),
            out@.len() == 41,
    {
        let mut out: Vec<u8> = Vec::new();
        push32(&mut out, &self.mint_authority.0);
        let supply = u64_to_le_bytes(self.supply);
        out.extend_from_slice(supply.as_slice());
        out.push(if self.is_initialized { 1u8 } else { 0u8 });
        assert(out@ =~= self.encoding());
        out
    }

    /// Reads a record, which must have the right form.
    pub fn unpack_from_slice(src: &[u8]) -> (out: Result<Mint, ProgramError>)
        ensures
            out.is_ok() == Self::decodable(src@),
            out matches Ok(mint) ==> Self::decodes_to(src@, mint),
            out matches Err(e) ==> e == ProgramError::InvalidAccountData,
    {
        if src.len() != 41 {
            return Err(ProgramError::InvalidAccountData);
        }
        let flag = src[40];
        if flag > 1 {
            return Err(ProgramError::InvalidAccountData);
        }
        let mint_authority = Pubkey(read32(src, 0));
        let supply = u64_from_le_bytes(slice_subrange(src, 32, 40));
        Ok(Mint { mint_authority, supply, is_initialized: flag == 1 })
    }

    /// Reads a record without asking whether it is initialized.
    pub fn unpack_unchecked(input: &[u8]) -> (out: Result<Mint, ProgramError>)
        ensures
            out.is_ok() == Self::decodable(input@),
            out matches Ok(mint) ==> Self::decodes_to(input@, mint),
            out matches Err(e) ==> e == ProgramError::InvalidAccountData,
    {
        if input.len() != 41 {
            return Err(ProgramError::InvalidAccountData);
        }
        Self::unpack_from_slice(input)
    }

    /// Reads a record, which must be initialized.
    pub fn unpack(input: &[u8]) -> (out: Result<Mint, ProgramError>)
        ensures
            out.is_ok() == (Self::decodable(input@) && input@[40] == 1),
            out matches Ok(mint) ==> Self::decodes_to(input@, mint) && mint.is_initialized,
            out matches Err(e) ==> e == (if Self::decodable(input@) {
                ProgramError::UninitializedAccount
            } else {
                ProgramError::InvalidAccountData
            }),
    {
        let mint = Self::unpack_unchecked(input)?;
        if mint.is_initialized() {
            Ok(mint)
        } else {
            Err(ProgramError::UninitializedAccount)
        }
    }

    /// Writes the record over `dst`, which has the length of a record.
    pub fn pack_into_slice(&self, dst: &mut Vec<u8>)
        requires
            old(dst)@.len() == 41,
        ensures
            final(dst)@ == self.encoding(),
    {
        *dst = self.encode();
    }

    /// Writes the record over `dst`, and refuses if `dst` has not the length of a
    /// record; `dst` is then left as it was.
    pub fn pack(src: Mint, dst: &mut Vec<u8>) -> (out: Result<(), ProgramError>)
        ensures
            out.is_ok() == (old(dst)@.len() == 41),
            out.is_ok() ==> final(dst)@ == src.encoding(),
            out matches Err(e) ==> e == ProgramError::InvalidAccountData && final(dst)@ == old(
                dst,
            )@,
    {
        if dst.len() != 41 {
            return Err(ProgramError::InvalidAccountData);
        }
        src.pack_into_slice(dst);
        Ok(())
    }
}

/// Reading what was written gives the record back, and no other.
pub proof fn lemma_mint_round_trip(mint: Mint)
    ensures
        Mint::decodable(mint.encoding()),
        Mint::decodes_to(mint.encoding(), mint),
{
    lemma_auto_spec_u64_to_from_le_bytes();
    let e = mint.encoding();
    assert(e.subrange(0, 32) =~= mint.mint_authority@);
    assert(e.subrange(32, 40) =~= spec_u64_to_le_bytes(mint.supply));
}

/// Account data holds at most one record, and writing that record gives the same
/// data again.
pub proof fn lemma_mint_decoding_unique(src: Seq<u8>, a: Mint, b: Mint)
    requires
        Mint::decodable(src),
        Mint::decodes_to(src, a),
        Mint::decodes_to(src, b),
    ensures
        a == b,
        a.encoding() == src,
{
    crate::pubkey::lemma_pubkey_ext(a.mint_authority, b.mint_authority);
    lemma_auto_spec_u64_to_from_le_bytes();
    assert(spec_u64_to_le_bytes(spec_u64_from_le_bytes(src.subrange(32, 40))) == src.subrange(
        32,
        40,
    ));
    assert(a.encoding() =~= src);
}

/// The record of an account: one commitment, bound to a mint.
#[derive(Clone, Copy, Debug, PartialEq, Eq)]
pub struct Account {
    /// The mint that the account belongs to.
    pub mint: Pubkey,
    /// Whether the account has been initialized.
    pub is_initialized: bool,
    /// The commitment that the account holds.
    pub comm: PedersenComm,
}

impl Default for Account {
    /// The record of zero bytes: no mint, not initialized, the identity as commitment.
    fn default() -> (account: Account)
        ensures
            account.mint@ == crate::bytes::zeros(32),
            !account.is_initialized,
            account.comm@ == crate::bytes::zeros(32),
    {
        let comm = PedersenComm::from_bytes([0u8; 32]);
        assert(comm@ =~= crate::bytes::zeros(32));
        Account { mint: Pubkey::default(), is_initialized: false, comm }
    }
}

impl Account {
    /// The length of the record in account data.
    pub const LEN: usize = 65;

    /// The record in account data.
    pub open spec fn encoding(&self) -> Seq<u8> {
        account_record(self.mint@, self.is_initialized, self.comm@)
    }

    /// Whether `src` is the form of a record: 65 bytes, the 33rd of them 0 or 1.
    pub open spec fn decodable(src: Seq<u8>) -> bool {
        src.len() == 65 && src[32] <= 1
    }

    /// Whether `account` is the record that `src` holds.
    pub open spec fn decodes_to(src: Seq<u8>, account: Account) -> bool {
        &&& account.mint@ == src.subrange(0, 32)
        &&& account.is_initialized == (src[32] == 1)
        &&& account.comm@ == src.subrange(33, 65)
    }

    /// Whether `src` holds an initialized record.
    pub open spec fn holds_initialized(src: Seq<u8>) -> bool {
        src.len() == 65 && src[32] == 1
    }

    /// The length of the record in account data.
    pub fn get_packed_len() -> (len: usize)
        ensures
            len == 65,
    {
        65
    }

    /// Whether the account has been initialized.
    pub fn is_initialized(&self) -> (flag: bool)
        ensures
            flag == self.is_initialized,
    {
        self.is_initialized
    }

    /// The record in account data.
    pub fn encode(&self) -> (out: Vec<u8>)
        ensures
            out@ == self.encoding(),
            out@.len() == 65,
    {
        let mut out: Vec<u8> = Vec::new();
        push32(&mut out, &self.mint.0);
        out.push(if self.is_initialized { 1u8 } else { 0u8 });
        let comm = self.comm.to_bytes();
        push32(&mut out, &comm);
        assert(out@ =~= self.encoding());
        out
    }

    /// Reads a record, which must have the right form.
    pub fn unpack_from_slice(src: &[u8]) -> (out: Result<Account, ProgramError>)
        ensures
            out.is_ok() == Self::decodable(src@),
            out matches Ok(account) ==> Self::decodes_to(src@, account),
            out matches Err(e) ==> e == ProgramError::InvalidAccountData,
    {
        if src.len() != 65 {
            return Err(ProgramError::InvalidAccountData);
        }
        let flag = src[32];
        if flag > 1 {
            return Err(ProgramError::InvalidAccountData);
        }
        let mint = Pubkey(read32(src, 0));
        let comm = PedersenComm::from_bytes(read32(src, 33));
        Ok(Account { mint, is_initialized: flag == 1, comm })
    }

    /// Reads a record without asking whether it is initialized.
    pub fn unpack_unchecked(input: &[u8]) -> (out: Result<Account, ProgramError>)
        ensures
            out.is_ok() == Self::decodable(input@),
            out matches Ok(account) ==> Self::decodes_to(input@, account),
            out matches Err(e) ==> e == ProgramError::InvalidAccountData,
    {
        if input.len() != 65 {
            return Err(ProgramError::InvalidAccountData);
        }
        Self::unpack_from_slice(input)
    }

    /// Reads a record, which must be initialized.
    pub fn unpack(input: &[u8]) -> (out: Result<Account, ProgramError>)
        ensures
            out.is_ok() == Self::holds_initialized(input@),
            out matches Ok(account) ==> Self::decodes_to(input@, account)
                && account.is_initialized,
            out matches Err(e) ==> e == (if Self::decodable(input@) {
                ProgramError::UninitializedAccount
            } else {
                ProgramError::InvalidAccountData
            }),
    {
        let account = Self::unpack_unchecked(input)?;
        if account.is_initialized() {
            Ok(account)
        } else {
            Err(ProgramError::UninitializedAccount)
        }
    }

    /// Writes the record over `dst`, which has the length of a record.
    pub fn pack_into_slice(&self, dst: &mut Vec<u8>)
        requires
            old(dst)@.len() == 65,
        ensures
            final(dst)@ == self.encoding(),
    {
        *dst = self.encode();
    }

    /// Writes the record over `dst`, and refuses if `dst` has not the length of a
    /// record; `dst` is then left as it was.
    pub fn pack(src: Account, dst: &mut Vec<u8>) -> (out: Result<(), ProgramError>)
        ensures
            out.is_ok() == (old(dst)@.len() == 65),
            out.is_ok() ==> final(dst)@ == src.encoding(),
            out matches Err(e) ==> e == ProgramError::InvalidAccountData && final(dst)@ == old(
                dst,
            )@,
    {
        if dst.len() != 65 {
            return Err(ProgramError::InvalidAccountData);
        }
        src.pack_into_slice(dst);
        Ok(())
    }
}

/// Reading what was written gives the record back.
pub proof fn lemma_account_round_trip(account: Account)
    ensures
        Account::decodable(account.encoding()),
        Account::decodes_to(account.encoding(), account),
        Account::holds_initialized(account.encoding()) == account.is_initialized,
{
    let e = account.encoding();
    assert(e.subrange(0, 32) =~= account.mint@);
    assert(e.subrange(33, 65) =~= account.comm@);
}

/// Account data holds at most one record, and writing that record gives the same
/// data again.
pub proof fn lemma_account_decoding_unique(src: Seq<u8>, a: Account, b: Account)
    requires
        Account::decodable(src),
        Account::decodes_to(src, a),
        Account::decodes_to(src, b),
    ensures
        a.mint == b.mint,
        a.is_initialized == b.is_initialized,
        a.comm@ == b.comm@,
        a.encoding() == src,
{
    crate::pubkey::lemma_pubkey_ext(a.mint, b.mint);
    assert(a.encoding() =~= src);
}

} // verus!
