//! The records of the token program, and how they are read from and written
//! to storage cells.

use vstd::prelude::*;
use crate::account::Account;
use crate::error::{ProgramError, ProgramResult};
use crate::key::Key;
use crate::record::{load_unchecked, save, saved, Record};
use crate::wire::{
    key_at, lemma_key_canonical, lemma_key_round_trip, lemma_u64_canonical, lemma_u64_round_trip,
    push_key, push_u64, read_key, read_u64, u64_at, u64_bytes,
};

verus! {

/// Number of bytes of a mint record.
pub const MINT_LEN: usize = 41;

/// Number of bytes of a token account record.
pub const TOKEN_ACCOUNT_LEN: usize = 73;

/// The leading byte of a record of the token program, which says what the
/// record is.
#[derive(Clone, Copy, Debug, PartialEq, Eq, Structural)]
pub enum AccountTag {
    /// Nothing yet: the cell waits to be initialized. Byte 0.
    Uninitialized,
    /// A mint. Byte 1.
    Mint,
    /// A token account. Byte 2.
    TokenAccount,
}

impl AccountTag {
    /// The byte that stands for the tag.
    pub open spec fn byte(self) -> u8 {
        match self {
            AccountTag::Uninitialized => 0,
            AccountTag::Mint => 1,
            AccountTag::TokenAccount => 2,
        }
    }

    /// The tag that a byte stands for.
    pub open spec fn of_byte(byte: u8) -> Option<AccountTag> {
        if byte == 0 {
            Some(AccountTag::Uninitialized)
        } else if byte == 1 {
            Some(AccountTag::Mint)
        } else if byte == 2 {
            Some(AccountTag::TokenAccount)
        } else {
            None
        }
    }

    /// The byte that stands for the tag.
    pub fn to_byte(&self) -> (r: u8)
        ensures
            r == self.byte(),
    {
        match self {
            AccountTag::Uninitialized => 0,
            AccountTag::Mint => 1,
            AccountTag::TokenAccount => 2,
        }
    }

    /// The tag that a byte stands for.
    pub fn from_byte(byte: u8) -> (r: Option<AccountTag>)
        ensures
            r == Self::of_byte(byte),
    {
        if byte == 0 {
            Some(AccountTag::Uninitialized)
        } else if byte == 1 {
            Some(AccountTag::Mint)
        } else if byte == 2 {
            Some(AccountTag::TokenAccount)
        } else {
            None
        }
    }
}

/// A mint: the key that may create its tokens, and how many exist. Layout:
/// the tag, the authority in 32 bytes, the supply in eight.
#[derive(Clone, Copy, Debug, PartialEq, Eq)]
pub struct Mint {
    pub tag: AccountTag,
    pub authority: Key,
    pub supply: u64,
}

impl Record for Mint {
    open spec fn encoding(&self) -> Seq<u8> {
        seq![self.tag.byte()] + self.authority@ + u64_bytes(self.supply)
    }

    open spec fn parse(bytes: Seq<u8>) -> Option<Mint> {
        if bytes.len() == 41 && AccountTag::of_byte(bytes[0]) is Some {
            Some(
                Mint {
                    tag: AccountTag::of_byte(bytes[0])->0,
                    authority: key_at(bytes, 1),
                    supply: u64_at(bytes, 33),
                },
            )
        } else {
            None
        }
    }

    proof fn lemma_round_trip(&self) {
        let bytes = self.encoding();
        let tag = seq![self.tag.byte()];
        lemma_key_round_trip(tag, self.authority, u64_bytes(self.supply));
        lemma_u64_round_trip(tag + self.authority@, self.supply, Seq::empty());
        assert(tag + self.authority@ + u64_bytes(self.supply) + Seq::<u8>::empty() =~= bytes);
    }

    proof fn lemma_canonical(bytes: Seq<u8>) {
        lemma_key_canonical(bytes, 1);
        lemma_u64_canonical(bytes, 33);
        assert(seq![bytes[0]] + bytes.subrange(1, 33) + bytes.subrange(33, 41) =~= bytes);
    }

    fn try_from_slice(v: &[u8]) -> (r: Result<Mint, ProgramError>) {
        if v.len() != MINT_LEN {
            return Err(ProgramError::BorshIoError);
        }
        match AccountTag::from_byte(v[0]) {
            None => Err(ProgramError::BorshIoError),
            Some(tag) => Ok(Mint { tag, authority: read_key(v, 1), supply: read_u64(v, 33) }),
        }
    }

    fn to_bytes(&self) -> (r: Vec<u8>) {
        let mut out: Vec<u8> = Vec::new();
        out.push(self.tag.to_byte());
        push_key(&mut out, &self.authority);
        push_u64(&mut out, self.supply);
        assert(out@ =~= self.encoding());
        out
    }
}

impl Mint {
    /// What `load` gives for a cell that holds `bytes`.
    pub open spec fn loaded(bytes: Seq<u8>) -> Result<Mint, ProgramError> {
        match Mint::parse(bytes) {
            None => Err(ProgramError::BorshIoError),
            Some(mint) => if mint.tag != AccountTag::Mint {
                Err(ProgramError::InvalidAccountData)
            } else {
                Ok(mint)
            },
        }
    }

    /// Reads the record in the cell without a look at its tag: for a cell
    /// that is about to be initialized.
    pub fn load_unchecked(ai: &Account) -> (r: Result<Mint, ProgramError>)
        ensures
            r == (match Mint::parse(ai.data@) {
                Some(mint) => Ok::<Mint, ProgramError>(mint),
                None => Err(ProgramError::BorshIoError),
            }),
    {
        load_unchecked(ai)
    }

    /// `InvalidAccountData` unless the record is tagged as a mint.
    fn validate(&self) -> (r: ProgramResult)
        ensures
            r == (if self.tag != AccountTag::Mint {
                Err::<(), ProgramError>(ProgramError::InvalidAccountData)
            } else {
                Ok(())
            }),
    {
        if self.tag != AccountTag::Mint {
            return Err(ProgramError::InvalidAccountData);
        }
        Ok(())
    }

    /// Reads the mint in the cell: the bytes must be a record, and its tag
    /// that of a mint.
    pub fn load(ai: &Account) -> (r: Result<Mint, ProgramError>)
        ensures
            r == Mint::loaded(ai.data@),
    {
        let mint: Mint = load_unchecked(ai)?;
        mint.validate()?;
        Ok(mint)
    }

    /// Writes the record over the first bytes of the cell, in place. A cell
    /// too short for the record is left as it is.
    pub fn save(&self, ai: &mut Account) -> (r: ProgramResult)
        ensures
            final(ai).key == old(ai).key,
            final(ai).is_signer == old(ai).is_signer,
            old(ai).data@.len() >= MINT_LEN ==> r is Ok && final(ai).data@ == saved(
                *self,
                old(ai).data@,
            ),
            old(ai).data@.len() < MINT_LEN ==> r == Err::<(), ProgramError>(
                ProgramError::BorshIoError,
            ) && *final(ai) == *old(ai),
    {
        proof {
            self.lemma_round_trip();
        }
        save(self, ai)
    }
}

/// A token account: who owns it, which mint its tokens belong to, and how
/// many it holds. Layout: the tag, the owner in 32 bytes, the mint in 32
/// bytes, the amount in eight.
#[derive(Clone, Copy, Debug, PartialEq, Eq)]
pub struct TokenAccount {
    pub tag: AccountTag,
    pub owner: Key,
    pub mint: Key,
    pub amount: u64,
}

impl Record for TokenAccount {
    open spec fn encoding(&self) -> Seq<u8> {
        seq![self.tag.byte()] + self.owner@ + self.mint@ + u64_bytes(self.amount)
    }

    open spec fn parse(bytes: Seq<u8>) -> Option<TokenAccount> {
        if bytes.len() == 73 && AccountTag::of_byte(bytes[0]) is Some {
            Some(
                TokenAccount {
                    tag: AccountTag::of_byte(bytes[0])->0,
                    owner: key_at(bytes, 1),
                    mint: key_at(bytes, 33),
                    amount: u64_at(bytes, 65),
                },
            )
        } else {
            None
        }
    }

    proof fn lemma_round_trip(&self) {
        let bytes = self.encoding();
        let tag = seq![self.tag.byte()];
        lemma_key_round_trip(tag, self.owner, self.mint@ + u64_bytes(self.amount));
        lemma_key_round_trip(tag + self.owner@, self.mint, u64_bytes(self.amount));
        lemma_u64_round_trip(tag + self.owner@ + self.mint@, self.amount, Seq::empty());
        assert(tag + self.owner@ + (self.mint@ + u64_bytes(self.amount)) =~= bytes);
        assert(tag + self.owner@ + self.mint@ + u64_bytes(self.amount) + Seq::<u8>::empty()
            =~= bytes);
    }

    proof fn lemma_canonical(bytes: Seq<u8>) {
        lemma_key_canonical(bytes, 1);
        lemma_key_canonical(bytes, 33);
        lemma_u64_canonical(bytes, 65);
        assert(seq![bytes[0]] + bytes.subrange(1, 33) + bytes.subrange(33, 65) + bytes.subrange(
            65,
            73,
        ) =~= bytes);
    }

    fn try_from_slice(v: &[u8]) -> (r: Result<TokenAccount, ProgramError>) {
        if v.len() != TOKEN_ACCOUNT_LEN {
            return Err(ProgramError::BorshIoError);
        }
        match AccountTag::from_byte(v[0]) {
            None => Err(ProgramError::BorshIoError),
            Some(tag) => Ok(
                TokenAccount {
                    tag,
                    owner: read_key(v, 1),
                    mint: read_key(v, 33),
                    amount: read_u64(v, 65),
                },
            ),
        }
    }

    fn to_bytes(&self) -> (r: Vec<u8>) {
        let mut out: Vec<u8> = Vec::new();
        out.push(self.tag.to_byte());
        push_key(&mut out, &self.owner);
        push_key(&mut out, &self.mint);
        push_u64(&mut out, self.amount);
        assert(out@ =~= self.encoding());
        out
    }
}

impl TokenAccount {
    /// What `load` gives for a cell that holds `bytes`.
    pub open spec fn loaded(bytes: Seq<u8>) -> Result<TokenAccount, ProgramError> {
        match TokenAccount::parse(bytes) {
            None => Err(ProgramError::BorshIoError),
            Some(account) => if account.tag != AccountTag::TokenAccount {
                Err(ProgramError::InvalidAccountData)
            } else {
                Ok(account)
            },
        }
    }

    /// Reads the record in the cell without a look at its tag: for a cell
    /// that is about to be initialized.
    pub fn load_unchecked(ai: &Account) -> (r: Result<TokenAccount, ProgramError>)
        ensures
            r == (match TokenAccount::parse(ai.data@) {
                Some(account) => Ok::<TokenAccount, ProgramError>(account),
                None => Err(ProgramError::BorshIoError),
            }),
    {
        load_unchecked(ai)
    }

    /// `InvalidAccountData` unless the record is tagged as a token account.
    fn validate(&self) -> (r: ProgramResult)
        ensures
            r == (if self.tag != AccountTag::TokenAccount {
                Err::<(), ProgramError>(ProgramError::InvalidAccountData)
            } else {
                Ok(())
            }),
    {
        if self.tag != AccountTag::TokenAccount {
            return Err(ProgramError::InvalidAccountData);
        }
        Ok(())
    }

    /// Reads the token account in the cell: the bytes must be a record, and
    /// its tag that of a token account.
    pub fn load(ai: &Account) -> (r: Result<TokenAccount, ProgramError>)
        ensures
            r == TokenAccount::loaded(ai.data@),
    {
        let account: TokenAccount = load_unchecked(ai)?;
        account.validate()?;
        Ok(account)
    }

    /// Writes the record over the first bytes of the cell, in place. A cell
    /// too short for the record is left as it is.
    pub fn save(&self, ai: &mut Account) -> (r: ProgramResult)
        ensures
            final(ai).key == old(ai).key,
            final(ai).is_signer == old(ai).is_signer,
            old(ai).data@.len() >= TOKEN_ACCOUNT_LEN ==> r is Ok && final(ai).data@ == saved(
                *self,
                old(ai).data@,
            ),
            old(ai).data@.len() < TOKEN_ACCOUNT_LEN ==> r == Err::<(), ProgramError>(
                ProgramError::BorshIoError,
            ) && *final(ai) == *old(ai),
    {
        proof {
            self.lemma_round_trip();
        }
        save(self, ai)
    }
}

} // verus!
