//! The token rules over records that are already loaded.
//!
//! Here a framework of the host does the loading: before a handler runs,
//! each record was read from its cell and each signer was checked, and after
//! a handler that succeeds each record is written back. A handler gets the
//! records of one instruction, with the address of the cell of each, and
//! changes them in place. A handler that fails changes nothing.
//!
//! What the framework needs to know of the program is here too: which
//! handler a payload selects, how a record lies in its cell, and which cell
//! an Initialize handler asks the host for: at the address derived from the
//! payer, and for a token account from the payer and the mint.

use vstd::prelude::*;
use crate::authority::{derived, seed_bytes};
use crate::bridge::{AuthorityProof, AuthorityProofView, CellCreation, CellCreationView};
use crate::error::{ProgramError, ProgramResult};
use crate::key::Key;
use crate::record::Record;
use crate::wire::{
    key_at, lemma_key_canonical, lemma_key_round_trip, lemma_u64_canonical, lemma_u64_round_trip,
    push_bytes, push_key, push_u64, read_key, read_u64, u64_at, u64_bytes,
};

verus! {

/// Number of bytes of a stored mint.
pub const MINT_LEN: usize = 48;

/// Number of bytes of a stored token account.
pub const TOKEN_ACCOUNT_LEN: usize = 80;

/// The eight bytes that lead a stored mint and say what the record is: the
/// first bytes of the SHA-256 hash of `account:Mint`.
pub const MINT_TAG: [u8; 8] = [80, 188, 245, 20, 95, 138, 57, 156];

/// The eight bytes that lead a stored token account: the first bytes of the
/// SHA-256 hash of `account:TokenAccount`.
pub const TOKEN_ACCOUNT_TAG: [u8; 8] = [220, 131, 236, 16, 145, 206, 207, 54];

/// A mint: the key that may create its tokens, and how many exist.
#[derive(Clone, Copy, Debug, PartialEq, Eq)]
pub struct Mint {
    pub authority: Key,
    pub supply: u64,
}

/// A token account: its mint, its owner, and how many tokens it holds.
#[derive(Clone, Copy, Debug, PartialEq, Eq)]
pub struct TokenAccount {
    pub mint: Key,
    pub owner: Key,
    pub amount: u64,
}

impl Record for Mint {
    open spec fn encoding(&self) -> Seq<u8> {
        MINT_TAG@ + self.authority@ + u64_bytes(self.supply)
    }

    open spec fn parse(bytes: Seq<u8>) -> Option<Mint> {
        if bytes.len() == 48 && bytes.subrange(0, 8) == MINT_TAG@ {
            Some(Mint { authority: key_at(bytes, 8), supply: u64_at(bytes, 40) })
        } else {
            None
        }
    }

    proof fn lemma_round_trip(&self) {
        let bytes = self.encoding();
        lemma_key_round_trip(MINT_TAG@, self.authority, u64_bytes(self.supply));
        lemma_u64_round_trip(MINT_TAG@ + self.authority@, self.supply, Seq::empty());
        assert(MINT_TAG@ + self.authority@ + u64_bytes(self.supply) + Seq::<u8>::empty()
            =~= bytes);
        assert(bytes.subrange(0, 8) =~= MINT_TAG@);
    }

    proof fn lemma_canonical(bytes: Seq<u8>) {
        lemma_key_canonical(bytes, 8);
        lemma_u64_canonical(bytes, 40);
        assert(bytes.subrange(0, 8) + bytes.subrange(8, 40) + bytes.subrange(40, 48) =~= bytes);
    }

    fn try_from_slice(v: &[u8]) -> (r: Result<Mint, ProgramError>) {
        if v.len() != MINT_LEN || !starts_with_tag(v, &MINT_TAG) {
            return Err(ProgramError::BorshIoError);
        }
        Ok(Mint { authority: read_key(v, 8), supply: read_u64(v, 40) })
    }

    fn to_bytes(&self) -> (r: Vec<u8>) {
        let mut out: Vec<u8> = Vec::new();
        push_bytes(&mut out, MINT_TAG.as_slice());
        push_key(&mut out, &self.authority);
        push_u64(&mut out, self.supply);
        assert(out@ =~= self.encoding());
        out
    }
}

impl Record for TokenAccount {
    open spec fn encoding(&self) -> Seq<u8> {
        TOKEN_ACCOUNT_TAG@ + self.mint@ + self.owner@ + u64_bytes(self.amount)
    }

    open spec fn parse(bytes: Seq<u8>) -> Option<TokenAccount> {
        if bytes.len() == 80 && bytes.subrange(0, 8) == TOKEN_ACCOUNT_TAG@ {
            Some(
                TokenAccount {
                    mint: key_at(bytes, 8),
                    owner: key_at(bytes, 40),
                    amount: u64_at(bytes, 72),
                },
            )
        } else {
            None
        }
    }

    proof fn lemma_round_trip(&self) {
        let bytes = self.encoding();
        let tag = TOKEN_ACCOUNT_TAG@;
        lemma_key_round_trip(tag, self.mint, self.owner@ + u64_bytes(self.amount));
        lemma_key_round_trip(tag + self.mint@, self.owner, u64_bytes(self.amount));
        lemma_u64_round_trip(tag + self.mint@ + self.owner@, self.amount, Seq::empty());
        assert(tag + self.mint@ + (self.owner@ + u64_bytes(self.amount)) =~= bytes);
        assert(tag + self.mint@ + self.owner@ + u64_bytes(self.amount) + Seq::<u8>::empty()
            =~= bytes);
        assert(bytes.subrange(0, 8) =~= tag);
    }

    proof fn lemma_canonical(bytes: Seq<u8>) {
        lemma_key_canonical(bytes, 8);
        lemma_key_canonical(bytes, 40);
        lemma_u64_canonical(bytes, 72);
        assert(bytes.subrange(0, 8) + bytes.subrange(8, 40) + bytes.subrange(40, 72)
            + bytes.subrange(72, 80) =~= bytes);
    }

    fn try_from_slice(v: &[u8]) -> (r: Result<TokenAccount, ProgramError>) {
        if v.len() != TOKEN_ACCOUNT_LEN || !starts_with_tag(v, &TOKEN_ACCOUNT_TAG) {
            return Err(ProgramError::BorshIoError);
        }
        Ok(
            TokenAccount {
                mint: read_key(v, 8),
                owner: read_key(v, 40),
                amount: read_u64(v, 72),
            },
        )
    }

    fn to_bytes(&self) -> (r: Vec<u8>) {
        let mut out: Vec<u8> = Vec::new();
        push_bytes(&mut out, TOKEN_ACCOUNT_TAG.as_slice());
        push_key(&mut out, &self.mint);
        push_key(&mut out, &self.owner);
        push_u64(&mut out, self.amount);
        assert(out@ =~= self.encoding());
        out
    }
}

/// Whether the first eight bytes of `v` are `tag`.
pub fn starts_with_tag(v: &[u8], tag: &[u8; 8]) -> (r: bool)
    requires
        v@.len() >= 8,
    ensures
        r == (v@.subrange(0, 8) == tag@),
{
    let mut i: usize = 0;
    while i < 8
        invariant
            i <= 8,
            v@.len() >= 8,
            forall|j: int| 0 <= j < i ==> v@[j] == tag@[j],
        decreases 8 - i,
    {
        if v[i] != tag[i] {
            assert(v@.subrange(0, 8)[i as int] != tag@[i as int]);
            return false;
        }
        i = i + 1;
    }
    assert(v@.subrange(0, 8) =~= tag@);
    true
}

/// A record together with the address of the cell that holds it, and whether
/// the cell held a record when it was read. A record that was not there is
/// blank, and only an Initialize handler takes it.
#[derive(Clone, Copy, Debug, PartialEq, Eq)]
pub struct Loaded<T> {
    pub key: Key,
    pub is_initialized: bool,
    pub record: T,
}

/// A key that signed the invocation.
#[derive(Clone, Copy, Debug, PartialEq, Eq)]
pub struct Signer {
    pub key: Key,
}

/// The records of InitializeMint: the new mint, and the payer, who becomes
/// its authority.
#[derive(Clone, Copy, Debug, PartialEq, Eq)]
pub struct InitializeMint {
    pub mint: Loaded<Mint>,
    pub payer: Signer,
}

/// The records of InitializeTokenAccount: the new token account, its mint,
/// and the payer, who becomes its owner.
#[derive(Clone, Copy, Debug, PartialEq, Eq)]
pub struct InitializeTokenAccount {
    pub token_account: Loaded<TokenAccount>,
    pub mint: Loaded<Mint>,
    pub payer: Signer,
}

/// The records of Mint: the mint, the token account that receives, and the
/// mint's authority.
#[derive(Clone, Copy, Debug, PartialEq, Eq)]
pub struct MintCtx {
    pub mint: Loaded<Mint>,
    pub dst: Loaded<TokenAccount>,
    pub authority: Signer,
}

/// The records of Burn: the mint, the token account that gives, and its
/// owner.
#[derive(Clone, Copy, Debug, PartialEq, Eq)]
pub struct Burn {
    pub mint: Loaded<Mint>,
    pub src: Loaded<TokenAccount>,
    pub owner: Signer,
}

/// The records of Transfer: the source, the destination, and the source's
/// owner.
#[derive(Clone, Copy, Debug, PartialEq, Eq)]
pub struct Transfer {
    pub src: Loaded<TokenAccount>,
    pub dst: Loaded<TokenAccount>,
    pub owner: Signer,
}

/// What reading a mint from the bytes of the cell at `key` gives: the record
/// if the bytes are one, and a blank record otherwise.
pub open spec fn mint_read(key: Key, data: Seq<u8>) -> Loaded<Mint> {
    match Mint::parse(data) {
        Some(record) => Loaded { key, is_initialized: true, record },
        None => Loaded {
            key,
            is_initialized: false,
            record: Mint { authority: Key::zero(), supply: 0 },
        },
    }
}

/// What reading a token account from the bytes of the cell at `key` gives:
/// the record if the bytes are one, and a blank record otherwise.
pub open spec fn token_account_read(key: Key, data: Seq<u8>) -> Loaded<TokenAccount> {
    match TokenAccount::parse(data) {
        Some(record) => Loaded { key, is_initialized: true, record },
        None => Loaded {
            key,
            is_initialized: false,
            record: TokenAccount { mint: Key::zero(), owner: Key::zero(), amount: 0 },
        },
    }
}

/// Reads the mint in the bytes of the cell at `key`.
pub fn read_mint(key: Key, data: &[u8]) -> (r: Loaded<Mint>)
    ensures
        r == mint_read(key, data@),
{
    match Mint::try_from_slice(data) {
        Ok(record) => Loaded { key, is_initialized: true, record },
        Err(_) => Loaded {
            key,
            is_initialized: false,
            record: Mint { authority: Key::default(), supply: 0 },
        },
    }
}

/// Reads the token account in the bytes of the cell at `key`.
pub fn read_token_account(key: Key, data: &[u8]) -> (r: Loaded<TokenAccount>)
    ensures
        r == token_account_read(key, data@),
{
    match TokenAccount::try_from_slice(data) {
        Ok(record) => Loaded { key, is_initialized: true, record },
        Err(_) => Loaded {
            key,
            is_initialized: false,
            record: TokenAccount { mint: Key::default(), owner: Key::default(), amount: 0 },
        },
    }
}

/// The seeds of the address of a mint: the address of the payer who creates
/// it.
pub open spec fn mint_seeds(payer: Key) -> Seq<Seq<u8>> {
    seq![payer@]
}

/// The seeds of the address of a token account: the address of the payer
/// who creates it, and that of its mint.
pub open spec fn token_account_seeds(payer: Key, mint: Key) -> Seq<Seq<u8>> {
    seq![payer@, mint@]
}

/// The request to the host for the cell of a new record, or the error of the
/// check that fails.
///
/// The new cell must be at the address that the seeds derive under the
/// program, else the request fails with `InvalidArgument`. It is paid for by
/// the payer, owned by the program, of the size of
/// the record, and signed for by the derived address. The handles say which
/// cells of the instruction are the payer, the new cell and the host's
/// program that creates cells.
pub open spec fn cell_requested(
    program_id: Key,
    new_cell: Key,
    seeds: Seq<Seq<u8>>,
    space: u64,
    handles: (usize, usize, usize),
) -> Result<CellCreationView, ProgramError> {
    match derived(seeds, program_id@) {
        None => Err(ProgramError::InvalidArgument),
        Some((address, bump)) => if address != new_cell {
            Err(ProgramError::InvalidArgument)
        } else {
            Ok(
                CellCreationView {
                    payer: handles.0,
                    new_cell: handles.1,
                    system_program: handles.2,
                    space,
                    owner: program_id,
                    authority_proof: AuthorityProofView { seeds, bump, program_scope: program_id },
                },
            )
        },
    }
}

/// Asks for the cell of a new record at the address that `seeds` derive.
fn request_cell(
    program_id: &Key,
    new_cell: &Key,
    seeds: Vec<Vec<u8>>,
    space: u64,
    handles: (usize, usize, usize),
) -> (r: Result<CellCreation, ProgramError>)
    ensures
        match cell_requested(*program_id, *new_cell, seed_bytes(&seeds), space, handles) {
            Ok(creation) => r is Ok && r->Ok_0@ == creation,
            Err(e) => r == Err::<CellCreation, ProgramError>(e),
        },
{
    match crate::authority::derive(&seeds, program_id) {
        None => Err(ProgramError::InvalidArgument),
        Some((address, bump)) => {
            if address != *new_cell {
                return Err(ProgramError::InvalidArgument);
            }
            Ok(
                CellCreation {
                    payer: handles.0,
                    new_cell: handles.1,
                    system_program: handles.2,
                    space,
                    owner: *program_id,
                    authority_proof: AuthorityProof { seeds, bump, program_scope: *program_id },
                },
            )
        },
    }
}

/// Asks the host for the cell of a new mint: 48 bytes at the address derived
/// from the payer's. The instruction names the mint, the payer and the
/// host's program that creates cells, in this order.
pub fn create_mint_cell(program_id: &Key, mint: &Key, payer: &Key) -> (r: Result<
    CellCreation,
    ProgramError,
>)
    ensures
        match cell_requested(*program_id, *mint, mint_seeds(*payer), 48, (1, 0, 2)) {
            Ok(creation) => r is Ok && r->Ok_0@ == creation,
            Err(e) => r == Err::<CellCreation, ProgramError>(e),
        },
{
    let mut seeds: Vec<Vec<u8>> = Vec::new();
    seeds.push(payer.to_vec());
    assert(seed_bytes(&seeds) =~= mint_seeds(*payer));
    request_cell(program_id, mint, seeds, 48, (1, 0, 2))
}

/// Asks the host for the cell of a new token account: 80 bytes at the
/// address derived from the payer's and the mint's. The instruction names
/// the token account, the mint, the payer and the host's program that
/// creates cells, in this order.
pub fn create_token_account_cell(
    program_id: &Key,
    token_account: &Key,
    payer: &Key,
    mint: &Key,
) -> (r: Result<CellCreation, ProgramError>)
    ensures
        match cell_requested(
            *program_id,
            *token_account,
            token_account_seeds(*payer, *mint),
            80,
            (2, 0, 3),
        ) {
            Ok(creation) => r is Ok && r->Ok_0@ == creation,
            Err(e) => r == Err::<CellCreation, ProgramError>(e),
        },
{
    let mut seeds: Vec<Vec<u8>> = Vec::new();
    seeds.push(payer.to_vec());
    seeds.push(mint.to_vec());
    assert(seed_bytes(&seeds) =~= token_account_seeds(*payer, *mint));
    request_cell(program_id, token_account, seeds, 80, (2, 0, 3))
}

/// The records after InitializeMint, or the error of the check that fails.
///
/// A cell that holds a mint already is not initialized again. The new mint
/// has the payer as its authority and a supply of zero.
pub open spec fn mint_initialized(ctx: InitializeMint) -> Result<InitializeMint, ProgramError> {
    if ctx.mint.is_initialized {
        Err(ProgramError::InvalidAccountData)
    } else {
        Ok(
            InitializeMint {
                mint: Loaded {
                    is_initialized: true,
                    record: Mint { authority: ctx.payer.key, supply: 0 },
                    ..ctx.mint
                },
                ..ctx
            },
        )
    }
}

/// The records after InitializeTokenAccount, or the error of the first check
/// that fails.
///
/// The mint must be there, and a cell that holds a token account already is
/// not initialized again. The new account is the payer's, in the mint, and
/// empty.
pub open spec fn token_account_initialized(ctx: InitializeTokenAccount) -> Result<
    InitializeTokenAccount,
    ProgramError,
> {
    if !ctx.mint.is_initialized {
        Err(ProgramError::InvalidAccountData)
    } else if ctx.token_account.is_initialized {
        Err(ProgramError::InvalidAccountData)
    } else {
        Ok(
            InitializeTokenAccount {
                token_account: Loaded {
                    is_initialized: true,
                    record: TokenAccount {
                        mint: ctx.mint.key,
                        owner: ctx.payer.key,
                        amount: 0,
                    },
                    ..ctx.token_account
                },
                ..ctx
            },
        )
    }
}

/// The records after Mint, or the error of the first check that fails.
///
/// The signer must be the mint's authority. Both records must be there, and
/// the token account must be of this mint. Supply and balance both go up by
/// the amount, and neither may leave its range.
pub open spec fn minted(ctx: MintCtx, amount: u64) -> Result<MintCtx, ProgramError> {
    if ctx.mint.record.authority != ctx.authority.key {
        Err(ProgramError::MissingRequiredSignature)
    } else if !ctx.dst.is_initialized || !ctx.mint.is_initialized {
        Err(ProgramError::InvalidAccountData)
    } else if ctx.dst.record.mint != ctx.mint.key {
        Err(ProgramError::InvalidAccountData)
    } else if ctx.mint.record.supply + amount > u64::MAX || ctx.dst.record.amount + amount
        > u64::MAX {
        Err(ProgramError::ArithmeticOverflow)
    } else {
        Ok(
            MintCtx {
                mint: Loaded {
                    record: Mint {
                        supply: (ctx.mint.record.supply + amount) as u64,
                        ..ctx.mint.record
                    },
                    ..ctx.mint
                },
                dst: Loaded {
                    record: TokenAccount {
                        amount: (ctx.dst.record.amount + amount) as u64,
                        ..ctx.dst.record
                    },
                    ..ctx.dst
                },
                ..ctx
            },
        )
    }
}

/// The records after Burn, or the error of the first check that fails.
///
/// The signer must be the token account's owner. Both records must be there,
/// and the account must be of this mint and hold the amount. Supply and
/// balance both go down by the amount, and the supply may not go below zero.
pub open spec fn burned(ctx: Burn, amount: u64) -> Result<Burn, ProgramError> {
    if ctx.src.record.owner != ctx.owner.key {
        Err(ProgramError::MissingRequiredSignature)
    } else if !ctx.src.is_initialized || !ctx.mint.is_initialized {
        Err(ProgramError::InvalidAccountData)
    } else if ctx.src.record.mint != ctx.mint.key {
        Err(ProgramError::InvalidAccountData)
    } else if ctx.src.record.amount < amount {
        Err(ProgramError::InvalidAccountData)
    } else if ctx.mint.record.supply < amount {
        Err(ProgramError::ArithmeticOverflow)
    } else {
        Ok(
            Burn {
                mint: Loaded {
                    record: Mint {
                        supply: (ctx.mint.record.supply - amount) as u64,
                        ..ctx.mint.record
                    },
                    ..ctx.mint
                },
                src: Loaded {
                    record: TokenAccount {
                        amount: (ctx.src.record.amount - amount) as u64,
                        ..ctx.src.record
                    },
                    ..ctx.src
                },
                ..ctx
            },
        )
    }
}

/// The records after Transfer, or the error of the first check that fails.
///
/// The signer must be the source's owner. Both records must be there, the
/// source must hold the amount, and both accounts must be of one mint.
/// Source and destination must be two cells: tokens do not move from a cell
/// to itself. The destination's balance may not leave its range.
pub open spec fn transferred(ctx: Transfer, amount: u64) -> Result<Transfer, ProgramError> {
    if ctx.src.record.owner != ctx.owner.key {
        Err(ProgramError::MissingRequiredSignature)
    } else if !ctx.src.is_initialized || !ctx.dst.is_initialized {
        Err(ProgramError::InvalidAccountData)
    } else if ctx.src.record.amount < amount {
        Err(ProgramError::InvalidAccountData)
    } else if ctx.src.record.mint != ctx.dst.record.mint {
        Err(ProgramError::InvalidAccountData)
    } else if ctx.src.key == ctx.dst.key {
        Err(ProgramError::InvalidArgument)
    } else if ctx.dst.record.amount + amount > u64::MAX {
        Err(ProgramError::ArithmeticOverflow)
    } else {
        Ok(
            Transfer {
                src: Loaded {
                    record: TokenAccount {
                        amount: (ctx.src.record.amount - amount) as u64,
                        ..ctx.src.record
                    },
                    ..ctx.src
                },
                dst: Loaded {
                    record: TokenAccount {
                        amount: (ctx.dst.record.amount + amount) as u64,
                        ..ctx.dst.record
                    },
                    ..ctx.dst
                },
                ..ctx
            },
        )
    }
}

/// Makes the record a mint with supply zero, under the payer as authority.
/// A mint that is there already stays as it is.
pub fn initialize_mint(ctx: &mut InitializeMint) -> (r: ProgramResult)
    ensures
        match mint_initialized(*old(ctx)) {
            Ok(after) => r is Ok && *final(ctx) == after,
            Err(e) => r == Err::<(), ProgramError>(e) && *final(ctx) == *old(ctx),
        },
{
    if ctx.mint.is_initialized {
        return Err(ProgramError::InvalidAccountData);
    }
    ctx.mint.is_initialized = true;
    ctx.mint.record.authority = ctx.payer.key;
    ctx.mint.record.supply = 0;
    Ok(())
}

/// Makes the record an empty token account of the payer in the mint. A
/// token account that is there already stays as it is.
pub fn initialize_token_account(ctx: &mut InitializeTokenAccount) -> (r: ProgramResult)
    ensures
        match token_account_initialized(*old(ctx)) {
            Ok(after) => r is Ok && *final(ctx) == after,
            Err(e) => r == Err::<(), ProgramError>(e) && *final(ctx) == *old(ctx),
        },
{
    if !ctx.mint.is_initialized {
        return Err(ProgramError::InvalidAccountData);
    }
    if ctx.token_account.is_initialized {
        return Err(ProgramError::InvalidAccountData);
    }
    ctx.token_account.is_initialized = true;
    ctx.token_account.record.owner = ctx.payer.key;
    ctx.token_account.record.mint = ctx.mint.key;
    ctx.token_account.record.amount = 0;
    Ok(())
}

/// Creates `amount` tokens in the token account.
pub fn mint(ctx: &mut MintCtx, amount: u64) -> (r: ProgramResult)
    ensures
        match minted(*old(ctx), amount) {
            Ok(after) => r is Ok && *final(ctx) == after,
            Err(e) => r == Err::<(), ProgramError>(e) && *final(ctx) == *old(ctx),
        },
{
    if ctx.mint.record.authority != ctx.authority.key {
        return Err(ProgramError::MissingRequiredSignature);
    }
    if !ctx.dst.is_initialized || !ctx.mint.is_initialized {
        return Err(ProgramError::InvalidAccountData);
    }
    if ctx.dst.record.mint != ctx.mint.key {
        return Err(ProgramError::InvalidAccountData);
    }
    let supply = ctx.mint.record.supply.checked_add(amount);
    let balance = ctx.dst.record.amount.checked_add(amount);
    match (supply, balance) {
        (Some(supply), Some(balance)) => {
            ctx.mint.record.supply = supply;
            ctx.dst.record.amount = balance;
            Ok(())
        },
        _ => Err(ProgramError::ArithmeticOverflow),
    }
}

/// Destroys `amount` tokens of the token account.
pub fn burn(ctx: &mut Burn, amount: u64) -> (r: ProgramResult)
    ensures
        match burned(*old(ctx), amount) {
            Ok(after) => r is Ok && *final(ctx) == after,
            Err(e) => r == Err::<(), ProgramError>(e) && *final(ctx) == *old(ctx),
        },
{
    if ctx.src.record.owner != ctx.owner.key {
        return Err(ProgramError::MissingRequiredSignature);
    }
    if !ctx.src.is_initialized || !ctx.mint.is_initialized {
        return Err(ProgramError::InvalidAccountData);
    }
    if ctx.src.record.mint != ctx.mint.key {
        return Err(ProgramError::InvalidAccountData);
    }
    if ctx.src.record.amount < amount {
        return Err(ProgramError::InvalidAccountData);
    }
    if ctx.mint.record.supply < amount {
        return Err(ProgramError::ArithmeticOverflow);
    }
    ctx.mint.record.supply -= amount;
    ctx.src.record.amount -= amount;
    Ok(())
}

/// Moves `amount` tokens from the source to the destination.
pub fn transfer(ctx: &mut Transfer, amount: u64) -> (r: ProgramResult)
    ensures
        match transferred(*old(ctx), amount) {
            Ok(after) => r is Ok && *final(ctx) == after,
            Err(e) => r == Err::<(), ProgramError>(e) && *final(ctx) == *old(ctx),
        },
{
    if ctx.src.record.owner != ctx.owner.key {
        return Err(ProgramError::MissingRequiredSignature);
    }
    if !ctx.src.is_initialized || !ctx.dst.is_initialized {
        return Err(ProgramError::InvalidAccountData);
    }
    if ctx.src.record.amount < amount {
        return Err(ProgramError::InvalidAccountData);
    }
    if ctx.src.record.mint != ctx.dst.record.mint {
        return Err(ProgramError::InvalidAccountData);
    }
    if ctx.src.key == ctx.dst.key {
        return Err(ProgramError::InvalidArgument);
    }
    match ctx.dst.record.amount.checked_add(amount) {
        Some(balance) => {
            ctx.src.record.amount -= amount;
            ctx.dst.record.amount = balance;
            Ok(())
        },
        None => Err(ProgramError::ArithmeticOverflow),
    }
}

/// Mint and Burn change the supply of a mint and the balance of an account
/// of that same mint by the same amount, and Transfer moves an amount
/// between two accounts of one mint: so what is held in a mint changes
/// exactly as its supply does. The two Initialize handlers start a record
/// at zero, and only where there was none.
pub proof fn law_balanced(mint_ctx: MintCtx, burn_ctx: Burn, transfer_ctx: Transfer, amount: u64)
    ensures
        minted(mint_ctx, amount) matches Ok(after) ==> {
            &&& after.dst.record.mint == after.mint.key
            &&& after.mint.record.supply - mint_ctx.mint.record.supply == amount
            &&& after.dst.record.amount - mint_ctx.dst.record.amount == amount
        },
        burned(burn_ctx, amount) matches Ok(after) ==> {
            &&& after.src.record.mint == after.mint.key
            &&& burn_ctx.mint.record.supply - after.mint.record.supply == amount
            &&& burn_ctx.src.record.amount - after.src.record.amount == amount
        },
        transferred(transfer_ctx, amount) matches Ok(after) ==> {
            &&& after.src.key != after.dst.key
            &&& after.src.record.mint == after.dst.record.mint
            &&& after.src.record.amount + after.dst.record.amount
                == transfer_ctx.src.record.amount + transfer_ctx.dst.record.amount
            &&& transfer_ctx.src.record.amount - after.src.record.amount == amount
        },
{
}

/// The signer is checked first. Mint, Burn and Transfer fail with
/// `MissingRequiredSignature` wherever the signer is not the authority of
/// the mint or the owner of the account, whatever else holds of the records
/// and the amount. An Initialize handler fails on a record that is there.
pub proof fn law_signer_first(
    init: InitializeMint,
    mint_ctx: MintCtx,
    burn_ctx: Burn,
    transfer_ctx: Transfer,
    amount: u64,
)
    ensures
        init.mint.is_initialized ==> mint_initialized(init) == Err::<
            InitializeMint,
            ProgramError,
        >(ProgramError::InvalidAccountData),
        mint_ctx.mint.record.authority != mint_ctx.authority.key ==> minted(mint_ctx, amount)
            == Err::<MintCtx, ProgramError>(ProgramError::MissingRequiredSignature),
        burn_ctx.src.record.owner != burn_ctx.owner.key ==> burned(burn_ctx, amount) == Err::<
            Burn,
            ProgramError,
        >(ProgramError::MissingRequiredSignature),
        transfer_ctx.src.record.owner != transfer_ctx.owner.key ==> transferred(
            transfer_ctx,
            amount,
        ) == Err::<Transfer, ProgramError>(ProgramError::MissingRequiredSignature),
{
}

/// The eight bytes that select InitializeMint: the first bytes of the SHA-256
/// hash of `global:initialize_mint`.
pub const INITIALIZE_MINT_SELECTOR: [u8; 8] = [209, 42, 195, 4, 129, 85, 209, 44];

/// The eight bytes that select InitializeTokenAccount: the first bytes of the
/// SHA-256 hash of `global:initialize_token_account`.
pub const INITIALIZE_TOKEN_ACCOUNT_SELECTOR: [u8; 8] = [150, 85, 44, 28, 149, 14, 210, 26];

/// The eight bytes that select Mint: the first bytes of the SHA-256 hash of
/// `global:mint`.
pub const MINT_SELECTOR: [u8; 8] = [51, 57, 225, 47, 182, 146, 137, 166];

/// The eight bytes that select Burn: the first bytes of the SHA-256 hash of
/// `global:burn`.
pub const BURN_SELECTOR: [u8; 8] = [116, 110, 29, 56, 107, 219, 42, 93];

/// The eight bytes that select Transfer: the first bytes of the SHA-256 hash
/// of `global:transfer`.
pub const TRANSFER_SELECTOR: [u8; 8] = [163, 52, 200, 231, 140, 3, 69, 186];

/// An instruction of the token program over typed accounts, which says which
/// handler is to run. The payload is the handler's selector, followed by the
/// amount where there is one.
#[derive(Clone, Copy, Debug, PartialEq, Eq, Structural)]
pub enum TokenProgramInstruction {
    InitializeMint,
    InitializeTokenAccount,
    Mint { amount: u64 },
    Burn { amount: u64 },
    Transfer { amount: u64 },
}

impl TokenProgramInstruction {
    /// The selector of the instruction.
    pub open spec fn selector(self) -> Seq<u8> {
        match self {
            TokenProgramInstruction::InitializeMint => INITIALIZE_MINT_SELECTOR@,
            TokenProgramInstruction::InitializeTokenAccount => INITIALIZE_TOKEN_ACCOUNT_SELECTOR@,
            TokenProgramInstruction::Mint { .. } => MINT_SELECTOR@,
            TokenProgramInstruction::Burn { .. } => BURN_SELECTOR@,
            TokenProgramInstruction::Transfer { .. } => TRANSFER_SELECTOR@,
        }
    }

    /// The payload of the instruction.
    pub open spec fn encode(self) -> Seq<u8> {
        match self {
            TokenProgramInstruction::InitializeMint => self.selector(),
            TokenProgramInstruction::InitializeTokenAccount => self.selector(),
            TokenProgramInstruction::Mint { amount } => self.selector() + u64_bytes(amount),
            TokenProgramInstruction::Burn { amount } => self.selector() + u64_bytes(amount),
            TokenProgramInstruction::Transfer { amount } => self.selector() + u64_bytes(amount),
        }
    }

    /// The instruction that a payload holds, if it is exactly one: the
    /// selector names a handler and the amount, where there is one, fills the
    /// rest.
    pub open spec fn decode(bytes: Seq<u8>) -> Option<TokenProgramInstruction> {
        if bytes.len() == 8 && bytes == INITIALIZE_MINT_SELECTOR@ {
            Some(TokenProgramInstruction::InitializeMint)
        } else if bytes.len() == 8 && bytes == INITIALIZE_TOKEN_ACCOUNT_SELECTOR@ {
            Some(TokenProgramInstruction::InitializeTokenAccount)
        } else if bytes.len() == 16 && bytes.subrange(0, 8) == MINT_SELECTOR@ {
            Some(TokenProgramInstruction::Mint { amount: u64_at(bytes, 8) })
        } else if bytes.len() == 16 && bytes.subrange(0, 8) == BURN_SELECTOR@ {
            Some(TokenProgramInstruction::Burn { amount: u64_at(bytes, 8) })
        } else if bytes.len() == 16 && bytes.subrange(0, 8) == TRANSFER_SELECTOR@ {
            Some(TokenProgramInstruction::Transfer { amount: u64_at(bytes, 8) })
        } else {
            None
        }
    }

    /// Decodes a payload.
    pub fn try_from_slice(v: &[u8]) -> (r: Result<TokenProgramInstruction, ProgramError>)
        ensures
            r == (match Self::decode(v@) {
                Some(instruction) => Ok::<TokenProgramInstruction, ProgramError>(instruction),
                None => Err(ProgramError::InvalidInstructionData),
            }),
    {
        if v.len() == 8 {
            assert(v@.subrange(0, 8) =~= v@);
            if starts_with_tag(v, &INITIALIZE_MINT_SELECTOR) {
                Ok(TokenProgramInstruction::InitializeMint)
            } else if starts_with_tag(v, &INITIALIZE_TOKEN_ACCOUNT_SELECTOR) {
                Ok(TokenProgramInstruction::InitializeTokenAccount)
            } else {
                Err(ProgramError::InvalidInstructionData)
            }
        } else if v.len() == 16 {
            if starts_with_tag(v, &MINT_SELECTOR) {
                Ok(TokenProgramInstruction::Mint { amount: read_u64(v, 8) })
            } else if starts_with_tag(v, &BURN_SELECTOR) {
                Ok(TokenProgramInstruction::Burn { amount: read_u64(v, 8) })
            } else if starts_with_tag(v, &TRANSFER_SELECTOR) {
                Ok(TokenProgramInstruction::Transfer { amount: read_u64(v, 8) })
            } else {
                Err(ProgramError::InvalidInstructionData)
            }
        } else {
            Err(ProgramError::InvalidInstructionData)
        }
    }

    /// Encodes the instruction.
    pub fn try_to_vec(&self) -> (r: Result<Vec<u8>, ProgramError>)
        ensures
            r is Ok,
            r->Ok_0@ == self.encode(),
    {
        let mut out: Vec<u8> = Vec::new();
        match self {
            TokenProgramInstruction::InitializeMint => {
                push_bytes(&mut out, INITIALIZE_MINT_SELECTOR.as_slice());
            },
            TokenProgramInstruction::InitializeTokenAccount => {
                push_bytes(&mut out, INITIALIZE_TOKEN_ACCOUNT_SELECTOR.as_slice());
            },
            TokenProgramInstruction::Mint { amount } => {
                push_bytes(&mut out, MINT_SELECTOR.as_slice());
                push_u64(&mut out, *amount);
            },
            TokenProgramInstruction::Burn { amount } => {
                push_bytes(&mut out, BURN_SELECTOR.as_slice());
                push_u64(&mut out, *amount);
            },
            TokenProgramInstruction::Transfer { amount } => {
                push_bytes(&mut out, TRANSFER_SELECTOR.as_slice());
                push_u64(&mut out, *amount);
            },
        }
        assert(out@ =~= self.encode());
        Ok(out)
    }

    /// The five selectors differ in their first byte.
    proof fn lemma_selectors_differ()
        ensures
            INITIALIZE_MINT_SELECTOR@[0] == 209,
            INITIALIZE_TOKEN_ACCOUNT_SELECTOR@[0] == 150,
            MINT_SELECTOR@[0] == 51,
            BURN_SELECTOR@[0] == 116,
            TRANSFER_SELECTOR@[0] == 163,
    {
    }

    /// Decoding an encoded instruction gives the instruction.
    pub proof fn law_round_trip(instruction: TokenProgramInstruction)
        ensures
            Self::decode(instruction.encode()) == Some(instruction),
    {
        Self::lemma_selectors_differ();
        let bytes = instruction.encode();
        let selector = instruction.selector();
        match instruction {
            TokenProgramInstruction::InitializeMint => {},
            TokenProgramInstruction::InitializeTokenAccount => {
                assert(bytes[0] != INITIALIZE_MINT_SELECTOR@[0]);
            },
            TokenProgramInstruction::Mint { amount } => {
                lemma_u64_round_trip(selector, amount, Seq::empty());
                assert(selector + u64_bytes(amount) + Seq::<u8>::empty() =~= bytes);
                assert(bytes.subrange(0, 8) =~= selector);
            },
            TokenProgramInstruction::Burn { amount } => {
                lemma_u64_round_trip(selector, amount, Seq::empty());
                assert(selector + u64_bytes(amount) + Seq::<u8>::empty() =~= bytes);
                assert(bytes.subrange(0, 8) =~= selector);
                assert(selector[0] != MINT_SELECTOR@[0]);
            },
            TokenProgramInstruction::Transfer { amount } => {
                lemma_u64_round_trip(selector, amount, Seq::empty());
                assert(selector + u64_bytes(amount) + Seq::<u8>::empty() =~= bytes);
                assert(bytes.subrange(0, 8) =~= selector);
                assert(selector[0] != MINT_SELECTOR@[0]);
                assert(selector[0] != BURN_SELECTOR@[0]);
            },
        }
    }

    /// A payload that decodes is the encoding of what it decodes to.
    pub proof fn law_canonical(bytes: Seq<u8>)
        requires
            Self::decode(bytes) is Some,
        ensures
            Self::decode(bytes)->0.encode() == bytes,
    {
        if bytes.len() == 16 {
            lemma_u64_canonical(bytes, 8);
            assert(bytes.subrange(0, 8) + bytes.subrange(8, 16) =~= bytes);
        }
    }
}

} // verus!
