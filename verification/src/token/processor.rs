//! The token program's entry point: the rules by which mints and token
//! accounts change.
//!
//! Every instruction checks, in this order: that the cells it needs are
//! there and hold the records it needs; who signed; and what the records
//! allow. Only then are the records written.
//!
//! A cell may be handed over under two handles, as where an owner signs with
//! the key of its own token account. Only Transfer refuses that, for its
//! source and destination: tokens do not move from a cell to itself.

use vstd::prelude::*;
use crate::account::{next_account_info, Account, Cell};
use crate::error::{assert_with_log, lines, with_line, ProgramError, ProgramResult};
use crate::key::Key;
use crate::record::{written, Record};
use crate::token::instruction::TokenInstruction;
use crate::token::state::{AccountTag, Mint, TokenAccount};

verus! {

/// The token program.
pub struct Processor {}

impl Processor {
    /// The mint that InitializeMint writes over `stored`, with the key of the
    /// cell `authority` as its authority.
    ///
    /// The authority to be must have signed, and a cell that holds a mint
    /// already is not initialized again.
    pub open spec fn mint_initialized(stored: Mint, authority: Cell) -> Result<Mint, ProgramError> {
        if !authority.is_signer {
            Err(ProgramError::MissingRequiredSignature)
        } else if stored.tag == AccountTag::Mint {
            Err(ProgramError::InvalidAccountData)
        } else {
            Ok(Mint { tag: AccountTag::Mint, authority: authority.key, supply: 0 })
        }
    }

    /// The token account that InitializeTokenAccount writes over `stored`: an
    /// empty account of `owner` in the mint at `mint`.
    ///
    /// A cell that holds a token account already is not initialized again, so
    /// that no balance is lost.
    pub open spec fn account_initialized(stored: TokenAccount, owner: Key, mint: Key) -> Result<
        TokenAccount,
        ProgramError,
    > {
        if stored.tag == AccountTag::TokenAccount {
            Err(ProgramError::InvalidAccountData)
        } else {
            Ok(TokenAccount { tag: AccountTag::TokenAccount, owner, mint, amount: 0 })
        }
    }

    /// The mint and the token account after `amount` tokens were created in
    /// the account.
    ///
    /// The mint's authority must have signed, and the account must be of the
    /// mint, which is at `mint_address`. Supply and balance both go up by the
    /// amount, and neither may leave its range.
    pub open spec fn minted(
        mint: Mint,
        mint_address: Key,
        account: TokenAccount,
        authority: Cell,
        amount: u64,
    ) -> Result<(Mint, TokenAccount), ProgramError> {
        if !authority.is_signer {
            Err(ProgramError::MissingRequiredSignature)
        } else if mint.authority != authority.key {
            Err(ProgramError::MissingRequiredSignature)
        } else if account.mint != mint_address {
            Err(ProgramError::InvalidAccountData)
        } else if mint.supply + amount > u64::MAX || account.amount + amount > u64::MAX {
            Err(ProgramError::ArithmeticOverflow)
        } else {
            Ok(
                (
                    Mint { supply: (mint.supply + amount) as u64, ..mint },
                    TokenAccount { amount: (account.amount + amount) as u64, ..account },
                ),
            )
        }
    }

    /// The mint and the token account after `amount` tokens of the account
    /// were destroyed.
    ///
    /// The account's owner must have signed, the account must be of the
    /// mint, which is at `mint_address`, and it must hold the amount. Supply
    /// and balance both go down by the amount, and the supply may not go
    /// below zero.
    pub open spec fn burned(
        mint: Mint,
        mint_address: Key,
        account: TokenAccount,
        owner: Cell,
        amount: u64,
    ) -> Result<(Mint, TokenAccount), ProgramError> {
        if !owner.is_signer {
            Err(ProgramError::MissingRequiredSignature)
        } else if account.owner != owner.key {
            Err(ProgramError::MissingRequiredSignature)
        } else if account.mint != mint_address {
            Err(ProgramError::InvalidAccountData)
        } else if account.amount < amount {
            Err(ProgramError::InvalidAccountData)
        } else if mint.supply < amount {
            Err(ProgramError::ArithmeticOverflow)
        } else {
            Ok(
                (
                    Mint { supply: (mint.supply - amount) as u64, ..mint },
                    TokenAccount { amount: (account.amount - amount) as u64, ..account },
                ),
            )
        }
    }

    /// The source and the destination after `amount` tokens moved from the
    /// one to the other.
    ///
    /// The source's owner must have signed, the source must hold the amount,
    /// and both accounts must be of one mint. Source and destination must be
    /// two cells: `one_cell` says that they are at one address, and then
    /// nothing moves. The destination's balance may not leave its range.
    pub open spec fn transferred(
        src: TokenAccount,
        dst: TokenAccount,
        one_cell: bool,
        owner: Cell,
        amount: u64,
    ) -> Result<(TokenAccount, TokenAccount), ProgramError> {
        if !owner.is_signer {
            Err(ProgramError::MissingRequiredSignature)
        } else if src.owner != owner.key {
            Err(ProgramError::MissingRequiredSignature)
        } else if src.amount < amount {
            Err(ProgramError::InvalidAccountData)
        } else if src.mint != dst.mint {
            Err(ProgramError::InvalidAccountData)
        } else if one_cell {
            Err(ProgramError::InvalidArgument)
        } else if dst.amount + amount > u64::MAX {
            Err(ProgramError::ArithmeticOverflow)
        } else {
            Ok(
                (
                    TokenAccount { amount: (src.amount - amount) as u64, ..src },
                    TokenAccount { amount: (dst.amount + amount) as u64, ..dst },
                ),
            )
        }
    }

    /// What InitializeMint does: cell 0 becomes a mint under the authority in
    /// cell 1.
    pub open spec fn initialize_mint_outcome(accounts: Seq<Cell>) -> Result<
        Seq<Cell>,
        ProgramError,
    > {
        if accounts.len() < 2 {
            Err(ProgramError::NotEnoughAccountKeys)
        } else {
            match Mint::parse(accounts[0].data) {
                None => Err(ProgramError::BorshIoError),
                Some(stored) => match Self::mint_initialized(stored, accounts[1]) {
                    Err(e) => Err(e),
                    Ok(mint) => Ok(written(accounts, 0, mint)),
                },
            }
        }
    }

    /// What InitializeTokenAccount does: cell 0, which holds no token account
    /// yet, becomes an empty token account in the mint of cell 1, owned by
    /// the key of cell 2.
    pub open spec fn initialize_token_account_outcome(accounts: Seq<Cell>) -> Result<
        Seq<Cell>,
        ProgramError,
    > {
        if accounts.len() < 2 {
            Err(ProgramError::NotEnoughAccountKeys)
        } else {
            match Mint::loaded(accounts[1].data) {
                Err(e) => Err(e),
                Ok(_) => if accounts.len() < 3 {
                    Err(ProgramError::NotEnoughAccountKeys)
                } else {
                    match TokenAccount::parse(accounts[0].data) {
                        None => Err(ProgramError::BorshIoError),
                        Some(stored) => match Self::account_initialized(
                            stored,
                            accounts[2].key,
                            accounts[1].key,
                        ) {
                            Err(e) => Err(e),
                            Ok(account) => Ok(written(accounts, 0, account)),
                        },
                    }
                },
            }
        }
    }

    /// What Mint does: the token account in cell 0 and the mint in cell 1
    /// become as `minted` says, under the authority in cell 2.
    pub open spec fn mint_outcome(accounts: Seq<Cell>, amount: u64) -> Result<
        Seq<Cell>,
        ProgramError,
    > {
        if accounts.len() < 3 {
            Err(ProgramError::NotEnoughAccountKeys)
        } else {
            match TokenAccount::loaded(accounts[0].data) {
                Err(e) => Err(e),
                Ok(account) => match Mint::loaded(accounts[1].data) {
                    Err(e) => Err(e),
                    Ok(mint) => match Self::minted(
                        mint,
                        accounts[1].key,
                        account,
                        accounts[2],
                        amount,
                    ) {
                        Err(e) => Err(e),
                        Ok((mint, account)) => Ok(
                            written(written(accounts, 0, account), 1, mint),
                        ),
                    },
                },
            }
        }
    }

    /// What Burn does: the token account in cell 0 and the mint in cell 1
    /// become as `burned` says, under the owner in cell 2.
    pub open spec fn burn_outcome(accounts: Seq<Cell>, amount: u64) -> Result<
        Seq<Cell>,
        ProgramError,
    > {
        if accounts.len() < 3 {
            Err(ProgramError::NotEnoughAccountKeys)
        } else {
            match TokenAccount::loaded(accounts[0].data) {
                Err(e) => Err(e),
                Ok(account) => match Mint::loaded(accounts[1].data) {
                    Err(e) => Err(e),
                    Ok(mint) => match Self::burned(
                        mint,
                        accounts[1].key,
                        account,
                        accounts[2],
                        amount,
                    ) {
                        Err(e) => Err(e),
                        Ok((mint, account)) => Ok(
                            written(written(accounts, 0, account), 1, mint),
                        ),
                    },
                },
            }
        }
    }

    /// What Transfer does: the token accounts in cells 0 and 1, which are at
    /// two addresses, become as `transferred` says, under the owner in cell
    /// 2.
    pub open spec fn transfer_outcome(accounts: Seq<Cell>, amount: u64) -> Result<
        Seq<Cell>,
        ProgramError,
    > {
        if accounts.len() < 3 {
            Err(ProgramError::NotEnoughAccountKeys)
        } else {
            match TokenAccount::loaded(accounts[0].data) {
                Err(e) => Err(e),
                Ok(src) => match TokenAccount::loaded(accounts[1].data) {
                    Err(e) => Err(e),
                    Ok(dst) => match Self::transferred(
                        src,
                        dst,
                        accounts[0].key == accounts[1].key,
                        accounts[2],
                        amount,
                    ) {
                        Err(e) => Err(e),
                        Ok((src, dst)) => Ok(
                            written(written(accounts, 0, src), 1, dst),
                        ),
                    },
                },
            }
        }
    }

    /// What an invocation does to the cells it is given: the cells after it,
    /// or the error of the first check that fails.
    pub open spec fn outcome(accounts: Seq<Cell>, instruction_data: Seq<u8>) -> Result<
        Seq<Cell>,
        ProgramError,
    > {
        match TokenInstruction::decode(instruction_data) {
            None => Err(ProgramError::InvalidInstructionData),
            Some(TokenInstruction::InitializeMint) => Self::initialize_mint_outcome(accounts),
            Some(TokenInstruction::InitializeTokenAccount) => {
                Self::initialize_token_account_outcome(accounts)
            },
            Some(TokenInstruction::Mint { amount }) => Self::mint_outcome(accounts, amount),
            Some(TokenInstruction::Burn { amount }) => Self::burn_outcome(accounts, amount),
            Some(TokenInstruction::Transfer { amount }) => Self::transfer_outcome(accounts, amount),
        }
    }

    /// The line that names a failed check of who signed: the signer did not
    /// sign, or is not the key that the record asks for.
    pub open spec fn signer_line(signer: Cell, unsigned: Seq<char>, other: Seq<char>) -> Seq<
        char,
    > {
        if !signer.is_signer {
            unsigned
        } else {
            other
        }
    }

    /// The line that names the check on which an instruction fails with the
    /// error `e`, where the check has one. A cell that is missing, and a cell
    /// that does not hold the record that is asked for, have none.
    pub open spec fn line(instruction: TokenInstruction, e: ProgramError, accounts: Seq<Cell>)
        -> Option<Seq<char>> {
        let records_there = TokenAccount::loaded(accounts[0].data) is Ok;
        match instruction {
            TokenInstruction::InitializeMint => if e == ProgramError::MissingRequiredSignature {
                Some("Mint Authority must sign"@)
            } else if e == ProgramError::InvalidAccountData {
                Some("Mint is already initialized"@)
            } else {
                None
            },
            TokenInstruction::InitializeTokenAccount => if e == ProgramError::InvalidAccountData
                && Mint::loaded(accounts[1].data) is Ok {
                Some("Token account is already initialized"@)
            } else {
                None
            },
            TokenInstruction::Mint { amount } => if e == ProgramError::MissingRequiredSignature {
                Some(
                    Self::signer_line(
                        accounts[2],
                        "Mint Authority must sign"@,
                        "Mint Authority mismatch"@,
                    ),
                )
            } else if e == ProgramError::InvalidAccountData && records_there && Mint::loaded(
                accounts[1].data,
            ) is Ok {
                Some("Token account is of another mint"@)
            } else {
                None
            },
            TokenInstruction::Burn { amount } => if e == ProgramError::MissingRequiredSignature {
                Some(
                    Self::signer_line(
                        accounts[2],
                        "Token owner must sign"@,
                        "Token owner mismatch"@,
                    ),
                )
            } else if e == ProgramError::InvalidAccountData && records_there && Mint::loaded(
                accounts[1].data,
            ) is Ok {
                if TokenAccount::loaded(accounts[0].data)->Ok_0.mint != accounts[1].key {
                    Some("Token account is of another mint"@)
                } else {
                    Some("Attempting to burn more than account balance"@)
                }
            } else {
                None
            },
            TokenInstruction::Transfer { amount } => if e
                == ProgramError::MissingRequiredSignature {
                Some(
                    Self::signer_line(
                        accounts[2],
                        "Token owner must sign"@,
                        "Token owner mismatch"@,
                    ),
                )
            } else if e == ProgramError::InvalidAccountData && records_there
                && TokenAccount::loaded(accounts[1].data) is Ok {
                if TokenAccount::loaded(accounts[0].data)->Ok_0.amount < amount {
                    Some("Attempting to transfer more than account balance"@)
                } else {
                    Some("Token account mints do not match"@)
                }
            } else if e == ProgramError::InvalidArgument {
                Some("Source and destination are one token account"@)
            } else {
                None
            },
        }
    }

    /// The line that names the check on which an invocation fails, for the
    /// host's log, where the check has one.
    pub open spec fn complaint(accounts: Seq<Cell>, instruction_data: Seq<u8>) -> Option<
        Seq<char>,
    > {
        match (TokenInstruction::decode(instruction_data), Self::outcome(accounts, instruction_data)) {
            (Some(instruction), Err(e)) => Self::line(instruction, e, accounts),
            _ => None,
        }
    }

    /// Runs one invocation of the token program on the cells `accounts`.
    ///
    /// On success the cells are as `outcome` says; on failure they are
    /// untouched: no record is written unless every check has passed.
    pub fn process_instruction(
        program_id: &Key,
        accounts: &mut Vec<Account>,
        instruction_data: &[u8],
    ) -> (r: ProgramResult)
        ensures
            match Self::outcome(old(accounts).deep_view(), instruction_data@) {
                Ok(after) => r is Ok && final(accounts).deep_view() == after,
                Err(e) => r == Err::<(), ProgramError>(e) && *final(accounts) == *old(accounts),
            },
    {
        let mut log: Vec<&'static str> = Vec::new();
        Self::process_instruction_logged(program_id, accounts, instruction_data, &mut log)
    }

    /// Runs one invocation as `process_instruction` does, and adds to `log`
    /// the line that names the check on which it failed, where `complaint`
    /// has one.
    pub fn process_instruction_logged(
        _program_id: &Key,
        accounts: &mut Vec<Account>,
        instruction_data: &[u8],
        log: &mut Vec<&'static str>,
    ) -> (r: ProgramResult)
        ensures
            match Self::outcome(old(accounts).deep_view(), instruction_data@) {
                Ok(after) => r is Ok && final(accounts).deep_view() == after,
                Err(e) => r == Err::<(), ProgramError>(e) && *final(accounts) == *old(accounts),
            },
            lines(final(log)) == with_line(
                lines(old(log)),
                Self::complaint(old(accounts).deep_view(), instruction_data@),
            ),
    {
        let instruction = TokenInstruction::try_from_slice(instruction_data)?;
        let mut cursor: usize = 0;
        let ghost before = accounts.deep_view();
        match instruction {
            TokenInstruction::InitializeMint => {
                let mint_ai = next_account_info(accounts, &mut cursor)?;
                let mint_authority = next_account_info(accounts, &mut cursor)?;
                let mut mint = Mint::load_unchecked(&accounts[mint_ai])?;
                assert_with_log(
                    accounts[mint_authority].is_signer,
                    ProgramError::MissingRequiredSignature,
                    "Mint Authority must sign",
                    log,
                )?;
                assert_with_log(
                    mint.tag != AccountTag::Mint,
                    ProgramError::InvalidAccountData,
                    "Mint is already initialized",
                    log,
                )?;
                mint.tag = AccountTag::Mint;
                mint.authority = accounts[mint_authority].key;
                mint.supply = 0;
                mint.save(&mut accounts[mint_ai])?;
                assert(accounts.deep_view() =~= Self::outcome(before, instruction_data@)->Ok_0);
            },
            TokenInstruction::InitializeTokenAccount => {
                let token_account_ai = next_account_info(accounts, &mut cursor)?;
                let mint_ai = next_account_info(accounts, &mut cursor)?;
                let _mint = Mint::load(&accounts[mint_ai])?;
                let owner = next_account_info(accounts, &mut cursor)?;
                let mut token_account = TokenAccount::load_unchecked(&accounts[token_account_ai])?;
                assert_with_log(
                    token_account.tag != AccountTag::TokenAccount,
                    ProgramError::InvalidAccountData,
                    "Token account is already initialized",
                    log,
                )?;
                token_account.tag = AccountTag::TokenAccount;
                token_account.owner = accounts[owner].key;
                token_account.mint = accounts[mint_ai].key;
                token_account.amount = 0;
                token_account.save(&mut accounts[token_account_ai])?;
                assert(accounts.deep_view() =~= Self::outcome(before, instruction_data@)->Ok_0);
            },
            TokenInstruction::Mint { amount } => {
                let token_account_ai = next_account_info(accounts, &mut cursor)?;
                let mint_ai = next_account_info(accounts, &mut cursor)?;
                let mint_authority = next_account_info(accounts, &mut cursor)?;
                let mut token_account = TokenAccount::load(&accounts[token_account_ai])?;
                let mut mint = Mint::load(&accounts[mint_ai])?;
                assert_with_log(
                    accounts[mint_authority].is_signer,
                    ProgramError::MissingRequiredSignature,
                    "Mint Authority must sign",
                    log,
                )?;
                assert_with_log(
                    mint.authority == accounts[mint_authority].key,
                    ProgramError::MissingRequiredSignature,
                    "Mint Authority mismatch",
                    log,
                )?;
                assert_with_log(
                    token_account.mint == accounts[mint_ai].key,
                    ProgramError::InvalidAccountData,
                    "Token account is of another mint",
                    log,
                )?;
                let supply = mint.supply.checked_add(amount);
                let balance = token_account.amount.checked_add(amount);
                match (supply, balance) {
                    (Some(supply), Some(balance)) => {
                        mint.supply = supply;
                        token_account.amount = balance;
                    },
                    _ => {
                        return Err(ProgramError::ArithmeticOverflow);
                    },
                }
                token_account.save(&mut accounts[token_account_ai])?;
                mint.save(&mut accounts[mint_ai])?;
                assert(accounts.deep_view() =~= Self::outcome(before, instruction_data@)->Ok_0);
            },
            TokenInstruction::Burn { amount } => {
                let token_account_ai = next_account_info(accounts, &mut cursor)?;
                let mint_ai = next_account_info(accounts, &mut cursor)?;
                let owner = next_account_info(accounts, &mut cursor)?;
                let mut token_account = TokenAccount::load(&accounts[token_account_ai])?;
                let mut mint = Mint::load(&accounts[mint_ai])?;
                assert_with_log(
                    accounts[owner].is_signer,
                    ProgramError::MissingRequiredSignature,
                    "Token owner must sign",
                    log,
                )?;
                assert_with_log(
                    token_account.owner == accounts[owner].key,
                    ProgramError::MissingRequiredSignature,
                    "Token owner mismatch",
                    log,
                )?;
                assert_with_log(
                    token_account.mint == accounts[mint_ai].key,
                    ProgramError::InvalidAccountData,
                    "Token account is of another mint",
                    log,
                )?;
                assert_with_log(
                    token_account.amount >= amount,
                    ProgramError::InvalidAccountData,
                    "Attempting to burn more than account balance",
                    log,
                )?;
                match mint.supply.checked_sub(amount) {
                    Some(supply) => {
                        mint.supply = supply;
                    },
                    None => {
                        return Err(ProgramError::ArithmeticOverflow);
                    },
                }
                token_account.amount -= amount;
                token_account.save(&mut accounts[token_account_ai])?;
                mint.save(&mut accounts[mint_ai])?;
                assert(accounts.deep_view() =~= Self::outcome(before, instruction_data@)->Ok_0);
            },
            TokenInstruction::Transfer { amount } => {
                let src_token_account_ai = next_account_info(accounts, &mut cursor)?;
                let dst_token_account_ai = next_account_info(accounts, &mut cursor)?;
                let owner = next_account_info(accounts, &mut cursor)?;
                let mut src_token_account = TokenAccount::load(&accounts[src_token_account_ai])?;
                let mut dst_token_account = TokenAccount::load(&accounts[dst_token_account_ai])?;
                assert_with_log(
                    accounts[owner].is_signer,
                    ProgramError::MissingRequiredSignature,
                    "Token owner must sign",
                    log,
                )?;
                assert_with_log(
                    src_token_account.owner == accounts[owner].key,
                    ProgramError::MissingRequiredSignature,
                    "Token owner mismatch",
                    log,
                )?;
                assert_with_log(
                    src_token_account.amount >= amount,
                    ProgramError::InvalidAccountData,
                    "Attempting to transfer more than account balance",
                    log,
                )?;
                assert_with_log(
                    src_token_account.mint == dst_token_account.mint,
                    ProgramError::InvalidAccountData,
                    "Token account mints do not match",
                    log,
                )?;
                assert_with_log(
                    accounts[src_token_account_ai].key != accounts[dst_token_account_ai].key,
                    ProgramError::InvalidArgument,
                    "Source and destination are one token account",
                    log,
                )?;
                match dst_token_account.amount.checked_add(amount) {
                    Some(balance) => {
                        dst_token_account.amount = balance;
                    },
                    None => {
                        return Err(ProgramError::ArithmeticOverflow);
                    },
                }
                src_token_account.amount -= amount;
                src_token_account.save(&mut accounts[src_token_account_ai])?;
                dst_token_account.save(&mut accounts[dst_token_account_ai])?;
                assert(accounts.deep_view() =~= Self::outcome(before, instruction_data@)->Ok_0);
            },
        }
        Ok(())
    }
}

} // verus!
