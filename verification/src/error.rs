//! The reasons for which a program rejects an invocation.

use vstd::prelude::*;

verus! {

/// Why an invocation failed.
///
/// Every check of a program is fatal to the invocation at hand: the first one
/// that fails gives the error, and no storage cell is written.
#[derive(Clone, Copy, Debug, PartialEq, Eq, Structural)]
pub enum ProgramError {
    /// An error of the program's own, by its number.
    Custom(u32),
    /// An address does not match the one derived from the seeds, or tokens
    /// were to move from a cell to itself.
    InvalidArgument,
    /// The instruction payload is malformed or names no instruction.
    InvalidInstructionData,
    /// A cell holds a record of another kind or of another mint, a record
    /// that is to be initialized is there already, or a balance is too small.
    InvalidAccountData,
    AccountDataTooSmall,
    InsufficientFunds,
    IncorrectProgramId,
    /// A required signature is absent, or the signer is not the authority.
    MissingRequiredSignature,
    AccountAlreadyInitialized,
    UninitializedAccount,
    /// The invocation names fewer cells than the instruction reads.
    NotEnoughAccountKeys,
    AccountBorrowFailed,
    /// There are too many seeds, or one of them is too long.
    MaxSeedLengthExceeded,
    /// The seeds derive no address.
    InvalidSeeds,
    /// A cell's bytes do not have the layout of the record, or the cell is too
    /// short to hold it.
    BorshIoError,
    AccountNotRentExempt,
    UnsupportedSysvar,
    IllegalOwner,
    MaxAccountsDataAllocationsExceeded,
    InvalidRealloc,
    MaxInstructionTraceLengthExceeded,
    BuiltinProgramsMustConsumeComputeUnits,
    InvalidAccountOwner,
    /// A count, a balance or a supply would leave the range of its type.
    ArithmeticOverflow,
    Immutable,
    IncorrectAuthority,
}

/// What a program returns: nothing, or the reason for which it failed.
pub type ProgramResult = Result<(), ProgramError>;

/// `Err(err)` unless `statement` holds. The message names the failed check for
/// the caller's log; it does not bear on the result.
pub fn assert_with_msg(statement: bool, err: ProgramError, msg: &str) -> (r: ProgramResult)
    ensures
        r == (if statement {
            Ok::<(), ProgramError>(())
        } else {
            Err(err)
        }),
{
    if !statement {
        Err(err)
    } else {
        Ok(())
    }
}

/// The lines that a program wrote for the log of its host, oldest first.
pub open spec fn lines(log: &Vec<&'static str>) -> Seq<Seq<char>> {
    Seq::new(log@.len(), |i: int| log@[i]@)
}

/// The log with one more line, where there is one.
pub open spec fn with_line(log: Seq<Seq<char>>, line: Option<Seq<char>>) -> Seq<Seq<char>> {
    match line {
        Some(line) => log.push(line),
        None => log,
    }
}

/// `Err(err)` unless `statement` holds, as `assert_with_msg`, and a check that
/// fails adds the message that names it to the log.
pub fn assert_with_log(
    statement: bool,
    err: ProgramError,
    msg: &'static str,
    log: &mut Vec<&'static str>,
) -> (r: ProgramResult)
    ensures
        r == (if statement {
            Ok::<(), ProgramError>(())
        } else {
            Err(err)
        }),
        lines(final(log)) == (if statement {
            lines(old(log))
        } else {
            lines(old(log)).push(msg@)
        }),
{
    if !statement {
        log.push(msg);
        assert(lines(log) =~= lines(old(log)).push(msg@));
        Err(err)
    } else {
        Ok(())
    }
}

} // verus!
