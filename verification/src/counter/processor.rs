//! The counter program's entry point.

use vstd::prelude::*;
use crate::account::{next_account_info, Account, Cell};
use crate::counter::instruction::CounterInstruction;
use crate::counter::state::Counter;
use crate::error::{ProgramError, ProgramResult};
use crate::key::Key;
use crate::record::{load_unchecked, save, written, Record};

verus! {

/// The counter program.
pub struct Processor {}

impl Processor {
    /// The count after one more increment: an error at the top of the range.
    pub open spec fn incremented(counter: Counter) -> Result<Counter, ProgramError> {
        if counter.count == u64::MAX {
            Err(ProgramError::ArithmeticOverflow)
        } else {
            Ok(Counter { count: (counter.count + 1) as u64 })
        }
    }

    /// What an invocation does to the cells it is given: the cells after it,
    /// or the error of the first check that fails.
    ///
    /// Increment reads the first cell as a counter record and writes it back
    /// with the count raised by one. Cells behind the first are not looked
    /// at.
    pub open spec fn outcome(accounts: Seq<Cell>, instruction_data: Seq<u8>) -> Result<
        Seq<Cell>,
        ProgramError,
    > {
        match CounterInstruction::decode(instruction_data) {
            None => Err(ProgramError::InvalidInstructionData),
            Some(CounterInstruction::Increment) => {
                if accounts.len() < 1 {
                    Err(ProgramError::NotEnoughAccountKeys)
                } else {
                    match Counter::parse(accounts[0].data) {
                        None => Err(ProgramError::BorshIoError),
                        Some(counter) => match Self::incremented(counter) {
                            Err(e) => Err(e),
                            Ok(next) => Ok(written(accounts, 0, next)),
                        },
                    }
                }
            },
        }
    }

    /// Runs one invocation of the counter program on the cells `accounts`.
    ///
    /// On success the cells are as `outcome` says; on failure they are
    /// untouched.
    pub fn process_instruction(
        _program_id: &Key,
        accounts: &mut Vec<Account>,
        instruction_data: &[u8],
    ) -> (r: ProgramResult)
        ensures
            match Self::outcome(old(accounts).deep_view(), instruction_data@) {
                Ok(after) => r is Ok && final(accounts).deep_view() == after,
                Err(e) => r == Err::<(), ProgramError>(e) && *final(accounts) == *old(accounts),
            },
    {
        let instruction = CounterInstruction::try_from_slice(instruction_data)?;
        match instruction {
            CounterInstruction::Increment => {
                let mut cursor: usize = 0;
                let counter_ai = next_account_info(accounts, &mut cursor)?;
                let mut counter: Counter = load_unchecked(&accounts[counter_ai])?;
                if counter.count == u64::MAX {
                    return Err(ProgramError::ArithmeticOverflow);
                }
                counter.count += 1;
                proof {
                    counter.lemma_round_trip();
                }
                save(&counter, &mut accounts[counter_ai])?;
                assert(accounts.deep_view() =~= Self::outcome(
                    old(accounts).deep_view(),
                    instruction_data@,
                )->Ok_0);
            },
        }
        Ok(())
    }
}

} // verus!
