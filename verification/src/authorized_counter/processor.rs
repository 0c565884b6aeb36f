//! The authorized counter program's entry point, and what holds of every run
//! of it.

use vstd::prelude::*;
use crate::account::{next_account_info, Account, Cell};
use crate::authorized_counter::instruction::CounterInstruction;
use crate::authorized_counter::state::Counter;
use crate::error::{assert_with_log, lines, with_line, ProgramError, ProgramResult};
use crate::key::Key;
use crate::record::{lemma_saved_over_record, load_unchecked, save, written, Record};

verus! {

/// The authorized counter program.
pub struct Processor {}

impl Processor {
    /// A record that no increment has touched: the count is zero and the
    /// authority is the all-zero key. Every other record is bound to its
    /// authority.
    pub open spec fn fresh(counter: Counter) -> bool {
        counter.count == 0 && counter.authority == Key::zero()
    }

    /// The record after an increment signed by `signer`.
    ///
    /// A fresh record takes the signer as its authority. A bound record
    /// accepts its authority only. The count goes up by one, and an increment
    /// that would leave the range of the count fails.
    pub open spec fn incremented(counter: Counter, signer: Key) -> Result<Counter, ProgramError> {
        let authority = if Self::fresh(counter) {
            signer
        } else {
            counter.authority
        };
        if authority != signer {
            Err(ProgramError::MissingRequiredSignature)
        } else if counter.count == u64::MAX {
            Err(ProgramError::ArithmeticOverflow)
        } else {
            Ok(Counter { authority, count: (counter.count + 1) as u64 })
        }
    }

    /// What an invocation does to the cells it is given: the cells after it,
    /// or the error of the first check that fails.
    ///
    /// Increment takes the counter cell and the authority, which must have
    /// signed, and writes the incremented record back to the counter cell.
    /// The two may be at one address: a counter may be bound to the key of
    /// its own cell. Cells behind the second are not looked at.
    pub open spec fn outcome(accounts: Seq<Cell>, instruction_data: Seq<u8>) -> Result<
        Seq<Cell>,
        ProgramError,
    > {
        match CounterInstruction::decode(instruction_data) {
            None => Err(ProgramError::InvalidInstructionData),
            Some(CounterInstruction::Increment) => {
                if accounts.len() < 2 {
                    Err(ProgramError::NotEnoughAccountKeys)
                } else if !accounts[1].is_signer {
                    Err(ProgramError::MissingRequiredSignature)
                } else {
                    match Counter::parse(accounts[0].data) {
                        None => Err(ProgramError::BorshIoError),
                        Some(counter) => match Self::incremented(counter, accounts[1].key) {
                            Err(e) => Err(e),
                            Ok(next) => Ok(written(accounts, 0, next)),
                        },
                    }
                }
            },
        }
    }

    /// The line that names the check on which an invocation fails, for the
    /// host's log: there is one where the authority did not sign, and where
    /// the signer is not the authority of the counter.
    pub open spec fn complaint(accounts: Seq<Cell>, instruction_data: Seq<u8>) -> Option<
        Seq<char>,
    > {
        if Self::outcome(accounts, instruction_data) != Err::<Seq<Cell>, ProgramError>(
            ProgramError::MissingRequiredSignature,
        ) {
            None
        } else if !accounts[1].is_signer {
            Some("Authority must sign"@)
        } else {
            Some("Attempted to increment with an invalid authority"@)
        }
    }

    /// Runs one invocation of the authorized counter program on the cells
    /// `accounts`.
    ///
    /// On success the cells are as `outcome` says; on failure they are
    /// untouched.
    pub fn process_instruction(
        program_id: &Key,
        accounts: &mut Vec<Account>,
        instruction_data: &[u8],
    ) -> (r: ProgramResult)
        ensures
            match Self::outcome(old(accounts).deep_view(), instruction_data@) {
                Ok(after) => r is Ok && final(accounts).deep_view() == after,
                Err(e) => r == Err::<(), ProgramError>(e) && *final(accounts) == *old(accounts),
            },
    {
        let mut log: Vec<&'static str> = Vec::new();
        Self::process_instruction_logged(program_id, accounts, instruction_data, &mut log)
    }

    /// Runs one invocation as `process_instruction` does, and adds to `log`
    /// the line that names the check on which it failed, where `complaint`
    /// has one.
    pub fn process_instruction_logged(
        _program_id: &Key,
        accounts: &mut Vec<Account>,
        instruction_data: &[u8],
        log: &mut Vec<&'static str>,
    ) -> (r: ProgramResult)
        ensures
            match Self::outcome(old(accounts).deep_view(), instruction_data@) {
                Ok(after) => r is Ok && final(accounts).deep_view() == after,
                Err(e) => r == Err::<(), ProgramError>(e) && *final(accounts) == *old(accounts),
            },
            lines(final(log)) == with_line(
                lines(old(log)),
                Self::complaint(old(accounts).deep_view(), instruction_data@),
            ),
    {
        let instruction = CounterInstruction::try_from_slice(instruction_data)?;
        match instruction {
            CounterInstruction::Increment => {
                let mut cursor: usize = 0;
                let counter_ai = next_account_info(accounts, &mut cursor)?;
                let authority = next_account_info(accounts, &mut cursor)?;
                assert_with_log(
                    accounts[authority].is_signer,
                    ProgramError::MissingRequiredSignature,
                    "Authority must sign",
                    log,
                )?;
                let mut counter: Counter = load_unchecked(&accounts[counter_ai])?;
                if counter.count == 0 && counter.authority == Key::default() {
                    counter.authority = accounts[authority].key;
                }
                assert_with_log(
                    counter.authority == accounts[authority].key,
                    ProgramError::MissingRequiredSignature,
                    "Attempted to increment with an invalid authority",
                    log,
                )?;
                if counter.count == u64::MAX {
                    return Err(ProgramError::ArithmeticOverflow);
                }
                counter.count += 1;
                proof {
                    counter.lemma_round_trip();
                }
                save(&counter, &mut accounts[counter_ai])?;
                assert(accounts.deep_view() =~= Self::outcome(
                    old(accounts).deep_view(),
                    instruction_data@,
                )->Ok_0);
            },
        }
        Ok(())
    }

    /// The record after the increments signed, in turn, by each of
    /// `signers`: one that is rejected leaves the record as it was.
    pub open spec fn after_all(counter: Counter, signers: Seq<Key>) -> Counter
        decreases signers.len(),
    {
        if signers.len() == 0 {
            counter
        } else {
            let before = Self::after_all(counter, signers.drop_last());
            match Self::incremented(before, signers.last()) {
                Ok(next) => next,
                Err(_) => before,
            }
        }
    }

    /// How many of the increments signed by `signers` succeed.
    pub open spec fn successes(counter: Counter, signers: Seq<Key>) -> nat
        decreases signers.len(),
    {
        if signers.len() == 0 {
            0
        } else {
            let before = Self::after_all(counter, signers.drop_last());
            let earlier = Self::successes(counter, signers.drop_last());
            if Self::incremented(before, signers.last()) is Ok {
                earlier + 1
            } else {
                earlier
            }
        }
    }

    /// After any run of increments the count has gone up by the number of
    /// those that succeeded: a fresh record counts its successful increments.
    pub proof fn law_count_is_successes(counter: Counter, signers: Seq<Key>)
        ensures
            Self::after_all(counter, signers).count == counter.count + Self::successes(
                counter,
                signers,
            ),
            counter.count == 0 ==> Self::after_all(counter, signers).count == Self::successes(
                counter,
                signers,
            ),
        decreases signers.len(),
    {
        if signers.len() > 0 {
            Self::law_count_is_successes(counter, signers.drop_last());
        }
    }

    /// An increment signed by any key but the authority of a bound record is
    /// rejected, and leaves the record, and so the count, as it was. A record
    /// with another authority than the all-zero key is bound, whatever its
    /// count.
    pub proof fn law_other_signer_rejected(counter: Counter, signer: Key)
        requires
            !Self::fresh(counter),
            signer != counter.authority,
        ensures
            Self::incremented(counter, signer) == Err::<Counter, ProgramError>(
                ProgramError::MissingRequiredSignature,
            ),
            Self::after_all(counter, seq![signer]) == counter,
    {
        assert(seq![signer].drop_last() =~= Seq::<Key>::empty());
        assert(Self::after_all(counter, Seq::<Key>::empty()) == counter);
    }

    /// Once bound, the authority stays: no run of increments changes it. A
    /// bound record stays bound, and the count never goes down.
    pub proof fn law_authority_immutable(counter: Counter, signers: Seq<Key>)
        ensures
            !Self::fresh(counter) ==> Self::after_all(counter, signers).authority
                == counter.authority && !Self::fresh(Self::after_all(counter, signers)),
            Self::after_all(counter, signers).count >= counter.count,
        decreases signers.len(),
    {
        if signers.len() > 0 {
            Self::law_authority_immutable(counter, signers.drop_last());
        }
    }

    /// The first increment of a fresh record binds the signer as authority
    /// and sets the count to one.
    pub proof fn law_first_increment_binds(counter: Counter, signer: Key)
        requires
            Self::fresh(counter),
        ensures
            Self::incremented(counter, signer) == Ok::<Counter, ProgramError>(
                Counter { authority: signer, count: 1 },
            ),
            !Self::fresh(Counter { authority: signer, count: 1 }),
    {
    }

    /// An invocation on a bound counter that another key than its authority
    /// signed, or that nobody signed, fails with `MissingRequiredSignature`.
    pub proof fn law_invocation_rejects_others(accounts: Seq<Cell>)
        requires
            accounts.len() >= 2,
            Counter::parse(accounts[0].data) is Some,
            !Self::fresh(Counter::parse(accounts[0].data)->0),
            !accounts[1].is_signer || accounts[1].key != Counter::parse(
                accounts[0].data,
            )->0.authority,
        ensures
            Self::outcome(accounts, CounterInstruction::Increment.encode()) == Err::<
                Seq<Cell>,
                ProgramError,
            >(ProgramError::MissingRequiredSignature),
    {
    }

    /// An invocation that succeeds leaves in the counter cell the record that
    /// `incremented` gives for the record that was there and the key of the
    /// signing cell; every other cell, and every other part of the counter
    /// cell, is as before.
    pub proof fn law_invocation_increments(accounts: Seq<Cell>, instruction_data: Seq<u8>)
        requires
            Self::outcome(accounts, instruction_data) is Ok,
        ensures
            ({
                let after = Self::outcome(accounts, instruction_data)->Ok_0;
                let stored = Counter::parse(accounts[0].data);
                &&& after.len() == accounts.len()
                &&& stored is Some
                &&& Self::incremented(stored->0, accounts[1].key) is Ok
                &&& Counter::parse(after[0].data) == Some(
                    Self::incremented(stored->0, accounts[1].key)->Ok_0,
                )
                &&& after[0].key == accounts[0].key
                &&& forall|i: int| 1 <= i < accounts.len() ==> after[i] == accounts[i]
            }),
    {
        let stored = Counter::parse(accounts[0].data)->0;
        let next = Self::incremented(stored, accounts[1].key)->Ok_0;
        next.lemma_round_trip();
        stored.lemma_round_trip();
        lemma_saved_over_record(next, stored, accounts[0].data);
    }
}

} // verus!
