//! The tracker program's entry points.
//!
//! Each instruction of the tracker needs the host once: to create the
//! tracker's cell, or to run the counter program. So an invocation has two
//! halves. `process_instruction` checks everything that can be checked
//! before the host is asked, and returns the request together with what is
//! left to do. `resume` takes the host's answer: on success it writes the
//! tracker's record, and on failure it writes nothing, so that a call that
//! the counter program rejects leaves the tracker as it was.

use vstd::prelude::*;
use crate::account::{next_account_info, Account, Cell};
use crate::authority::{
    create_program_address, created, derived, law_derive_round_trip, seed_bytes, seeds_with_bump,
    verified, with_bump,
};
use crate::authorized_counter::instruction::{increment, increment_spec, CounterInstruction};
use crate::authorized_counter::processor::Processor as CounterProcessor;
use crate::authorized_counter::state::Counter;
use crate::bridge::{
    callee_cells, invoke, system_program_id, AuthorityProof, AuthorityProofView, CellCreation,
    CellCreationView, HostCall, HostCallView, InvocationView,
};
use crate::count_tracker::instruction::TrackerInstruction;
use crate::count_tracker::state::{Tracker, TRACKER_LEN};
use crate::error::{assert_with_log, lines, with_line, ProgramError, ProgramResult};
use crate::key::Key;
use crate::record::{lemma_saved_over_record, load_unchecked, save, written, Record};

verus! {

/// What is left to do once the host has done its part.
#[derive(Clone, Copy, Debug, PartialEq, Eq)]
pub enum Pending {
    /// Write the record of a new tracker to its cell.
    Initialize { tracker: Tracker },
    /// Raise the count of the tracker that was read before the call.
    Increment { tracker: Tracker },
}

/// An invocation that waits for the host.
#[derive(Clone, Debug, PartialEq, Eq)]
pub struct Suspended {
    pub call: HostCall,
    pub pending: Pending,
}

/// A waiting invocation as a mathematical value.
pub struct SuspendedView {
    pub call: HostCallView,
    pub pending: Pending,
}

impl View for Suspended {
    type V = SuspendedView;

    open spec fn view(&self) -> SuspendedView {
        SuspendedView { call: self.call@, pending: self.pending }
    }
}

/// The seeds of a tracker's address: the user's address and the counter's.
pub open spec fn tracker_seeds(user: Key, counter: Key) -> Seq<Seq<u8>> {
    seq![user@, counter@]
}

/// The seeds of the address of a tracker's authority: the counter's address.
/// So the authority can sign for this counter, and for nothing else.
pub open spec fn authority_seeds(counter: Key) -> Seq<Seq<u8>> {
    seq![counter@]
}

/// The tracker program.
pub struct Processor {}

impl Processor {
    /// Whether a cell holds a tracker that was initialized: a tracker record
    /// that is not blank. Such a cell is not initialized again, so that its
    /// bumps stay and its count is not set back.
    pub open spec fn holds_tracker(data: Seq<u8>) -> bool {
        Tracker::parse(data) is Some && Tracker::parse(data)->0 != Tracker::blank()
    }

    /// What Initialize asks of the host, or the error of the first check
    /// that fails.
    ///
    /// The tracker cell must be at the address derived from the user and
    /// the counter, and the authority cell at the address derived from the
    /// counter: any other address fails with `InvalidArgument`, and so does
    /// every address where the seeds derive none. The tracker
    /// cell must not hold a tracker yet. A new cell of 42 bytes is then asked
    /// for, signed for by the tracker's derived address. The record to write
    /// holds the two canonical bumps and a count of zero.
    pub open spec fn initialize_request(program_id: Key, accounts: Seq<Cell>) -> Result<
        SuspendedView,
        ProgramError,
    > {
        if accounts.len() < 5 {
            Err(ProgramError::NotEnoughAccountKeys)
        } else {
            let user = accounts[1].key;
            let counter = accounts[3].key;
            match derived(tracker_seeds(user, counter), program_id@) {
                None => Err(ProgramError::InvalidArgument),
                Some((tracker_key, bump)) => {
                    if accounts[4].key != Key::zero() {
                        Err(ProgramError::InvalidArgument)
                    } else if tracker_key != accounts[0].key {
                        Err(ProgramError::InvalidArgument)
                    } else {
                        match derived(authority_seeds(counter), program_id@) {
                            None => Err(ProgramError::InvalidArgument),
                            Some((authority_key, auth_bump)) => {
                                if authority_key != accounts[2].key {
                                    Err(ProgramError::InvalidArgument)
                                } else if Self::holds_tracker(accounts[0].data) {
                                    Err(ProgramError::InvalidAccountData)
                                } else {
                                    Ok(
                                        SuspendedView {
                                            call: HostCallView::CreateCell(
                                                CellCreationView {
                                                    payer: 1,
                                                    new_cell: 0,
                                                    system_program: 4,
                                                    space: 42,
                                                    owner: program_id,
                                                    authority_proof: AuthorityProofView {
                                                        seeds: tracker_seeds(user, counter),
                                                        bump,
                                                        program_scope: program_id,
                                                    },
                                                },
                                            ),
                                            pending: Pending::Initialize {
                                                tracker: Tracker {
                                                    bump,
                                                    auth_bump,
                                                    counter,
                                                    count: 0,
                                                },
                                            },
                                        },
                                    )
                                }
                            },
                        }
                    }
                },
            }
        }
    }

    /// What Increment asks of the host, or the error of the first check that
    /// fails.
    ///
    /// The tracker cell must hold a tracker and be at the address that its
    /// stored bump reproduces from the user and the counter. The call into
    /// the counter program names the counter and the authority, which signs:
    /// it must be at the address that the stored authority bump reproduces
    /// from the counter, and any other address fails with `InvalidArgument`.
    pub open spec fn increment_request(program_id: Key, accounts: Seq<Cell>) -> Result<
        SuspendedView,
        ProgramError,
    > {
        if accounts.len() < 5 {
            Err(ProgramError::NotEnoughAccountKeys)
        } else {
            let user = accounts[1].key;
            let counter = accounts[3].key;
            match Tracker::parse(accounts[0].data) {
                None => Err(ProgramError::BorshIoError),
                Some(tracker) => match verified(
                    accounts[0].key,
                    tracker_seeds(user, counter),
                    program_id@,
                    tracker.bump,
                ) {
                    Err(e) => Err(e),
                    Ok(()) => if tracker.count == u64::MAX {
                        Err(ProgramError::ArithmeticOverflow)
                    } else {
                        match created(
                            with_bump(authority_seeds(counter), tracker.auth_bump),
                            program_id@,
                        ) {
                            Err(_) => Err(ProgramError::InvalidArgument),
                            Ok(address) => if accounts[4].key != address {
                                Err(ProgramError::InvalidArgument)
                            } else {
                                Ok(
                                    SuspendedView {
                                        call: HostCallView::Invoke(
                                            InvocationView {
                                                instruction: increment_spec(
                                                    accounts[2].key,
                                                    counter,
                                                    accounts[4].key,
                                                    CounterInstruction::Increment,
                                                ),
                                                account_handles: seq![3usize, 4usize],
                                                authority_proof: AuthorityProofView {
                                                    seeds: authority_seeds(counter),
                                                    bump: tracker.auth_bump,
                                                    program_scope: program_id,
                                                },
                                            },
                                        ),
                                        pending: Pending::Increment { tracker },
                                    },
                                )
                            },
                        }
                    },
                },
            }
        }
    }

    /// What an invocation asks of the host, or the error of the first check
    /// that fails.
    pub open spec fn request(program_id: Key, accounts: Seq<Cell>, instruction_data: Seq<u8>)
        -> Result<SuspendedView, ProgramError> {
        match TrackerInstruction::decode(instruction_data) {
            None => Err(ProgramError::InvalidInstructionData),
            Some(TrackerInstruction::Initialize) => Self::initialize_request(program_id, accounts),
            Some(TrackerInstruction::Increment) => Self::increment_request(program_id, accounts),
        }
    }

    /// The record after one more delegated increment: the count goes up by
    /// one, and may not leave its range.
    pub open spec fn incremented(tracker: Tracker) -> Result<Tracker, ProgramError> {
        if tracker.count == u64::MAX {
            Err(ProgramError::ArithmeticOverflow)
        } else {
            Ok(Tracker { count: (tracker.count + 1) as u64, ..tracker })
        }
    }

    /// The cells after the second half of an invocation, or its error.
    ///
    /// What the host reports as failed fails the invocation with the host's
    /// error. Otherwise the tracker cell is written: a new tracker's record
    /// over the blank cell that the host created, or the record that was read
    /// with its count raised by one.
    pub open spec fn resumed(accounts: Seq<Cell>, pending: Pending, host_result: ProgramResult)
        -> Result<Seq<Cell>, ProgramError> {
        match host_result {
            Err(e) => Err(e),
            Ok(()) => if accounts.len() < 1 {
                Err(ProgramError::NotEnoughAccountKeys)
            } else {
                match pending {
                    Pending::Initialize { tracker } => if Tracker::parse(accounts[0].data)
                        is None {
                        Err(ProgramError::BorshIoError)
                    } else if Self::holds_tracker(accounts[0].data) {
                        Err(ProgramError::InvalidAccountData)
                    } else {
                        Ok(written(accounts, 0, tracker))
                    },
                    Pending::Increment { tracker } => match Self::incremented(tracker) {
                        Err(e) => Err(e),
                        Ok(next) => if accounts[0].data.len() < TRACKER_LEN {
                            Err(ProgramError::BorshIoError)
                        } else {
                            Ok(written(accounts, 0, next))
                        },
                    },
                }
            },
        }
    }

    /// The line that names the check on which the first half of an invocation
    /// fails, for the host's log, where the check has one: the checks of the
    /// addresses against those that the seeds derive, and the check that a
    /// tracker is not there yet. Seeds that derive no address have none.
    pub open spec fn request_complaint(
        program_id: Key,
        accounts: Seq<Cell>,
        instruction_data: Seq<u8>,
    ) -> Option<Seq<char>> {
        let user = accounts[1].key;
        let counter = accounts[3].key;
        match (
            TrackerInstruction::decode(instruction_data),
            Self::request(program_id, accounts, instruction_data),
        ) {
            (Some(TrackerInstruction::Initialize), Err(e)) => {
                if e == ProgramError::InvalidAccountData {
                    Some("Tracker is already initialized"@)
                } else if e == ProgramError::InvalidArgument {
                    match derived(tracker_seeds(user, counter), program_id@) {
                        None => None,
                        Some((tracker_key, _)) => if accounts[4].key != Key::zero() {
                            Some("Invalid passed in for system program"@)
                        } else if tracker_key != accounts[0].key {
                            Some("Invalid PDA seeds for tracker"@)
                        } else if derived(authority_seeds(counter), program_id@) is Some {
                            Some("Invalid PDA seeds for authority"@)
                        } else {
                            None
                        },
                    }
                } else {
                    None
                }
            },
            (Some(TrackerInstruction::Increment), Err(e)) => {
                let stored = Tracker::parse(accounts[0].data);
                if e == ProgramError::InvalidArgument && stored is Some {
                    match created(
                        with_bump(tracker_seeds(user, counter), stored->0.bump),
                        program_id@,
                    ) {
                        Ok(address) => if address != accounts[0].key {
                            Some("Invalid PDA seeds for tracker"@)
                        } else {
                            None
                        },
                        Err(_) => None,
                    }
                } else {
                    None
                }
            },
            _ => None,
        }
    }

    /// The line that names the check on which the second half of an
    /// invocation fails, where the check has one: the tracker is there
    /// already.
    pub open spec fn resume_complaint(
        accounts: Seq<Cell>,
        pending: Pending,
        host_result: ProgramResult,
    ) -> Option<Seq<char>> {
        if host_result is Ok && Self::resumed(accounts, pending, host_result) == Err::<
            Seq<Cell>,
            ProgramError,
        >(ProgramError::InvalidAccountData) {
            Some("Tracker is already initialized"@)
        } else {
            None
        }
    }

    /// Runs the first half of an invocation of the tracker program: all its
    /// checks, up to the request to the host. No cell is written.
    pub fn process_instruction(
        program_id: &Key,
        accounts: &Vec<Account>,
        instruction_data: &[u8],
    ) -> (r: Result<Suspended, ProgramError>)
        ensures
            match Self::request(*program_id, accounts.deep_view(), instruction_data@) {
                Ok(suspended) => r is Ok && r->Ok_0@ == suspended,
                Err(e) => r == Err::<Suspended, ProgramError>(e),
            },
    {
        let mut log: Vec<&'static str> = Vec::new();
        Self::process_instruction_logged(program_id, accounts, instruction_data, &mut log)
    }

    /// Runs the first half as `process_instruction` does, and adds to `log`
    /// the line that names the check on which it failed, where
    /// `request_complaint` has one.
    pub fn process_instruction_logged(
        program_id: &Key,
        accounts: &Vec<Account>,
        instruction_data: &[u8],
        log: &mut Vec<&'static str>,
    ) -> (r: Result<Suspended, ProgramError>)
        ensures
            match Self::request(*program_id, accounts.deep_view(), instruction_data@) {
                Ok(suspended) => r is Ok && r->Ok_0@ == suspended,
                Err(e) => r == Err::<Suspended, ProgramError>(e),
            },
            lines(final(log)) == with_line(
                lines(old(log)),
                Self::request_complaint(*program_id, accounts.deep_view(), instruction_data@),
            ),
    {
        let instruction = TrackerInstruction::try_from_slice(instruction_data)?;
        let mut cursor: usize = 0;
        match instruction {
            TrackerInstruction::Initialize => {
                let tracker_ai = next_account_info(accounts, &mut cursor)?;
                let user = next_account_info(accounts, &mut cursor)?;
                let authority = next_account_info(accounts, &mut cursor)?;
                let counter = next_account_info(accounts, &mut cursor)?;
                let system_program = next_account_info(accounts, &mut cursor)?;

                let mut authority_seeds_vec: Vec<Vec<u8>> = Vec::new();
                authority_seeds_vec.push(accounts[counter].key.to_vec());
                let mut tracker_seeds_vec: Vec<Vec<u8>> = Vec::new();
                tracker_seeds_vec.push(accounts[user].key.to_vec());
                tracker_seeds_vec.push(accounts[counter].key.to_vec());
                assert(seed_bytes(&authority_seeds_vec) =~= authority_seeds(
                    accounts@[3].key,
                ));
                assert(seed_bytes(&tracker_seeds_vec) =~= tracker_seeds(
                    accounts@[1].key,
                    accounts@[3].key,
                ));

                let (tracker_key, bump) = match crate::authority::derive(
                    &tracker_seeds_vec,
                    program_id,
                ) {
                    Some(found) => found,
                    None => {
                        return Err(ProgramError::InvalidArgument);
                    },
                };
                assert_with_log(
                    accounts[system_program].key == system_program_id(),
                    ProgramError::InvalidArgument,
                    "Invalid passed in for system program",
                    log,
                )?;
                assert_with_log(
                    tracker_key == accounts[tracker_ai].key,
                    ProgramError::InvalidArgument,
                    "Invalid PDA seeds for tracker",
                    log,
                )?;
                let (authority_key, auth_bump) = match crate::authority::derive(
                    &authority_seeds_vec,
                    program_id,
                ) {
                    Some(found) => found,
                    None => {
                        return Err(ProgramError::InvalidArgument);
                    },
                };
                assert_with_log(
                    authority_key == accounts[authority].key,
                    ProgramError::InvalidArgument,
                    "Invalid PDA seeds for authority",
                    log,
                )?;
                if let Ok(stored) = <Tracker as Record>::try_from_slice(
                    accounts[tracker_ai].data.as_slice(),
                ) {
                    assert_with_log(
                        stored.is_blank(),
                        ProgramError::InvalidAccountData,
                        "Tracker is already initialized",
                        log,
                    )?;
                }
                let tracker = Tracker {
                    bump,
                    auth_bump,
                    counter: accounts[counter].key,
                    count: 0,
                };
                Ok(
                    Suspended {
                        call: HostCall::CreateCell(
                            CellCreation {
                                payer: user,
                                new_cell: tracker_ai,
                                system_program,
                                space: 42,
                                owner: *program_id,
                                authority_proof: AuthorityProof {
                                    seeds: tracker_seeds_vec,
                                    bump,
                                    program_scope: *program_id,
                                },
                            },
                        ),
                        pending: Pending::Initialize { tracker },
                    },
                )
            },
            TrackerInstruction::Increment => {
                let tracker_ai = next_account_info(accounts, &mut cursor)?;
                let user = next_account_info(accounts, &mut cursor)?;
                let counter_program = next_account_info(accounts, &mut cursor)?;
                let counter = next_account_info(accounts, &mut cursor)?;
                let authority = next_account_info(accounts, &mut cursor)?;

                let tracker: Tracker = load_unchecked(&accounts[tracker_ai])?;
                let mut tracker_seeds_vec: Vec<Vec<u8>> = Vec::new();
                tracker_seeds_vec.push(accounts[user].key.to_vec());
                tracker_seeds_vec.push(accounts[counter].key.to_vec());
                assert(seed_bytes(&tracker_seeds_vec) =~= tracker_seeds(
                    accounts@[1].key,
                    accounts@[3].key,
                ));
                let with_stored_bump = seeds_with_bump(&tracker_seeds_vec, tracker.bump);
                match create_program_address(&with_stored_bump, program_id) {
                    Err(_) => {
                        return Err(ProgramError::InvalidArgument);
                    },
                    Ok(tracker_key) => {
                        assert_with_log(
                            tracker_key == accounts[tracker_ai].key,
                            ProgramError::InvalidArgument,
                            "Invalid PDA seeds for tracker",
                            log,
                        )?;
                    },
                }
                if tracker.count == u64::MAX {
                    return Err(ProgramError::ArithmeticOverflow);
                }
                let instruction = increment(
                    accounts[counter_program].key,
                    accounts[counter].key,
                    accounts[authority].key,
                    CounterInstruction::Increment,
                )?;
                let mut account_handles: Vec<usize> = Vec::new();
                account_handles.push(counter);
                account_handles.push(authority);
                let mut authority_seeds_vec: Vec<Vec<u8>> = Vec::new();
                authority_seeds_vec.push(accounts[counter].key.to_vec());
                assert(seed_bytes(&authority_seeds_vec) =~= authority_seeds(
                    accounts@[3].key,
                ));
                let authority_proof = AuthorityProof {
                    seeds: authority_seeds_vec,
                    bump: tracker.auth_bump,
                    program_scope: *program_id,
                };
                proof {
                    let metas = instruction@.accounts;
                    let cells = accounts.deep_view();
                    assert(account_handles@ =~= seq![3usize, 4usize]);
                    assert(crate::bridge::handles_resolve(metas, account_handles@, cells));
                    if let Ok(address) = authority_proof.address() {
                        assert(crate::bridge::signers_authorized(metas, address) <==> cells[4].key
                            == address) by {
                            if cells[4].key != address {
                                assert(metas[1].is_signer);
                            }
                        }
                    }
                }
                let invocation = invoke(
                    &accounts[counter_program].key,
                    instruction,
                    account_handles,
                    authority_proof,
                    accounts,
                )?;
                Ok(
                    Suspended {
                        call: HostCall::Invoke(invocation),
                        pending: Pending::Increment { tracker },
                    },
                )
            },
        }
    }

    /// Runs the second half of an invocation, with the host's answer to the
    /// request of the first half.
    ///
    /// On success the cells are as `resumed` says. On failure, and so
    /// whenever the host reports that its part failed, they are untouched.
    pub fn resume(accounts: &mut Vec<Account>, pending: Pending, host_result: ProgramResult) -> (r:
        ProgramResult)
        ensures
            match Self::resumed(old(accounts).deep_view(), pending, host_result) {
                Ok(after) => r is Ok && final(accounts).deep_view() == after,
                Err(e) => r == Err::<(), ProgramError>(e) && *final(accounts) == *old(accounts),
            },
    {
        let mut log: Vec<&'static str> = Vec::new();
        Self::resume_logged(accounts, pending, host_result, &mut log)
    }

    /// Runs the second half as `resume` does, and adds to `log` the line that
    /// names the check on which it failed, where `resume_complaint` has one.
    pub fn resume_logged(
        accounts: &mut Vec<Account>,
        pending: Pending,
        host_result: ProgramResult,
        log: &mut Vec<&'static str>,
    ) -> (r: ProgramResult)
        ensures
            match Self::resumed(old(accounts).deep_view(), pending, host_result) {
                Ok(after) => r is Ok && final(accounts).deep_view() == after,
                Err(e) => r == Err::<(), ProgramError>(e) && *final(accounts) == *old(accounts),
            },
            lines(final(log)) == with_line(
                lines(old(log)),
                Self::resume_complaint(old(accounts).deep_view(), pending, host_result),
            ),
    {
        host_result?;
        let mut cursor: usize = 0;
        let tracker_ai = next_account_info(accounts, &mut cursor)?;
        match pending {
            Pending::Initialize { tracker } => {
                let stored: Tracker = load_unchecked(&accounts[tracker_ai])?;
                assert_with_log(
                    stored.is_blank(),
                    ProgramError::InvalidAccountData,
                    "Tracker is already initialized",
                    log,
                )?;
                proof {
                    tracker.lemma_round_trip();
                }
                save(&tracker, &mut accounts[tracker_ai])?;
                assert(accounts.deep_view() =~= Self::resumed(
                    old(accounts).deep_view(),
                    pending,
                    host_result,
                )->Ok_0);
            },
            Pending::Increment { tracker } => {
                let mut tracker = tracker;
                if tracker.count == u64::MAX {
                    return Err(ProgramError::ArithmeticOverflow);
                }
                if accounts[tracker_ai].data.len() < TRACKER_LEN {
                    return Err(ProgramError::BorshIoError);
                }
                tracker.count += 1;
                proof {
                    tracker.lemma_round_trip();
                }
                save(&tracker, &mut accounts[tracker_ai])?;
                assert(accounts.deep_view() =~= Self::resumed(
                    old(accounts).deep_view(),
                    pending,
                    host_result,
                )->Ok_0);
            },
        }
        Ok(())
    }

    /// The bumps that Initialize stores reproduce the two addresses: the
    /// tracker's own from the user and the counter, and that of its
    /// authority from the counter.
    pub proof fn law_stored_bumps_reproduce(program_id: Key, accounts: Seq<Cell>)
        requires
            Self::initialize_request(program_id, accounts) is Ok,
        ensures
            ({
                let pending = Self::initialize_request(program_id, accounts)->Ok_0.pending;
                &&& pending is Initialize
                &&& pending->Initialize_tracker.count == 0
                &&& pending->Initialize_tracker.counter == accounts[3].key
                &&& verified(
                    accounts[0].key,
                    tracker_seeds(accounts[1].key, accounts[3].key),
                    program_id@,
                    pending->Initialize_tracker.bump,
                ) == Ok::<(), ProgramError>(())
                &&& verified(
                    accounts[2].key,
                    authority_seeds(accounts[3].key),
                    program_id@,
                    pending->Initialize_tracker.auth_bump,
                ) == Ok::<(), ProgramError>(())
            }),
    {
        let user = accounts[1].key;
        let counter = accounts[3].key;
        let authority = derived(authority_seeds(counter), program_id@)->0;
        let tracker = derived(tracker_seeds(user, counter), program_id@)->0;
        law_derive_round_trip(authority_seeds(counter), program_id@, authority.0, authority.1);
        law_derive_round_trip(tracker_seeds(user, counter), program_id@, tracker.0, tracker.1);
    }

    /// Neither half of Initialize touches a cell that holds a tracker: the
    /// bumps of a tracker are set once, and no count is set back.
    pub proof fn law_initialize_once(
        program_id: Key,
        accounts: Seq<Cell>,
        tracker: Tracker,
        host_result: ProgramResult,
    )
        requires
            accounts.len() >= 1,
            Self::holds_tracker(accounts[0].data),
        ensures
            Self::initialize_request(program_id, accounts) is Err,
            Self::resumed(accounts, Pending::Initialize { tracker }, host_result) is Err,
    {
    }

    /// Initialize refuses every tracker cell but the one at the address
    /// derived from the user and the counter, and every authority cell but
    /// the one at the address derived from the counter, with
    /// `InvalidArgument`.
    pub proof fn law_initialize_rejects_other_addresses(
        program_id: Key,
        accounts: Seq<Cell>,
        address: Key,
        bump: u8,
    )
        requires
            accounts.len() >= 5,
        ensures
            derived(tracker_seeds(accounts[1].key, accounts[3].key), program_id@) == Some(
                (address, bump),
            ) && address != accounts[0].key ==> Self::initialize_request(program_id, accounts)
                == Err::<SuspendedView, ProgramError>(ProgramError::InvalidArgument),
            derived(tracker_seeds(accounts[1].key, accounts[3].key), program_id@) is Some
                && derived(authority_seeds(accounts[3].key), program_id@) == Some(
                (address, bump),
            ) && address != accounts[2].key ==> Self::initialize_request(program_id, accounts)
                == Err::<SuspendedView, ProgramError>(ProgramError::InvalidArgument),
    {
    }

    /// A call is asked of the host only for the authority at the address
    /// derived, under the tracker's own identifier, from the counter that the
    /// call names: the tracker signs for that counter and for nothing else.
    pub proof fn law_delegation_scoped(program_id: Key, accounts: Seq<Cell>)
        requires
            Self::increment_request(program_id, accounts) is Ok,
        ensures
            ({
                let suspended = Self::increment_request(program_id, accounts)->Ok_0;
                let tracker = Tracker::parse(accounts[0].data)->0;
                &&& suspended.call is Invoke
                &&& suspended.pending == (Pending::Increment { tracker })
                &&& suspended.call->Invoke_0.instruction.program_id == accounts[2].key
                &&& suspended.call->Invoke_0.instruction.data == CounterInstruction::Increment.encode()
                &&& callee_cells(suspended.call->Invoke_0, accounts) == seq![
                    accounts[3].with_signer(false),
                    accounts[4].with_signer(true),
                ]
                &&& created(
                    with_bump(authority_seeds(accounts[3].key), tracker.auth_bump),
                    program_id@,
                ) == Ok::<Key, ProgramError>(accounts[4].key)
            }),
    {
        let suspended = Self::increment_request(program_id, accounts)->Ok_0;
        assert(callee_cells(suspended.call->Invoke_0, accounts) =~= seq![
            accounts[3].with_signer(false),
            accounts[4].with_signer(true),
        ]);
    }

    /// The second half of an Increment that the host reports as done leaves
    /// in the tracker cell the record that was read, with its count raised
    /// by exactly one; the bumps and the counter's address stay. Every other
    /// cell is as it was.
    pub proof fn law_resume_counts(accounts: Seq<Cell>, tracker: Tracker)
        requires
            Self::resumed(accounts, Pending::Increment { tracker }, Ok(())) is Ok,
            Tracker::parse(accounts[0].data) is Some,
        ensures
            ({
                let after = Self::resumed(accounts, Pending::Increment { tracker }, Ok(()))->Ok_0;
                &&& after.len() == accounts.len()
                &&& Self::incremented(tracker) is Ok
                &&& Tracker::parse(after[0].data) == Some(Self::incremented(tracker)->Ok_0)
                &&& Self::incremented(tracker)->Ok_0.count == tracker.count + 1
                &&& after[0].key == accounts[0].key
                &&& forall|i: int| 1 <= i < accounts.len() ==> after[i] == accounts[i]
            }),
    {
        let next = Tracker { count: (tracker.count + 1) as u64, ..tracker };
        let stored = Tracker::parse(accounts[0].data)->0;
        next.lemma_round_trip();
        stored.lemma_round_trip();
        lemma_saved_over_record(next, stored, accounts[0].data);
    }

    /// A call that the host reports as rejected fails the invocation with the
    /// host's error, whatever was pending: nothing is written, and the
    /// tracker's count is as before.
    pub proof fn law_rejected_call_writes_nothing(
        accounts: Seq<Cell>,
        pending: Pending,
        e: ProgramError,
    )
        ensures
            Self::resumed(accounts, pending, Err(e)) == Err::<Seq<Cell>, ProgramError>(e),
    {
    }

    /// The record after a run of delegated increments, of which the host
    /// answered each in turn as `answers` says: an increment that the host
    /// reports as rejected, and one that would leave the range of the count,
    /// leave the record as it was.
    pub open spec fn after_all(tracker: Tracker, answers: Seq<ProgramResult>) -> Tracker
        decreases answers.len(),
    {
        if answers.len() == 0 {
            tracker
        } else {
            let before = Self::after_all(tracker, answers.drop_last());
            match (answers.last(), Self::incremented(before)) {
                (Ok(()), Ok(next)) => next,
                _ => before,
            }
        }
    }

    /// How many of the delegated increments of a run were completed.
    pub open spec fn completed(tracker: Tracker, answers: Seq<ProgramResult>) -> nat
        decreases answers.len(),
    {
        if answers.len() == 0 {
            0
        } else {
            let before = Self::after_all(tracker, answers.drop_last());
            let earlier = Self::completed(tracker, answers.drop_last());
            if answers.last() is Ok && Self::incremented(before) is Ok {
                earlier + 1
            } else {
                earlier
            }
        }
    }

    /// A tracker counts the delegated increments that were completed through
    /// it: after any run its count has gone up by their number, and its bumps
    /// and its counter are as they were set.
    pub proof fn law_count_is_completed(tracker: Tracker, answers: Seq<ProgramResult>)
        ensures
            Self::after_all(tracker, answers).count == tracker.count + Self::completed(
                tracker,
                answers,
            ),
            Self::after_all(tracker, answers).bump == tracker.bump,
            Self::after_all(tracker, answers).auth_bump == tracker.auth_bump,
            Self::after_all(tracker, answers).counter == tracker.counter,
        decreases answers.len(),
    {
        if answers.len() > 0 {
            Self::law_count_is_completed(tracker, answers.drop_last());
        }
    }

    /// A tracker's Increment together with the counter program that it calls.
    ///
    /// Where the first half lets the call through, the counter program is
    /// run on the counter cell and the authority, which it sees as a signer.
    /// If it succeeds, both counts go up by one: the counter's in the counter
    /// cell and the tracker's in the tracker cell. If it rejects the call,
    /// the second half fails with its error.
    pub proof fn law_delegated_increment(program_id: Key, accounts: Seq<Cell>)
        requires
            Self::increment_request(program_id, accounts) is Ok,
        ensures
            ({
                let suspended = Self::increment_request(program_id, accounts)->Ok_0;
                let invocation = suspended.call->Invoke_0;
                let tracker = Tracker::parse(accounts[0].data)->0;
                let inner = CounterProcessor::outcome(
                    callee_cells(invocation, accounts),
                    invocation.instruction.data,
                );
                match inner {
                    Err(e) => Self::resumed(accounts, suspended.pending, Err(e)) == Err::<
                        Seq<Cell>,
                        ProgramError,
                    >(e),
                    Ok(callee_after) => {
                        let counter = Counter::parse(accounts[3].data)->0;
                        let handed_back = accounts.update(
                            3,
                            accounts[3].with_data(callee_after[0].data),
                        );
                        let after = Self::resumed(handed_back, suspended.pending, Ok(()));
                        &&& after is Ok
                        &&& Tracker::parse(after->Ok_0[0].data) == Some(
                            Tracker { count: (tracker.count + 1) as u64, ..tracker },
                        )
                        &&& Counter::parse(after->Ok_0[3].data) is Some
                        &&& Counter::parse(after->Ok_0[3].data)->0.count == counter.count + 1
                    },
                }
            }),
    {
        let suspended = Self::increment_request(program_id, accounts)->Ok_0;
        let invocation = suspended.call->Invoke_0;
        let tracker = Tracker::parse(accounts[0].data)->0;
        Self::law_delegation_scoped(program_id, accounts);
        let cells = callee_cells(invocation, accounts);
        let inner = CounterProcessor::outcome(cells, invocation.instruction.data);
        if let Ok(callee_after) = inner {
            CounterProcessor::law_invocation_increments(cells, invocation.instruction.data);
            let handed_back = accounts.update(3, accounts[3].with_data(callee_after[0].data));
            Self::law_resume_counts(handed_back, tracker);
        }
    }
}

} // verus!
