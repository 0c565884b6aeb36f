use ledger_programs::account::Account;
use ledger_programs::authorized_counter::processor::Processor as CounterProcessor;
use ledger_programs::authorized_counter::state::Counter;
use ledger_programs::bridge::{AccountMeta, HostCall, Invocation};
use ledger_programs::count_tracker::error::CounterError;
use ledger_programs::count_tracker::instruction::TrackerInstruction;
use ledger_programs::count_tracker::processor::{Pending, Processor, Suspended};
use ledger_programs::count_tracker::state::{Tracker, TRACKER_LEN};
use ledger_programs::error::{ProgramError, ProgramResult};
use ledger_programs::key::Key;
use ledger_programs::record::Record;

fn key(b: u8) -> Key {
    Key::new([b; 32])
}

fn tracker_program() -> Key {
    key(201)
}

fn counter_program() -> Key {
    key(202)
}

struct World {
    user: Key,
    counter: Key,
    tracker: Key,
    bump: u8,
    authority: Key,
    auth_bump: u8,
}

fn world() -> World {
    let user = key(1);
    let counter = key(2);
    let (tracker, bump) = ledger_programs::authority::derive(
        &vec![user.to_vec(), counter.to_vec()],
        &tracker_program(),
    )
    .unwrap();
    let (authority, auth_bump) =
        ledger_programs::authority::derive(&vec![counter.to_vec()], &tracker_program()).unwrap();
    World { user, counter, tracker, bump, authority, auth_bump }
}

fn initialize_cells(w: &World, tracker_address: Key, authority_address: Key) -> Vec<Account> {
    vec![
        Account::new(tracker_address, false, vec![]),
        Account::new(w.user, true, vec![]),
        Account::new(authority_address, false, vec![]),
        Account::new(w.counter, false, vec![0u8; 40]),
        Account::new(Key::default(), false, vec![]),
    ]
}

fn increment_cells(w: &World, tracker: Tracker, counter: Counter) -> Vec<Account> {
    vec![
        Account::new(w.tracker, false, tracker.to_bytes()),
        Account::new(w.user, true, vec![]),
        Account::new(counter_program(), false, vec![]),
        Account::new(w.counter, false, counter.to_bytes()),
        Account::new(w.authority, false, vec![]),
    ]
}

/// What the host does with a call into the counter program: it runs the
/// program on the cells that the call names, and hands the cells back if the
/// program succeeds.
fn host_runs(invocation: &Invocation, accounts: &mut Vec<Account>) -> ProgramResult {
    assert_eq!(invocation.instruction.program_id, counter_program());
    let metas: &Vec<AccountMeta> = &invocation.instruction.accounts;
    let mut callee: Vec<Account> = metas
        .iter()
        .zip(invocation.account_handles.iter())
        .map(|(meta, handle)| {
            let cell = &accounts[*handle];
            assert_eq!(cell.key, meta.pubkey);
            Account::new(cell.key, meta.is_signer, cell.data.clone())
        })
        .collect();
    CounterProcessor::process_instruction(
        &invocation.instruction.program_id,
        &mut callee,
        &invocation.instruction.data,
    )?;
    for (after, handle) in callee.into_iter().zip(invocation.account_handles.iter()) {
        accounts[*handle].data = after.data;
    }
    Ok(())
}

#[test]
fn scenario_initialize_checks_the_derived_addresses() {
    let w = world();
    // A tracker cell at another address than the derived one.
    let wrong = initialize_cells(&w, key(77), w.authority);
    assert_eq!(
        Processor::process_instruction(&tracker_program(), &wrong, &[0]),
        Err(ProgramError::InvalidArgument)
    );
    // An authority cell at another address than the derived one.
    let wrong = initialize_cells(&w, w.tracker, key(78));
    assert_eq!(
        Processor::process_instruction(&tracker_program(), &wrong, &[0]),
        Err(ProgramError::InvalidArgument)
    );
    // The two derived addresses swapped.
    let wrong = initialize_cells(&w, w.authority, w.tracker);
    assert_eq!(
        Processor::process_instruction(&tracker_program(), &wrong, &[0]),
        Err(ProgramError::InvalidArgument)
    );
    // Another program than the one that creates cells.
    let mut wrong = initialize_cells(&w, w.tracker, w.authority);
    wrong[4] = Account::new(key(5), false, vec![]);
    assert_eq!(
        Processor::process_instruction(&tracker_program(), &wrong, &[0]),
        Err(ProgramError::InvalidArgument)
    );
    // Too few cells.
    let mut few = initialize_cells(&w, w.tracker, w.authority);
    few.pop();
    assert_eq!(
        Processor::process_instruction(&tracker_program(), &few, &[0]),
        Err(ProgramError::NotEnoughAccountKeys)
    );
}

#[test]
fn initialize_asks_for_a_cell_and_then_writes_the_tracker() {
    let w = world();
    let mut accounts = initialize_cells(&w, w.tracker, w.authority);
    let Suspended { call, pending } =
        Processor::process_instruction(&tracker_program(), &accounts, &[0]).unwrap();
    let expected = Tracker { bump: w.bump, auth_bump: w.auth_bump, counter: w.counter, count: 0 };
    assert_eq!(pending, Pending::Initialize { tracker: expected });
    match call {
        HostCall::CreateCell(creation) => {
            assert_eq!(creation.payer, 1);
            assert_eq!(creation.new_cell, 0);
            assert_eq!(creation.system_program, 4);
            assert_eq!(creation.space, 42);
            assert_eq!(creation.owner, tracker_program());
            assert_eq!(creation.authority_proof.seeds, vec![w.user.to_vec(), w.counter.to_vec()]);
            assert_eq!(creation.authority_proof.bump, w.bump);
            assert_eq!(creation.authority_proof.program_scope, tracker_program());
        }
        HostCall::Invoke(_) => panic!("a cell was to be created"),
    }
    // The host has not created the cell: nothing can be written.
    let before = accounts.clone();
    assert_eq!(Processor::resume(&mut accounts, pending, Ok(())), Err(ProgramError::BorshIoError));
    assert_eq!(accounts, before);
    // The host failed.
    assert_eq!(
        Processor::resume(&mut accounts, pending, Err(ProgramError::InsufficientFunds)),
        Err(ProgramError::InsufficientFunds)
    );
    assert_eq!(accounts, before);
    // The host created the cell.
    accounts[0].data = vec![0u8; TRACKER_LEN];
    assert_eq!(Processor::resume(&mut accounts, pending, Ok(())), Ok(()));
    assert_eq!(Tracker::try_from_slice(&accounts[0].data), Ok(expected));
    let mut bytes = vec![w.bump, w.auth_bump];
    bytes.extend_from_slice(&[2u8; 32]);
    bytes.extend_from_slice(&[0u8; 8]);
    assert_eq!(accounts[0].data, bytes);
}

#[test]
fn scenario_delegated_increment_counts_on_success_only() {
    let w = world();
    let tracker = Tracker { bump: w.bump, auth_bump: w.auth_bump, counter: w.counter, count: 4 };
    let counter = Counter { authority: w.authority, count: 9 };
    let mut accounts = increment_cells(&w, tracker, counter);

    let Suspended { call, pending } =
        Processor::process_instruction(&tracker_program(), &accounts, &[1]).unwrap();
    assert_eq!(pending, Pending::Increment { tracker });
    let invocation = match call {
        HostCall::Invoke(invocation) => invocation,
        HostCall::CreateCell(_) => panic!("the counter program was to be called"),
    };
    assert_eq!(invocation.instruction.data, vec![0u8]);
    assert_eq!(invocation.account_handles, vec![3, 4]);
    assert_eq!(
        invocation.instruction.accounts,
        vec![AccountMeta::new(w.counter, false), AccountMeta::new_readonly(w.authority, true)]
    );
    assert_eq!(invocation.authority_proof.seeds, vec![w.counter.to_vec()]);
    assert_eq!(invocation.authority_proof.bump, w.auth_bump);
    assert_eq!(invocation.authority_proof.program_scope, tracker_program());

    let answer = host_runs(&invocation, &mut accounts);
    assert_eq!(answer, Ok(()));
    assert_eq!(Processor::resume(&mut accounts, pending, answer), Ok(()));
    assert_eq!(
        Tracker::try_from_slice(&accounts[0].data),
        Ok(Tracker { count: 5, ..tracker })
    );
    assert_eq!(
        Counter::try_from_slice(&accounts[3].data),
        Ok(Counter { authority: w.authority, count: 10 })
    );

    // A counter that is bound to another authority rejects the call.
    let foreign = Counter { authority: key(99), count: 9 };
    let mut accounts = increment_cells(&w, tracker, foreign);
    let before = accounts.clone();
    let Suspended { call, pending } =
        Processor::process_instruction(&tracker_program(), &accounts, &[1]).unwrap();
    let invocation = match call {
        HostCall::Invoke(invocation) => invocation,
        HostCall::CreateCell(_) => panic!("the counter program was to be called"),
    };
    let answer = host_runs(&invocation, &mut accounts);
    assert_eq!(answer, Err(ProgramError::MissingRequiredSignature));
    assert_eq!(
        Processor::resume(&mut accounts, pending, answer),
        Err(ProgramError::MissingRequiredSignature)
    );
    assert_eq!(accounts, before);
    assert_eq!(Tracker::try_from_slice(&accounts[0].data).unwrap().count, 4);
}

#[test]
fn first_delegated_increment_binds_the_derived_authority() {
    let w = world();
    let tracker = Tracker { bump: w.bump, auth_bump: w.auth_bump, counter: w.counter, count: 0 };
    let mut accounts = increment_cells(&w, tracker, Counter { authority: Key::default(), count: 0 });
    for round in 1u64..=3 {
        let Suspended { call, pending } =
            Processor::process_instruction(&tracker_program(), &accounts, &[1]).unwrap();
        let invocation = match call {
            HostCall::Invoke(invocation) => invocation,
            HostCall::CreateCell(_) => panic!("the counter program was to be called"),
        };
        let answer = host_runs(&invocation, &mut accounts);
        assert_eq!(Processor::resume(&mut accounts, pending, answer), Ok(()));
        assert_eq!(Tracker::try_from_slice(&accounts[0].data).unwrap().count, round);
        assert_eq!(
            Counter::try_from_slice(&accounts[3].data),
            Ok(Counter { authority: w.authority, count: round })
        );
    }
}

#[test]
fn increment_checks_tracker_address_and_authority() {
    let w = world();
    let tracker = Tracker { bump: w.bump, auth_bump: w.auth_bump, counter: w.counter, count: 4 };
    let counter = Counter { authority: w.authority, count: 9 };

    // The tracker cell is not at the address that its bump reproduces.
    let mut accounts = increment_cells(&w, tracker, counter);
    accounts[0].key = key(50);
    assert_eq!(
        Processor::process_instruction(&tracker_program(), &accounts, &[1]),
        Err(ProgramError::InvalidArgument)
    );
    // Another user's tracker.
    let mut accounts = increment_cells(&w, tracker, counter);
    accounts[1].key = key(51);
    let r = Processor::process_instruction(&tracker_program(), &accounts, &[1]);
    assert!(r == Err(ProgramError::InvalidArgument) || r == Err(ProgramError::InvalidSeeds));
    // An authority at another address than the derived one, whether its
    // key signed or not.
    let mut accounts = increment_cells(&w, tracker, counter);
    accounts[4].key = key(52);
    assert_eq!(
        Processor::process_instruction(&tracker_program(), &accounts, &[1]),
        Err(ProgramError::InvalidArgument)
    );
    accounts[4].is_signer = true;
    assert_eq!(
        Processor::process_instruction(&tracker_program(), &accounts, &[1]),
        Err(ProgramError::InvalidArgument)
    );
    // A tracker whose authority bump is not the canonical one.
    if w.auth_bump < 255 {
        let tampered = Tracker { auth_bump: w.auth_bump + 1, ..tracker };
        let accounts = increment_cells(&w, tampered, counter);
        assert_eq!(
            Processor::process_instruction(&tracker_program(), &accounts, &[1]),
            Err(ProgramError::InvalidArgument)
        );
    }
    // The tracker cell holds no tracker.
    let mut accounts = increment_cells(&w, tracker, counter);
    accounts[0].data.push(0);
    assert_eq!(
        Processor::process_instruction(&tracker_program(), &accounts, &[1]),
        Err(ProgramError::BorshIoError)
    );
    // The count is at the top of its range.
    let full = Tracker { count: u64::MAX, ..tracker };
    let accounts = increment_cells(&w, full, counter);
    assert_eq!(
        Processor::process_instruction(&tracker_program(), &accounts, &[1]),
        Err(ProgramError::ArithmeticOverflow)
    );
    // Too few cells, and no instruction.
    let mut accounts = increment_cells(&w, tracker, counter);
    accounts.pop();
    assert_eq!(
        Processor::process_instruction(&tracker_program(), &accounts, &[1]),
        Err(ProgramError::NotEnoughAccountKeys)
    );
    assert_eq!(
        Processor::process_instruction(&tracker_program(), &accounts, &[2]),
        Err(ProgramError::InvalidInstructionData)
    );
}

#[test]
fn resume_of_increment_checks_again() {
    let w = world();
    let tracker = Tracker { bump: w.bump, auth_bump: w.auth_bump, counter: w.counter, count: 4 };
    let full = Tracker { count: u64::MAX, ..tracker };
    let mut accounts = increment_cells(&w, tracker, Counter { authority: w.authority, count: 0 });
    let before = accounts.clone();
    assert_eq!(
        Processor::resume(&mut accounts, Pending::Increment { tracker: full }, Ok(())),
        Err(ProgramError::ArithmeticOverflow)
    );
    assert_eq!(accounts, before);
    let mut none: Vec<Account> = vec![];
    assert_eq!(
        Processor::resume(&mut none, Pending::Increment { tracker }, Ok(())),
        Err(ProgramError::NotEnoughAccountKeys)
    );
    let mut short = vec![Account::new(w.tracker, false, vec![0u8; TRACKER_LEN - 1])];
    assert_eq!(
        Processor::resume(&mut short, Pending::Increment { tracker }, Ok(())),
        Err(ProgramError::BorshIoError)
    );
    assert_eq!(short[0].data, vec![0u8; TRACKER_LEN - 1]);
}

#[test]
fn tracker_instruction_payloads() {
    assert_eq!(TrackerInstruction::Initialize.try_to_vec(), Ok(vec![0u8]));
    assert_eq!(TrackerInstruction::Increment.try_to_vec(), Ok(vec![1u8]));
    assert_eq!(TrackerInstruction::try_from_slice(&[0]), Ok(TrackerInstruction::Initialize));
    assert_eq!(TrackerInstruction::try_from_slice(&[1]), Ok(TrackerInstruction::Increment));
    for bad in [&[][..], &[2][..], &[0, 0][..], &[1, 1][..]] {
        assert_eq!(
            TrackerInstruction::try_from_slice(bad),
            Err(ProgramError::InvalidInstructionData)
        );
    }
}

#[test]
fn counter_error_is_a_custom_error() {
    assert_eq!(ProgramError::from(CounterError::NotImplemented), ProgramError::Custom(0));
    assert_eq!(CounterError::NotImplemented.message(), "Instruction not implemented.");
}

#[test]
fn initialize_does_not_touch_a_tracker_that_is_there() {
    let w = world();
    let stored = Tracker { bump: w.bump, auth_bump: w.auth_bump, counter: w.counter, count: 5 };
    let mut accounts = initialize_cells(&w, w.tracker, w.authority);
    accounts[0].data = stored.to_bytes();
    assert_eq!(
        Processor::process_instruction(&tracker_program(), &accounts, &[0]),
        Err(ProgramError::InvalidAccountData)
    );
    // The second half refuses it too, whatever the host says.
    let before = accounts.clone();
    let pending = Pending::Initialize { tracker: Tracker { count: 0, ..stored } };
    assert_eq!(
        Processor::resume(&mut accounts, pending, Ok(())),
        Err(ProgramError::InvalidAccountData)
    );
    assert_eq!(accounts, before);
    assert_eq!(Tracker::try_from_slice(&accounts[0].data).unwrap().count, 5);
    // A blank cell of the size of a tracker is taken.
    accounts[0].data = vec![0u8; TRACKER_LEN];
    assert!(Processor::process_instruction(&tracker_program(), &accounts, &[0]).is_ok());
    assert_eq!(Processor::resume(&mut accounts, pending, Ok(())), Ok(()));
    assert_eq!(Tracker::try_from_slice(&accounts[0].data), Ok(Tracker { count: 0, ..stored }));
    assert!(!Tracker { count: 0, ..stored }.is_blank());
    assert!(Tracker::try_from_slice(&[0u8; TRACKER_LEN]).unwrap().is_blank());
}

#[test]
fn initialize_checks_the_tracker_address_before_the_authority() {
    let w = world();
    // Both addresses are wrong, and so is the program that creates cells.
    let mut wrong = initialize_cells(&w, key(77), key(78));
    assert_eq!(
        Processor::process_instruction(&tracker_program(), &wrong, &[0]),
        Err(ProgramError::InvalidArgument)
    );
    wrong[4] = Account::new(key(5), false, vec![]);
    assert_eq!(
        Processor::process_instruction(&tracker_program(), &wrong, &[0]),
        Err(ProgramError::InvalidArgument)
    );
    // Under another program the same cells are at other addresses.
    let cells = initialize_cells(&w, w.tracker, w.authority);
    assert_eq!(
        Processor::process_instruction(&key(203), &cells, &[0]),
        Err(ProgramError::InvalidArgument)
    );
}

#[test]
fn tracker_of_a_user_that_is_its_own_counter() {
    // User and counter at one address.
    let own = key(2);
    let program_id = tracker_program();
    let (tracker_key, bump) =
        ledger_programs::authority::derive(&vec![own.to_vec(), own.to_vec()], &program_id).unwrap();
    let (authority_key, auth_bump) =
        ledger_programs::authority::derive(&vec![own.to_vec()], &program_id).unwrap();
    let mut accounts = vec![
        Account::new(tracker_key, false, vec![]),
        Account::new(own, true, vec![0u8; 40]),
        Account::new(authority_key, false, vec![]),
        Account::new(own, true, vec![0u8; 40]),
        Account::new(Key::default(), false, vec![]),
    ];
    let Suspended { call, pending } =
        Processor::process_instruction(&program_id, &accounts, &[0]).unwrap();
    let expected = Tracker { bump, auth_bump, counter: own, count: 0 };
    assert_eq!(pending, Pending::Initialize { tracker: expected });
    match call {
        HostCall::CreateCell(creation) => {
            assert_eq!(creation.authority_proof.seeds, vec![own.to_vec(), own.to_vec()]);
            assert_eq!(creation.authority_proof.bump, bump);
        }
        HostCall::Invoke(_) => panic!("a cell was to be created"),
    }
    accounts[0].data = vec![0u8; TRACKER_LEN];
    assert_eq!(Processor::resume(&mut accounts, pending, Ok(())), Ok(()));
    assert_eq!(Tracker::try_from_slice(&accounts[0].data), Ok(expected));
}

#[test]
fn tracker_increment_with_a_cell_under_two_handles() {
    let w = world();
    let tracker = Tracker { bump: w.bump, auth_bump: w.auth_bump, counter: w.counter, count: 4 };
    let mut accounts = increment_cells(&w, tracker, Counter { authority: w.authority, count: 9 });
    accounts.push(accounts[1].clone());
    accounts.push(accounts[3].clone());
    let Suspended { call, pending } =
        Processor::process_instruction(&tracker_program(), &accounts, &[1]).unwrap();
    let invocation = match call {
        HostCall::Invoke(invocation) => invocation,
        HostCall::CreateCell(_) => panic!("the counter program was to be called"),
    };
    assert_eq!(invocation.account_handles, vec![3, 4]);
    let answer = host_runs(&invocation, &mut accounts);
    assert_eq!(Processor::resume(&mut accounts, pending, answer), Ok(()));
    assert_eq!(Tracker::try_from_slice(&accounts[0].data).unwrap().count, 5);
    assert_eq!(Counter::try_from_slice(&accounts[3].data).unwrap().count, 10);
}

#[test]
fn tracker_names_the_failed_check() {
    let w = world();
    let first = |accounts: &Vec<Account>, data: &[u8]| {
        let mut log = Vec::new();
        let r = Processor::process_instruction_logged(&tracker_program(), accounts, data, &mut log);
        assert_eq!(Processor::process_instruction(&tracker_program(), accounts, data), r);
        assert!(log.len() <= 1);
        (r.err(), log.first().copied())
    };
    // Initialize
    let good = initialize_cells(&w, w.tracker, w.authority);
    assert_eq!(first(&good, &[0]), (None, None));
    let mut cells = good.clone();
    cells[4].key = key(5);
    cells[0].key = key(77);
    assert_eq!(
        first(&cells, &[0]),
        (Some(ProgramError::InvalidArgument), Some("Invalid passed in for system program"))
    );
    cells[4].key = Key::default();
    cells[2].key = key(78);
    assert_eq!(
        first(&cells, &[0]),
        (Some(ProgramError::InvalidArgument), Some("Invalid PDA seeds for tracker"))
    );
    cells[0].key = w.tracker;
    assert_eq!(
        first(&cells, &[0]),
        (Some(ProgramError::InvalidArgument), Some("Invalid PDA seeds for authority"))
    );
    let stored = Tracker { bump: w.bump, auth_bump: w.auth_bump, counter: w.counter, count: 5 };
    let mut cells = good.clone();
    cells[0].data = stored.to_bytes();
    assert_eq!(
        first(&cells, &[0]),
        (Some(ProgramError::InvalidAccountData), Some("Tracker is already initialized"))
    );
    let mut few = good.clone();
    few.pop();
    assert_eq!(first(&few, &[0]), (Some(ProgramError::NotEnoughAccountKeys), None));
    // Increment
    let counter = Counter { authority: w.authority, count: 9 };
    let good = increment_cells(&w, stored, counter);
    assert_eq!(first(&good, &[1]), (None, None));
    let mut cells = good.clone();
    cells[0].key = key(50);
    assert_eq!(
        first(&cells, &[1]),
        (Some(ProgramError::InvalidArgument), Some("Invalid PDA seeds for tracker"))
    );
    let mut cells = good.clone();
    cells[4].key = key(52);
    assert_eq!(first(&cells, &[1]), (Some(ProgramError::InvalidArgument), None));
    if w.bump < 255 {
        let cells = increment_cells(&w, Tracker { bump: w.bump + 1, ..stored }, counter);
        assert_eq!(first(&cells, &[1]), (Some(ProgramError::InvalidArgument), None));
    }
    let mut cells = good.clone();
    cells[0].data.pop();
    assert_eq!(first(&cells, &[1]), (Some(ProgramError::BorshIoError), None));
    assert_eq!(first(&good, &[7]), (Some(ProgramError::InvalidInstructionData), None));

    // The second half.
    let second = |mut accounts: Vec<Account>, pending: Pending, answer| {
        let mut plain = accounts.clone();
        let mut log = Vec::new();
        let r = Processor::resume_logged(&mut accounts, pending, answer, &mut log);
        assert_eq!(Processor::resume(&mut plain, pending, answer), r);
        assert_eq!(plain, accounts);
        (r, log.first().copied())
    };
    let pending = Pending::Initialize { tracker: stored };
    assert_eq!(
        second(good.clone(), pending, Ok(())),
        (Err(ProgramError::InvalidAccountData), Some("Tracker is already initialized"))
    );
    assert_eq!(
        second(good.clone(), pending, Err(ProgramError::InvalidAccountData)),
        (Err(ProgramError::InvalidAccountData), None)
    );
    let mut blank = good.clone();
    blank[0].data = vec![0u8; TRACKER_LEN];
    assert_eq!(second(blank, pending, Ok(())), (Ok(()), None));
    assert_eq!(
        second(good.clone(), Pending::Increment { tracker: stored }, Ok(())),
        (Ok(()), None)
    );
}
