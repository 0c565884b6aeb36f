use ledger_programs::account::{next_account_info, Account};
use ledger_programs::authorized_counter::instruction::{increment, CounterInstruction};
use ledger_programs::bridge::{invoke, system_program_id, AccountMeta, AuthorityProof, Instruction};
use ledger_programs::error::{assert_with_log, assert_with_msg, ProgramError};
use ledger_programs::key::Key;

fn key(b: u8) -> Key {
    Key::new([b; 32])
}

struct Setup {
    scope: Key,
    counter: Key,
    authority: Key,
    bump: u8,
}

fn setup() -> Setup {
    let scope = key(201);
    let counter = key(2);
    let (authority, bump) =
        ledger_programs::authority::derive(&vec![counter.to_vec()], &scope).unwrap();
    Setup { scope, counter, authority, bump }
}

fn authority_proof(s: &Setup) -> AuthorityProof {
    AuthorityProof { seeds: vec![s.counter.to_vec()], bump: s.bump, program_scope: s.scope }
}

fn cells(s: &Setup) -> Vec<Account> {
    vec![
        Account::new(key(50), false, vec![]),
        Account::new(s.counter, false, vec![0u8; 40]),
        Account::new(s.authority, false, vec![]),
    ]
}

fn call(s: &Setup) -> Instruction {
    increment(key(202), s.counter, s.authority, CounterInstruction::Increment).unwrap()
}

#[test]
fn invoke_lets_the_derived_authority_sign() {
    let s = setup();
    let accounts = cells(&s);
    let invocation = invoke(&key(202), call(&s), vec![1, 2], authority_proof(&s), &accounts).unwrap();
    assert_eq!(invocation.instruction, call(&s));
    assert_eq!(invocation.account_handles, vec![1, 2]);
    assert_eq!(invocation.authority_proof, authority_proof(&s));
}

#[test]
fn invoke_rejects_a_signer_that_is_not_the_derived_address() {
    let s = setup();
    let mut accounts = cells(&s);
    accounts[2].key = key(60);
    let instruction = increment(key(202), s.counter, key(60), CounterInstruction::Increment).unwrap();
    assert_eq!(
        invoke(&key(202), instruction.clone(), vec![1, 2], authority_proof(&s), &accounts),
        Err(ProgramError::InvalidArgument)
    );
    // Also where its key signed the outer invocation: the proof signs for
    // the address that it derives, and for nothing else.
    accounts[2].is_signer = true;
    assert_eq!(
        invoke(&key(202), instruction, vec![1, 2], authority_proof(&s), &accounts),
        Err(ProgramError::InvalidArgument)
    );
}

#[test]
fn invoke_rejects_a_proof_for_another_scope_or_bump() {
    let s = setup();
    let accounts = cells(&s);
    let other_scope = AuthorityProof { program_scope: key(203), ..authority_proof(&s) };
    let r = invoke(&key(202), call(&s), vec![1, 2], other_scope, &accounts);
    assert!(r == Err(ProgramError::InvalidArgument) || r == Err(ProgramError::InvalidSeeds));
    let other_seeds = AuthorityProof { seeds: vec![key(3).to_vec()], ..authority_proof(&s) };
    let r = invoke(&key(202), call(&s), vec![1, 2], other_seeds, &accounts);
    assert!(r == Err(ProgramError::InvalidArgument) || r == Err(ProgramError::InvalidSeeds));
    if s.bump < 255 {
        let higher = AuthorityProof { bump: s.bump + 1, ..authority_proof(&s) };
        assert_eq!(
            invoke(&key(202), call(&s), vec![1, 2], higher, &accounts),
            Err(ProgramError::InvalidArgument)
        );
    }
    let too_long = AuthorityProof { seeds: vec![vec![0u8; 33]], ..authority_proof(&s) };
    assert_eq!(
        invoke(&key(202), call(&s), vec![1, 2], too_long, &accounts),
        Err(ProgramError::InvalidArgument)
    );
}

#[test]
fn invoke_checks_program_and_handles() {
    let s = setup();
    let accounts = cells(&s);
    assert_eq!(
        invoke(&key(204), call(&s), vec![1, 2], authority_proof(&s), &accounts),
        Err(ProgramError::IncorrectProgramId)
    );
    assert_eq!(
        invoke(&key(202), call(&s), vec![1], authority_proof(&s), &accounts),
        Err(ProgramError::NotEnoughAccountKeys)
    );
    assert_eq!(
        invoke(&key(202), call(&s), vec![1, 3], authority_proof(&s), &accounts),
        Err(ProgramError::NotEnoughAccountKeys)
    );
    assert_eq!(
        invoke(&key(202), call(&s), vec![2, 1], authority_proof(&s), &accounts),
        Err(ProgramError::NotEnoughAccountKeys)
    );
    let empty = Instruction { program_id: key(202), accounts: vec![], data: vec![] };
    assert!(invoke(&key(202), empty, vec![], authority_proof(&s), &accounts).is_ok());
}

#[test]
fn account_meta_constructors() {
    assert_eq!(
        AccountMeta::new(key(1), true),
        AccountMeta { pubkey: key(1), is_signer: true, is_writable: true }
    );
    assert_eq!(
        AccountMeta::new_readonly(key(1), false),
        AccountMeta { pubkey: key(1), is_signer: false, is_writable: false }
    );
}

#[test]
fn system_program_is_at_the_zero_address() {
    assert_eq!(system_program_id(), Key::new([0u8; 32]));
    assert_eq!(
        system_program_id().to_bytes(),
        solana_program::system_program::id().to_bytes()
    );
}

#[test]
fn next_account_info_walks_the_cells() {
    let accounts = vec![Account::new(key(1), false, vec![]), Account::new(key(2), true, vec![])];
    let mut cursor = 0usize;
    assert_eq!(next_account_info(&accounts, &mut cursor), Ok(0));
    assert_eq!(next_account_info(&accounts, &mut cursor), Ok(1));
    assert_eq!(cursor, 2);
    assert_eq!(
        next_account_info(&accounts, &mut cursor),
        Err(ProgramError::NotEnoughAccountKeys)
    );
    assert_eq!(cursor, 2);
}

#[test]
fn assert_with_msg_fails_with_the_given_error() {
    assert_eq!(assert_with_msg(true, ProgramError::InvalidArgument, "never"), Ok(()));
    assert_eq!(
        assert_with_msg(false, ProgramError::InvalidArgument, "always"),
        Err(ProgramError::InvalidArgument)
    );
    assert_eq!(
        assert_with_msg(false, ProgramError::Custom(7), ""),
        Err(ProgramError::Custom(7))
    );
}

#[test]
fn keys_compare_by_their_bytes() {
    let mut bytes = [0u8; 32];
    assert_eq!(Key::new(bytes), Key::default());
    bytes[31] = 1;
    assert_ne!(Key::new(bytes), Key::default());
    assert_eq!(Key::new(bytes).to_bytes(), bytes);
    assert_eq!(Key::new(bytes).to_vec(), bytes.to_vec());
    assert_eq!(Key::new(bytes), Key::new(bytes));
    bytes[0] = 1;
    bytes[31] = 0;
    assert_ne!(Key::new(bytes), Key::default());
}

#[test]
fn assert_with_log_adds_the_line_of_a_failed_check() {
    let mut log = vec!["first"];
    assert_eq!(assert_with_log(true, ProgramError::InvalidArgument, "never", &mut log), Ok(()));
    assert_eq!(log, vec!["first"]);
    assert_eq!(
        assert_with_log(false, ProgramError::InvalidArgument, "second", &mut log),
        Err(ProgramError::InvalidArgument)
    );
    assert_eq!(
        assert_with_log(false, ProgramError::Custom(3), "third", &mut log),
        Err(ProgramError::Custom(3))
    );
    assert_eq!(log, vec!["first", "second", "third"]);
}
