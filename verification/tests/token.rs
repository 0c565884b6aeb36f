use ledger_programs::account::Account;
use ledger_programs::error::ProgramError;
use ledger_programs::key::Key;
use ledger_programs::record::Record;
use ledger_programs::token::error::TokenError;
use ledger_programs::token::instruction::TokenInstruction;
use ledger_programs::token::processor::Processor;
use ledger_programs::token::state::{AccountTag, Mint, TokenAccount, MINT_LEN, TOKEN_ACCOUNT_LEN};

fn key(b: u8) -> Key {
    Key::new([b; 32])
}

fn program() -> Key {
    key(250)
}

fn payload(instruction: TokenInstruction) -> Vec<u8> {
    instruction.try_to_vec().unwrap()
}

fn signer(k: Key) -> Account {
    Account::new(k, true, vec![])
}

fn mint_cell(address: Key, authority: Key, supply: u64) -> Account {
    let record = Mint { tag: AccountTag::Mint, authority, supply };
    Account::new(address, false, record.to_bytes())
}

fn token_cell(address: Key, owner: Key, mint: Key, amount: u64) -> Account {
    let record = TokenAccount { tag: AccountTag::TokenAccount, owner, mint, amount };
    Account::new(address, false, record.to_bytes())
}

fn mint_of(cell: &Account) -> Mint {
    Mint::load(cell).unwrap()
}

fn token_of(cell: &Account) -> TokenAccount {
    TokenAccount::load(cell).unwrap()
}

/// Supply of the mint at `mint` and the sum of what is held in it.
fn totals(ledger: &[Account], mint: Key) -> (u128, u128) {
    let mut supply = 0u128;
    let mut held = 0u128;
    for cell in ledger {
        if let Ok(m) = Mint::load(cell) {
            if cell.key == mint {
                supply += m.supply as u128;
            }
        }
        if let Ok(t) = TokenAccount::load(cell) {
            if t.mint == mint {
                held += t.amount as u128;
            }
        }
    }
    (supply, held)
}

#[test]
fn scenario_mint_then_burn_by_owner_then_by_stranger() {
    let m = key(1);
    let mint_address = key(10);
    let x = key(20);
    let owner = key(2);
    let mut accounts = vec![
        token_cell(x, owner, mint_address, 0),
        mint_cell(mint_address, m, 0),
        signer(m),
    ];
    let r = Processor::process_instruction(
        &program(),
        &mut accounts,
        &payload(TokenInstruction::Mint { amount: 100 }),
    );
    assert_eq!(r, Ok(()));
    assert_eq!(mint_of(&accounts[1]).supply, 100);
    assert_eq!(token_of(&accounts[0]).amount, 100);

    accounts[2] = signer(owner);
    let r = Processor::process_instruction(
        &program(),
        &mut accounts,
        &payload(TokenInstruction::Burn { amount: 30 }),
    );
    assert_eq!(r, Ok(()));
    assert_eq!(mint_of(&accounts[1]).supply, 70);
    assert_eq!(token_of(&accounts[0]).amount, 70);

    accounts[2] = signer(key(3));
    let before = accounts.clone();
    let r = Processor::process_instruction(
        &program(),
        &mut accounts,
        &payload(TokenInstruction::Burn { amount: 30 }),
    );
    assert_eq!(r, Err(ProgramError::MissingRequiredSignature));
    assert_eq!(accounts, before);
    assert_eq!(mint_of(&accounts[1]).supply, 70);
    assert_eq!(token_of(&accounts[0]).amount, 70);
}

#[test]
fn scenario_transfer_between_mints_fails() {
    let owner = key(2);
    let mut accounts = vec![
        token_cell(key(20), owner, key(0xa), 100),
        token_cell(key(21), key(3), key(0xb), 0),
        signer(owner),
    ];
    let before = accounts.clone();
    let r = Processor::process_instruction(
        &program(),
        &mut accounts,
        &payload(TokenInstruction::Transfer { amount: 50 }),
    );
    assert_eq!(r, Err(ProgramError::InvalidAccountData));
    assert_eq!(accounts, before);
    assert_eq!(token_of(&accounts[0]).amount, 100);
    assert_eq!(token_of(&accounts[1]).amount, 0);
}

#[test]
fn transfer_moves_the_amount_and_keeps_the_sum() {
    let owner = key(2);
    let mint = key(10);
    let mut accounts = vec![
        token_cell(key(20), owner, mint, 100),
        token_cell(key(21), key(3), mint, 7),
        signer(owner),
        mint_cell(mint, key(1), 107),
    ];
    let r = Processor::process_instruction(
        &program(),
        &mut accounts,
        &payload(TokenInstruction::Transfer { amount: 40 }),
    );
    assert_eq!(r, Ok(()));
    assert_eq!(
        token_of(&accounts[0]),
        TokenAccount { tag: AccountTag::TokenAccount, owner, mint, amount: 60 }
    );
    assert_eq!(
        token_of(&accounts[1]),
        TokenAccount { tag: AccountTag::TokenAccount, owner: key(3), mint, amount: 47 }
    );
    assert_eq!(mint_of(&accounts[3]).supply, 107);
    assert_eq!(totals(&accounts, mint), (107, 107));
}

#[test]
fn transfer_checks_in_order() {
    let owner = key(2);
    let mint = key(10);
    let cells = |signed: bool, signer_key: Key, amount: u64, dst_mint: Key, dst_amount: u64| {
        vec![
            token_cell(key(20), owner, mint, amount),
            token_cell(key(21), key(3), dst_mint, dst_amount),
            Account::new(signer_key, signed, vec![]),
        ]
    };
    let data = payload(TokenInstruction::Transfer { amount: 50 });
    let run = |mut accounts: Vec<Account>| {
        let before = accounts.clone();
        let r = Processor::process_instruction(&program(), &mut accounts, &data);
        if r.is_err() {
            assert_eq!(accounts, before);
        }
        r
    };
    assert_eq!(run(cells(false, owner, 100, mint, 0)), Err(ProgramError::MissingRequiredSignature));
    assert_eq!(run(cells(true, key(9), 100, mint, 0)), Err(ProgramError::MissingRequiredSignature));
    assert_eq!(run(cells(true, owner, 49, mint, 0)), Err(ProgramError::InvalidAccountData));
    assert_eq!(run(cells(true, owner, 49, key(11), 0)), Err(ProgramError::InvalidAccountData));
    assert_eq!(run(cells(true, owner, 50, key(11), 0)), Err(ProgramError::InvalidAccountData));
    assert_eq!(
        run(cells(true, owner, 50, mint, u64::MAX - 49)),
        Err(ProgramError::ArithmeticOverflow)
    );
    assert_eq!(run(cells(true, owner, 50, mint, u64::MAX - 50)), Ok(()));
}

#[test]
fn initialize_mint_sets_authority_and_zero_supply() {
    let authority = key(1);
    let mut accounts = vec![Account::new(key(10), false, vec![0u8; MINT_LEN]), signer(authority)];
    let r = Processor::process_instruction(
        &program(),
        &mut accounts,
        &payload(TokenInstruction::InitializeMint),
    );
    assert_eq!(r, Ok(()));
    assert_eq!(mint_of(&accounts[0]), Mint { tag: AccountTag::Mint, authority, supply: 0 });
    let mut expected = vec![1u8];
    expected.extend_from_slice(&[1u8; 32]);
    expected.extend_from_slice(&[0u8; 8]);
    assert_eq!(accounts[0].data, expected);
}

#[test]
fn initialize_mint_twice_fails() {
    let mut accounts = vec![mint_cell(key(10), key(1), 55), signer(key(2))];
    let before = accounts.clone();
    let r = Processor::process_instruction(
        &program(),
        &mut accounts,
        &payload(TokenInstruction::InitializeMint),
    );
    assert_eq!(r, Err(ProgramError::InvalidAccountData));
    assert_eq!(accounts, before);
}

#[test]
fn initialize_mint_needs_signature_and_a_cell_of_the_right_size() {
    let data = payload(TokenInstruction::InitializeMint);
    let mut unsigned =
        vec![Account::new(key(10), false, vec![0u8; MINT_LEN]), Account::new(key(1), false, vec![])];
    assert_eq!(
        Processor::process_instruction(&program(), &mut unsigned, &data),
        Err(ProgramError::MissingRequiredSignature)
    );
    let mut short = vec![Account::new(key(10), false, vec![0u8; MINT_LEN - 1]), signer(key(1))];
    assert_eq!(
        Processor::process_instruction(&program(), &mut short, &data),
        Err(ProgramError::BorshIoError)
    );
    let mut bad_tag = vec![Account::new(key(10), false, vec![3u8; MINT_LEN]), signer(key(1))];
    assert_eq!(
        Processor::process_instruction(&program(), &mut bad_tag, &data),
        Err(ProgramError::BorshIoError)
    );
    let mut one = vec![Account::new(key(10), false, vec![0u8; MINT_LEN])];
    assert_eq!(
        Processor::process_instruction(&program(), &mut one, &data),
        Err(ProgramError::NotEnoughAccountKeys)
    );
}

#[test]
fn initialize_token_account_binds_owner_and_mint() {
    let mint = key(10);
    let owner = key(2);
    let mut accounts = vec![
        Account::new(key(20), false, vec![0u8; TOKEN_ACCOUNT_LEN]),
        mint_cell(mint, key(1), 5),
        Account::new(owner, false, vec![]),
    ];
    let r = Processor::process_instruction(
        &program(),
        &mut accounts,
        &payload(TokenInstruction::InitializeTokenAccount),
    );
    assert_eq!(r, Ok(()));
    assert_eq!(
        token_of(&accounts[0]),
        TokenAccount { tag: AccountTag::TokenAccount, owner, mint, amount: 0 }
    );
    assert_eq!(mint_of(&accounts[1]).supply, 5);
}

#[test]
fn initialize_token_account_needs_a_mint() {
    let data = payload(TokenInstruction::InitializeTokenAccount);
    let mut not_a_mint = vec![
        Account::new(key(20), false, vec![0u8; TOKEN_ACCOUNT_LEN]),
        Account::new(key(10), false, vec![0u8; MINT_LEN]),
        Account::new(key(2), false, vec![]),
    ];
    assert_eq!(
        Processor::process_instruction(&program(), &mut not_a_mint, &data),
        Err(ProgramError::InvalidAccountData)
    );
    let mut two = vec![
        Account::new(key(20), false, vec![0u8; TOKEN_ACCOUNT_LEN]),
        mint_cell(key(10), key(1), 0),
    ];
    assert_eq!(
        Processor::process_instruction(&program(), &mut two, &data),
        Err(ProgramError::NotEnoughAccountKeys)
    );
    let mut wrong_size = vec![
        Account::new(key(20), false, vec![0u8; MINT_LEN]),
        mint_cell(key(10), key(1), 0),
        Account::new(key(2), false, vec![]),
    ];
    assert_eq!(
        Processor::process_instruction(&program(), &mut wrong_size, &data),
        Err(ProgramError::BorshIoError)
    );
}

#[test]
fn mint_checks_in_order() {
    let authority = key(1);
    let mint = key(10);
    let data = payload(TokenInstruction::Mint { amount: 10 });
    let run = |mut accounts: Vec<Account>| {
        let before = accounts.clone();
        let r = Processor::process_instruction(&program(), &mut accounts, &data);
        if r.is_err() {
            assert_eq!(accounts, before);
        }
        r
    };
    let account = || token_cell(key(20), key(2), mint, 1);
    assert_eq!(
        run(vec![account(), mint_cell(mint, authority, 1)]),
        Err(ProgramError::NotEnoughAccountKeys)
    );
    assert_eq!(
        run(vec![mint_cell(mint, authority, 1), mint_cell(mint, authority, 1), signer(authority)]),
        Err(ProgramError::BorshIoError)
    );
    assert_eq!(
        run(vec![
            Account::new(key(20), false, vec![0u8; TOKEN_ACCOUNT_LEN]),
            mint_cell(mint, authority, 1),
            signer(authority)
        ]),
        Err(ProgramError::InvalidAccountData)
    );
    assert_eq!(
        run(vec![account(), Account::new(mint, false, vec![0u8; MINT_LEN]), signer(authority)]),
        Err(ProgramError::InvalidAccountData)
    );
    assert_eq!(
        run(vec![account(), mint_cell(mint, authority, 1), Account::new(authority, false, vec![])]),
        Err(ProgramError::MissingRequiredSignature)
    );
    assert_eq!(
        run(vec![account(), mint_cell(mint, authority, 1), signer(key(3))]),
        Err(ProgramError::MissingRequiredSignature)
    );
    assert_eq!(
        run(vec![account(), mint_cell(mint, authority, u64::MAX - 9), signer(authority)]),
        Err(ProgramError::ArithmeticOverflow)
    );
    assert_eq!(
        run(vec![
            token_cell(key(20), key(2), mint, u64::MAX - 9),
            mint_cell(mint, authority, 1),
            signer(authority)
        ]),
        Err(ProgramError::ArithmeticOverflow)
    );
    assert_eq!(
        run(vec![account(), mint_cell(mint, authority, u64::MAX - 10), signer(authority)]),
        Ok(())
    );
}

#[test]
fn burn_checks_in_order() {
    let owner = key(2);
    let mint = key(10);
    let data = payload(TokenInstruction::Burn { amount: 10 });
    let run = |mut accounts: Vec<Account>| {
        let before = accounts.clone();
        let r = Processor::process_instruction(&program(), &mut accounts, &data);
        if r.is_err() {
            assert_eq!(accounts, before);
        }
        r
    };
    assert_eq!(
        run(vec![
            token_cell(key(20), owner, mint, 10),
            mint_cell(mint, key(1), 10),
            Account::new(owner, false, vec![])
        ]),
        Err(ProgramError::MissingRequiredSignature)
    );
    assert_eq!(
        run(vec![token_cell(key(20), owner, mint, 9), mint_cell(mint, key(1), 10), signer(owner)]),
        Err(ProgramError::InvalidAccountData)
    );
    assert_eq!(
        run(vec![token_cell(key(20), owner, mint, 10), mint_cell(mint, key(1), 9), signer(owner)]),
        Err(ProgramError::ArithmeticOverflow)
    );
    assert_eq!(
        run(vec![token_cell(key(20), owner, mint, 10), mint_cell(mint, key(1), 10), signer(owner)]),
        Ok(())
    );
}

#[test]
fn supply_is_sum_of_balances_along_a_run() {
    let program_id = program();
    let authority = key(1);
    let a = key(2);
    let b = key(3);
    let mint = key(10);
    let other_mint = key(11);
    // The ledger: two mints, three token accounts, not yet initialized.
    let mut mint_1 = Account::new(mint, false, vec![0u8; MINT_LEN]);
    let mut mint_2 = Account::new(other_mint, false, vec![0u8; MINT_LEN]);
    let mut acc_a = Account::new(key(20), false, vec![0u8; TOKEN_ACCOUNT_LEN]);
    let mut acc_b = Account::new(key(21), false, vec![0u8; TOKEN_ACCOUNT_LEN]);
    let mut acc_c = Account::new(key(22), false, vec![0u8; TOKEN_ACCOUNT_LEN]);

    let check = |cells: [&Account; 5]| {
        let ledger: Vec<Account> = cells.iter().map(|c| (*c).clone()).collect();
        for m in [mint, other_mint] {
            let (supply, held) = totals(&ledger, m);
            assert_eq!(supply, held);
        }
    };
    check([&mint_1, &mint_2, &acc_a, &acc_b, &acc_c]);

    let mut step = |cells: Vec<&mut Account>, signer_key: Key, instruction: TokenInstruction| {
        let mut accounts: Vec<Account> = cells.iter().map(|c| (**c).clone()).collect();
        accounts.push(signer(signer_key));
        let r = Processor::process_instruction(&program_id, &mut accounts, &payload(instruction));
        for (cell, after) in cells.into_iter().zip(accounts.into_iter()) {
            *cell = after;
        }
        r
    };

    assert_eq!(step(vec![&mut mint_1], authority, TokenInstruction::InitializeMint), Ok(()));
    assert_eq!(step(vec![&mut mint_2], authority, TokenInstruction::InitializeMint), Ok(()));
    check([&mint_1, &mint_2, &acc_a, &acc_b, &acc_c]);
    assert_eq!(step(vec![&mut acc_a, &mut mint_1], a, TokenInstruction::InitializeTokenAccount), Ok(()));
    assert_eq!(step(vec![&mut acc_b, &mut mint_1], b, TokenInstruction::InitializeTokenAccount), Ok(()));
    assert_eq!(step(vec![&mut acc_c, &mut mint_2], a, TokenInstruction::InitializeTokenAccount), Ok(()));
    check([&mint_1, &mint_2, &acc_a, &acc_b, &acc_c]);
    assert_eq!(step(vec![&mut acc_a, &mut mint_1], authority, TokenInstruction::Mint { amount: 100 }), Ok(()));
    check([&mint_1, &mint_2, &acc_a, &acc_b, &acc_c]);
    assert_eq!(step(vec![&mut acc_c, &mut mint_2], authority, TokenInstruction::Mint { amount: 9 }), Ok(()));
    check([&mint_1, &mint_2, &acc_a, &acc_b, &acc_c]);
    assert_eq!(step(vec![&mut acc_a, &mut acc_b], a, TokenInstruction::Transfer { amount: 60 }), Ok(()));
    check([&mint_1, &mint_2, &acc_a, &acc_b, &acc_c]);
    assert_eq!(
        step(vec![&mut acc_a, &mut acc_c], a, TokenInstruction::Transfer { amount: 1 }),
        Err(ProgramError::InvalidAccountData)
    );
    check([&mint_1, &mint_2, &acc_a, &acc_b, &acc_c]);
    assert_eq!(step(vec![&mut acc_b, &mut mint_1], b, TokenInstruction::Burn { amount: 25 }), Ok(()));
    check([&mint_1, &mint_2, &acc_a, &acc_b, &acc_c]);
    assert_eq!(
        step(vec![&mut acc_b, &mut mint_1], b, TokenInstruction::Burn { amount: 36 }),
        Err(ProgramError::InvalidAccountData)
    );
    check([&mint_1, &mint_2, &acc_a, &acc_b, &acc_c]);

    assert_eq!(mint_of(&mint_1).supply, 75);
    assert_eq!(mint_of(&mint_2).supply, 9);
    assert_eq!(token_of(&acc_a).amount, 40);
    assert_eq!(token_of(&acc_b).amount, 35);
    assert_eq!(token_of(&acc_c).amount, 9);
}

#[test]
fn mint_and_burn_refuse_an_account_of_another_mint() {
    let authority = key(1);
    let owner = key(2);
    let mint = key(10);
    let other = key(11);
    let mut accounts = vec![
        token_cell(key(20), owner, other, 9),
        mint_cell(mint, authority, 9),
        signer(authority),
        mint_cell(other, authority, 9),
    ];
    let before = accounts.clone();
    let r = Processor::process_instruction(
        &program(),
        &mut accounts,
        &payload(TokenInstruction::Mint { amount: 5 }),
    );
    assert_eq!(r, Err(ProgramError::InvalidAccountData));
    assert_eq!(accounts, before);
    accounts[2] = signer(owner);
    let before = accounts.clone();
    for amount in [5, 0, 10] {
        let r = Processor::process_instruction(
            &program(),
            &mut accounts,
            &payload(TokenInstruction::Burn { amount }),
        );
        assert_eq!(r, Err(ProgramError::InvalidAccountData));
        assert_eq!(accounts, before);
    }
    assert_eq!(totals(&accounts, mint), (9, 0));
    assert_eq!(totals(&accounts, other), (9, 9));
}

#[test]
fn transfer_from_a_cell_to_itself_moves_nothing() {
    let owner = key(2);
    let mint = key(10);
    let x = token_cell(key(20), owner, mint, 100);
    let mut accounts = vec![x.clone(), x.clone(), signer(owner)];
    let before = accounts.clone();
    for amount in [50, 0, 100, 101] {
        let r = Processor::process_instruction(
            &program(),
            &mut accounts,
            &payload(TokenInstruction::Transfer { amount }),
        );
        assert!(r.is_err());
        assert_eq!(accounts, before);
        assert_eq!(token_of(&accounts[0]).amount, 100);
        assert_eq!(token_of(&accounts[1]).amount, 100);
    }
    let r = Processor::process_instruction(
        &program(),
        &mut accounts,
        &payload(TokenInstruction::Transfer { amount: 50 }),
    );
    assert_eq!(r, Err(ProgramError::InvalidArgument));
    // The signer is still checked first.
    accounts[2] = signer(key(3));
    let r = Processor::process_instruction(
        &program(),
        &mut accounts,
        &payload(TokenInstruction::Transfer { amount: 50 }),
    );
    assert_eq!(r, Err(ProgramError::MissingRequiredSignature));
}

#[test]
fn a_cell_may_be_handed_over_under_two_handles() {
    let authority = key(1);
    let mint = key(10);
    // A spare cell twice behind the cells that the instruction works on.
    let mut accounts = vec![
        token_cell(key(20), key(2), mint, 1),
        mint_cell(mint, authority, 1),
        signer(authority),
        signer(authority),
        Account::new(key(20), false, vec![]),
    ];
    let r = Processor::process_instruction(
        &program(),
        &mut accounts,
        &payload(TokenInstruction::Mint { amount: 4 }),
    );
    assert_eq!(r, Ok(()));
    assert_eq!(token_of(&accounts[0]).amount, 5);
    assert_eq!(mint_of(&accounts[1]).supply, 5);

    // An owner that signs with the key of its own token account.
    let own = key(20);
    let source = token_cell(own, own, mint, 9);
    let mut accounts = vec![
        source.clone(),
        token_cell(key(21), key(3), mint, 0),
        Account::new(own, true, source.data.clone()),
    ];
    let r = Processor::process_instruction(
        &program(),
        &mut accounts,
        &payload(TokenInstruction::Transfer { amount: 4 }),
    );
    assert_eq!(r, Ok(()));
    assert_eq!(token_of(&accounts[0]).amount, 5);
    assert_eq!(token_of(&accounts[1]).amount, 4);
    // The second handle of the source was given for its key and is not written.
    assert_eq!(accounts[2].data, source.data);
    let mut accounts = vec![accounts[0].clone(), mint_cell(mint, authority, 9), signer(own)];
    accounts[2].data = accounts[0].data.clone();
    let r = Processor::process_instruction(
        &program(),
        &mut accounts,
        &payload(TokenInstruction::Burn { amount: 5 }),
    );
    assert_eq!(r, Ok(()));
    assert_eq!(token_of(&accounts[0]).amount, 0);
    assert_eq!(mint_of(&accounts[1]).supply, 4);

    // A mint that is to be its own authority.
    let mut accounts = vec![
        Account::new(mint, false, vec![0u8; MINT_LEN]),
        Account::new(mint, true, vec![0u8; MINT_LEN]),
    ];
    let r = Processor::process_instruction(
        &program(),
        &mut accounts,
        &payload(TokenInstruction::InitializeMint),
    );
    assert_eq!(r, Ok(()));
    assert_eq!(mint_of(&accounts[0]), Mint { tag: AccountTag::Mint, authority: mint, supply: 0 });

    // A token account whose owner is the mint's cell.
    let mut accounts = vec![
        Account::new(key(22), false, vec![0u8; TOKEN_ACCOUNT_LEN]),
        mint_cell(mint, mint, 0),
        Account::new(mint, false, vec![]),
    ];
    let r = Processor::process_instruction(
        &program(),
        &mut accounts,
        &payload(TokenInstruction::InitializeTokenAccount),
    );
    assert_eq!(r, Ok(()));
    assert_eq!(
        token_of(&accounts[0]),
        TokenAccount { tag: AccountTag::TokenAccount, owner: mint, mint, amount: 0 }
    );
}

#[test]
fn initialize_token_account_twice_fails() {
    let mint = key(10);
    let mut accounts = vec![
        token_cell(key(20), key(2), mint, 7),
        mint_cell(mint, key(1), 7),
        Account::new(key(3), false, vec![]),
    ];
    let before = accounts.clone();
    let r = Processor::process_instruction(
        &program(),
        &mut accounts,
        &payload(TokenInstruction::InitializeTokenAccount),
    );
    assert_eq!(r, Err(ProgramError::InvalidAccountData));
    assert_eq!(accounts, before);
    assert_eq!(totals(&accounts, mint), (7, 7));
    // Also where the account is empty.
    accounts[0] = token_cell(key(20), key(2), mint, 0);
    let before = accounts.clone();
    let r = Processor::process_instruction(
        &program(),
        &mut accounts,
        &payload(TokenInstruction::InitializeTokenAccount),
    );
    assert_eq!(r, Err(ProgramError::InvalidAccountData));
    assert_eq!(accounts, before);
}

#[test]
fn token_rejects_unknown_payloads() {
    let mut accounts = vec![mint_cell(key(10), key(1), 0), signer(key(1)), signer(key(1))];
    let before = accounts.clone();
    let payloads: Vec<Vec<u8>> = vec![
        vec![],
        vec![5],
        vec![255],
        vec![0, 0],
        vec![1, 0],
        vec![2],
        vec![2, 1, 0, 0, 0, 0, 0, 0],
        vec![2, 1, 0, 0, 0, 0, 0, 0, 0, 0],
        vec![4, 1, 0, 0],
    ];
    for data in payloads {
        assert_eq!(
            Processor::process_instruction(&program(), &mut accounts, &data),
            Err(ProgramError::InvalidInstructionData)
        );
        assert_eq!(accounts, before);
    }
}

#[test]
fn load_checks_the_tag_and_load_unchecked_does_not() {
    let as_mint = mint_cell(key(10), key(1), 3);
    let blank_mint = Account::new(key(10), false, vec![0u8; MINT_LEN]);
    let mut wrong = blank_mint.clone();
    wrong.data[0] = 2;
    assert_eq!(Mint::load(&as_mint).unwrap().supply, 3);
    assert_eq!(Mint::load(&blank_mint), Err(ProgramError::InvalidAccountData));
    assert_eq!(Mint::load(&wrong), Err(ProgramError::InvalidAccountData));
    assert_eq!(
        Mint::load_unchecked(&blank_mint),
        Ok(Mint { tag: AccountTag::Uninitialized, authority: Key::default(), supply: 0 })
    );
    assert_eq!(Mint::load_unchecked(&wrong).unwrap().tag, AccountTag::TokenAccount);
    let as_token = token_cell(key(20), key(2), key(10), 8);
    assert_eq!(Mint::load(&as_token), Err(ProgramError::BorshIoError));
    assert_eq!(Mint::load_unchecked(&as_token), Err(ProgramError::BorshIoError));
    assert_eq!(TokenAccount::load(&as_token).unwrap().amount, 8);
    assert_eq!(TokenAccount::load(&as_mint), Err(ProgramError::BorshIoError));
    let blank_token = Account::new(key(20), false, vec![0u8; TOKEN_ACCOUNT_LEN]);
    assert_eq!(TokenAccount::load(&blank_token), Err(ProgramError::InvalidAccountData));
    assert_eq!(TokenAccount::load_unchecked(&blank_token).unwrap().tag, AccountTag::Uninitialized);
    let mut bad = blank_token.clone();
    bad.data[0] = 3;
    assert_eq!(TokenAccount::load_unchecked(&bad), Err(ProgramError::BorshIoError));
}

#[test]
fn save_overwrites_the_record_and_nothing_else() {
    let record = Mint { tag: AccountTag::Mint, authority: key(7), supply: 0x0807060504030201 };
    let mut roomy = Account::new(key(10), true, vec![0xeeu8; MINT_LEN + 3]);
    assert_eq!(record.save(&mut roomy), Ok(()));
    assert_eq!(roomy.data.len(), MINT_LEN + 3);
    assert_eq!(roomy.data[0], 1);
    assert_eq!(&roomy.data[1..33], &[7u8; 32]);
    assert_eq!(&roomy.data[33..41], &[1, 2, 3, 4, 5, 6, 7, 8]);
    assert_eq!(&roomy.data[41..], &[0xee, 0xee, 0xee]);
    assert_eq!(roomy.key, key(10));
    assert!(roomy.is_signer);

    let mut short = Account::new(key(10), false, vec![0xeeu8; MINT_LEN - 1]);
    assert_eq!(record.save(&mut short), Err(ProgramError::BorshIoError));
    assert_eq!(short.data, vec![0xeeu8; MINT_LEN - 1]);

    let account =
        TokenAccount { tag: AccountTag::TokenAccount, owner: key(1), mint: key(2), amount: 3 };
    let mut cell = Account::new(key(20), false, vec![0u8; TOKEN_ACCOUNT_LEN]);
    assert_eq!(account.save(&mut cell), Ok(()));
    assert_eq!(TokenAccount::load(&cell), Ok(account));
    let mut short = Account::new(key(20), false, vec![0u8; 10]);
    assert_eq!(account.save(&mut short), Err(ProgramError::BorshIoError));
    assert_eq!(short.data, vec![0u8; 10]);
}

#[test]
fn account_tag_bytes() {
    assert_eq!(AccountTag::Uninitialized.to_byte(), 0);
    assert_eq!(AccountTag::Mint.to_byte(), 1);
    assert_eq!(AccountTag::TokenAccount.to_byte(), 2);
    assert_eq!(AccountTag::from_byte(0), Some(AccountTag::Uninitialized));
    assert_eq!(AccountTag::from_byte(1), Some(AccountTag::Mint));
    assert_eq!(AccountTag::from_byte(2), Some(AccountTag::TokenAccount));
    assert_eq!(AccountTag::from_byte(3), None);
    assert_eq!(AccountTag::from_byte(255), None);
}

#[test]
fn token_error_is_a_custom_error() {
    assert_eq!(ProgramError::from(TokenError::NotImplemented), ProgramError::Custom(0));
    assert_eq!(TokenError::NotImplemented.message(), "Instruction not implemented.");
}

#[test]
fn token_names_the_failed_check() {
    let authority = key(1);
    let owner = key(2);
    let mint = key(10);
    let run = |mut accounts: Vec<Account>, instruction: TokenInstruction| {
        let mut plain = accounts.clone();
        let data = payload(instruction);
        let mut log = Vec::new();
        let r = Processor::process_instruction_logged(&program(), &mut accounts, &data, &mut log);
        assert_eq!(Processor::process_instruction(&program(), &mut plain, &data), r);
        assert_eq!(plain, accounts);
        assert!(log.len() <= 1);
        (r, log.first().copied())
    };
    let unsigned = |k: Key| Account::new(k, false, vec![]);
    let account = |amount: u64| token_cell(key(20), owner, mint, amount);
    let other = || token_cell(key(21), key(3), mint, 0);

    // InitializeMint
    assert_eq!(
        run(vec![Account::new(mint, false, vec![0u8; MINT_LEN]), unsigned(authority)],
            TokenInstruction::InitializeMint),
        (Err(ProgramError::MissingRequiredSignature), Some("Mint Authority must sign"))
    );
    assert_eq!(
        run(vec![mint_cell(mint, authority, 1), signer(authority)], TokenInstruction::InitializeMint),
        (Err(ProgramError::InvalidAccountData), Some("Mint is already initialized"))
    );
    assert_eq!(
        run(vec![Account::new(mint, false, vec![]), signer(authority)],
            TokenInstruction::InitializeMint),
        (Err(ProgramError::BorshIoError), None)
    );
    // InitializeTokenAccount
    assert_eq!(
        run(vec![account(0), mint_cell(mint, authority, 0), unsigned(owner)],
            TokenInstruction::InitializeTokenAccount),
        (Err(ProgramError::InvalidAccountData), Some("Token account is already initialized"))
    );
    assert_eq!(
        run(vec![account(0), Account::new(mint, false, vec![0u8; MINT_LEN]), unsigned(owner)],
            TokenInstruction::InitializeTokenAccount),
        (Err(ProgramError::InvalidAccountData), None)
    );
    // Mint
    let mint_of_cells = |third: Account, token: Account, mint_cell: Account| {
        run(vec![token, mint_cell, third], TokenInstruction::Mint { amount: 1 })
    };
    assert_eq!(
        mint_of_cells(unsigned(authority), account(0), mint_cell(mint, authority, 0)),
        (Err(ProgramError::MissingRequiredSignature), Some("Mint Authority must sign"))
    );
    assert_eq!(
        mint_of_cells(signer(key(9)), account(0), mint_cell(mint, authority, 0)),
        (Err(ProgramError::MissingRequiredSignature), Some("Mint Authority mismatch"))
    );
    assert_eq!(
        mint_of_cells(signer(authority), account(0), mint_cell(key(11), authority, 0)),
        (Err(ProgramError::InvalidAccountData), Some("Token account is of another mint"))
    );
    assert_eq!(
        mint_of_cells(
            signer(authority),
            Account::new(key(20), false, vec![0u8; TOKEN_ACCOUNT_LEN]),
            mint_cell(mint, authority, 0)
        ),
        (Err(ProgramError::InvalidAccountData), None)
    );
    assert_eq!(
        mint_of_cells(signer(authority), account(u64::MAX), mint_cell(mint, authority, 0)),
        (Err(ProgramError::ArithmeticOverflow), None)
    );
    assert_eq!(
        mint_of_cells(signer(authority), account(0), mint_cell(mint, authority, 0)),
        (Ok(()), None)
    );
    // Burn
    let burn = |third: Account, token: Account, mint_cell: Account| {
        run(vec![token, mint_cell, third], TokenInstruction::Burn { amount: 5 })
    };
    assert_eq!(
        burn(unsigned(owner), account(5), mint_cell(mint, authority, 5)),
        (Err(ProgramError::MissingRequiredSignature), Some("Token owner must sign"))
    );
    assert_eq!(
        burn(signer(key(9)), account(5), mint_cell(mint, authority, 5)),
        (Err(ProgramError::MissingRequiredSignature), Some("Token owner mismatch"))
    );
    assert_eq!(
        burn(signer(owner), account(5), mint_cell(key(11), authority, 5)),
        (Err(ProgramError::InvalidAccountData), Some("Token account is of another mint"))
    );
    assert_eq!(
        burn(signer(owner), account(4), mint_cell(mint, authority, 5)),
        (
            Err(ProgramError::InvalidAccountData),
            Some("Attempting to burn more than account balance")
        )
    );
    assert_eq!(
        burn(signer(owner), account(5), mint_cell(mint, authority, 4)),
        (Err(ProgramError::ArithmeticOverflow), None)
    );
    // Transfer
    let transfer = |third: Account, src: Account, dst: Account| {
        run(vec![src, dst, third], TokenInstruction::Transfer { amount: 5 })
    };
    assert_eq!(
        transfer(unsigned(owner), account(5), other()),
        (Err(ProgramError::MissingRequiredSignature), Some("Token owner must sign"))
    );
    assert_eq!(
        transfer(signer(key(9)), account(5), other()),
        (Err(ProgramError::MissingRequiredSignature), Some("Token owner mismatch"))
    );
    assert_eq!(
        transfer(signer(owner), account(4), other()),
        (
            Err(ProgramError::InvalidAccountData),
            Some("Attempting to transfer more than account balance")
        )
    );
    assert_eq!(
        transfer(signer(owner), account(5), token_cell(key(21), key(3), key(11), 0)),
        (Err(ProgramError::InvalidAccountData), Some("Token account mints do not match"))
    );
    assert_eq!(
        transfer(signer(owner), account(5), account(5)),
        (
            Err(ProgramError::InvalidArgument),
            Some("Source and destination are one token account")
        )
    );
    assert_eq!(
        transfer(signer(owner), account(5), mint_cell(mint, authority, 0)),
        (Err(ProgramError::BorshIoError), None)
    );
    assert_eq!(transfer(signer(owner), account(5), other()), (Ok(()), None));
}
