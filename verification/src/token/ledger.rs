//! What the token program keeps true of a ledger: the supply of a mint is the
//! sum of the balances held in it.
//!
//! A ledger is a sequence of storage cells. The supply of the mint at an
//! address is read from the cell at that address, if it holds a mint. What
//! is held in that mint is the sum of the amounts of the cells that hold a
//! token account of that mint.

use vstd::prelude::*;
use crate::account::Cell;
use crate::error::ProgramError;
use crate::key::Key;
use crate::record::{lemma_saved_over_record, saved, written, Record};
use crate::token::instruction::TokenInstruction;
use crate::token::processor::Processor;
use crate::token::state::{AccountTag, Mint, TokenAccount};

verus! {

/// What the cell adds to the supply of the mint at `mint`: its supply, if
/// the cell is at that address and holds a mint.
pub open spec fn cell_supply(cell: Cell, mint: Key) -> int {
    match Mint::loaded(cell.data) {
        Ok(record) => if cell.key == mint {
            record.supply as int
        } else {
            0
        },
        Err(_) => 0,
    }
}

/// What the cell holds of the mint at `mint`: its amount, if it holds a
/// token account of that mint.
pub open spec fn cell_held(cell: Cell, mint: Key) -> int {
    match TokenAccount::loaded(cell.data) {
        Ok(record) => if record.mint == mint {
            record.amount as int
        } else {
            0
        },
        Err(_) => 0,
    }
}

/// The supply of the mint at `mint`, over all the cells of the ledger.
pub open spec fn supply(ledger: Seq<Cell>, mint: Key) -> int
    decreases ledger.len(),
{
    if ledger.len() == 0 {
        0
    } else {
        supply(ledger.drop_last(), mint) + cell_supply(ledger.last(), mint)
    }
}

/// The sum of the balances held in the mint at `mint`, over all the cells of
/// the ledger.
pub open spec fn held(ledger: Seq<Cell>, mint: Key) -> int
    decreases ledger.len(),
{
    if ledger.len() == 0 {
        0
    } else {
        held(ledger.drop_last(), mint) + cell_held(ledger.last(), mint)
    }
}

/// The supply of the mint is the sum of the balances held in it.
pub open spec fn conserved(ledger: Seq<Cell>, mint: Key) -> bool {
    supply(ledger, mint) == held(ledger, mint)
}

/// Replacing one cell changes the supply by what the new cell adds beyond
/// the old one.
pub proof fn lemma_supply_update(ledger: Seq<Cell>, at: int, cell: Cell, mint: Key)
    requires
        0 <= at < ledger.len(),
    ensures
        supply(ledger.update(at, cell), mint) == supply(ledger, mint) - cell_supply(
            ledger[at],
            mint,
        ) + cell_supply(cell, mint),
    decreases ledger.len(),
{
    let updated = ledger.update(at, cell);
    if at == ledger.len() - 1 {
        assert(updated.drop_last() =~= ledger.drop_last());
    } else {
        lemma_supply_update(ledger.drop_last(), at, cell, mint);
        assert(updated.drop_last() =~= ledger.drop_last().update(at, cell));
    }
}

/// Replacing one cell changes what is held by what the new cell holds beyond
/// the old one.
pub proof fn lemma_held_update(ledger: Seq<Cell>, at: int, cell: Cell, mint: Key)
    requires
        0 <= at < ledger.len(),
    ensures
        held(ledger.update(at, cell), mint) == held(ledger, mint) - cell_held(ledger[at], mint)
            + cell_held(cell, mint),
    decreases ledger.len(),
{
    let updated = ledger.update(at, cell);
    if at == ledger.len() - 1 {
        assert(updated.drop_last() =~= ledger.drop_last());
    } else {
        lemma_held_update(ledger.drop_last(), at, cell, mint);
        assert(updated.drop_last() =~= ledger.drop_last().update(at, cell));
    }
}

/// Writing a mint over a cell that held a mint record changes the supply by
/// the difference of what the two add, and nothing of what is held.
proof fn lemma_write_mint(ledger: Seq<Cell>, at: int, record: Mint, mint: Key)
    requires
        0 <= at < ledger.len(),
        Mint::parse(ledger[at].data) is Some,
    ensures
        ({
            let after = written(ledger, at, record);
            &&& Mint::parse(after[at].data) == Some(record)
            &&& after[at].key == ledger[at].key
            &&& after[at].is_signer == ledger[at].is_signer
            &&& supply(after, mint) == supply(ledger, mint) - cell_supply(ledger[at], mint)
                + cell_supply(after[at], mint)
            &&& held(after, mint) == held(ledger, mint)
        }),
{
    let stored = Mint::parse(ledger[at].data)->0;
    let cell = ledger[at].with_data(saved(record, ledger[at].data));
    record.lemma_round_trip();
    stored.lemma_round_trip();
    Mint::lemma_canonical(ledger[at].data);
    lemma_saved_over_record(record, stored, ledger[at].data);
    lemma_supply_update(ledger, at, cell, mint);
    lemma_held_update(ledger, at, cell, mint);
}

/// Writing a token account over a cell that held a token account record
/// changes what is held by the difference of what the two hold, and nothing
/// of the supply.
proof fn lemma_write_account(ledger: Seq<Cell>, at: int, record: TokenAccount, mint: Key)
    requires
        0 <= at < ledger.len(),
        TokenAccount::parse(ledger[at].data) is Some,
    ensures
        ({
            let after = written(ledger, at, record);
            &&& TokenAccount::parse(after[at].data) == Some(record)
            &&& after[at].key == ledger[at].key
            &&& after[at].is_signer == ledger[at].is_signer
            &&& held(after, mint) == held(ledger, mint) - cell_held(ledger[at], mint) + cell_held(
                after[at],
                mint,
            )
            &&& supply(after, mint) == supply(ledger, mint)
        }),
{
    let stored = TokenAccount::parse(ledger[at].data)->0;
    let cell = ledger[at].with_data(saved(record, ledger[at].data));
    record.lemma_round_trip();
    stored.lemma_round_trip();
    TokenAccount::lemma_canonical(ledger[at].data);
    lemma_saved_over_record(record, stored, ledger[at].data);
    lemma_supply_update(ledger, at, cell, mint);
    lemma_held_update(ledger, at, cell, mint);
}

/// How an invocation that succeeds changes the supply of a mint and what is
/// held in it: by the same amount.
///
/// Mint raises both by the amount, and Burn lowers both by the amount, for
/// the mint in the mint cell, which is the mint of the token account. The
/// other instructions change neither, and no instruction changes anything
/// of another mint.
pub proof fn law_deltas(accounts: Seq<Cell>, instruction_data: Seq<u8>, mint: Key)
    requires
        Processor::outcome(accounts, instruction_data) is Ok,
    ensures
        ({
            let after = Processor::outcome(accounts, instruction_data)->Ok_0;
            let delta: int = match TokenInstruction::decode(instruction_data)->0 {
                TokenInstruction::Mint { amount } => if mint == accounts[1].key {
                    amount as int
                } else {
                    0
                },
                TokenInstruction::Burn { amount } => if mint == accounts[1].key {
                    -(amount as int)
                } else {
                    0
                },
                _ => 0,
            };
            &&& supply(after, mint) == supply(accounts, mint) + delta
            &&& held(after, mint) == held(accounts, mint) + delta
        }),
{
    let after = Processor::outcome(accounts, instruction_data)->Ok_0;
    match TokenInstruction::decode(instruction_data)->0 {
        TokenInstruction::InitializeMint => {
            let stored = Mint::parse(accounts[0].data)->0;
            let record = Processor::mint_initialized(stored, accounts[1])->Ok_0;
            lemma_write_mint(accounts, 0, record, mint);
        },
        TokenInstruction::InitializeTokenAccount => {
            let stored = TokenAccount::parse(accounts[0].data)->0;
            let record = Processor::account_initialized(
                stored,
                accounts[2].key,
                accounts[1].key,
            )->Ok_0;
            lemma_write_account(accounts, 0, record, mint);
        },
        TokenInstruction::Mint { amount } => {
            let account = TokenAccount::loaded(accounts[0].data)->Ok_0;
            let record = Mint::loaded(accounts[1].data)->Ok_0;
            let next = Processor::minted(
                record,
                accounts[1].key,
                account,
                accounts[2],
                amount,
            )->Ok_0;
            lemma_write_account(accounts, 0, next.1, mint);
            lemma_write_mint(written(accounts, 0, next.1), 1, next.0, mint);
        },
        TokenInstruction::Burn { amount } => {
            let account = TokenAccount::loaded(accounts[0].data)->Ok_0;
            let record = Mint::loaded(accounts[1].data)->Ok_0;
            let next = Processor::burned(
                record,
                accounts[1].key,
                account,
                accounts[2],
                amount,
            )->Ok_0;
            lemma_write_account(accounts, 0, next.1, mint);
            lemma_write_mint(written(accounts, 0, next.1), 1, next.0, mint);
        },
        TokenInstruction::Transfer { amount } => {
            let src = TokenAccount::loaded(accounts[0].data)->Ok_0;
            let dst = TokenAccount::loaded(accounts[1].data)->Ok_0;
            let next = Processor::transferred(
                src,
                dst,
                accounts[0].key == accounts[1].key,
                accounts[2],
                amount,
            )->Ok_0;
            lemma_write_account(accounts, 0, next.0, mint);
            lemma_write_account(written(accounts, 0, next.0), 1, next.1, mint);
        },
    }
}

/// Conservation is kept by every invocation: one that succeeds changes the
/// supply of a mint and what is held in it by the same amount, and one that
/// fails writes nothing.
pub proof fn law_conservation(accounts: Seq<Cell>, instruction_data: Seq<u8>, mint: Key)
    requires
        conserved(accounts, mint),
    ensures
        match Processor::outcome(accounts, instruction_data) {
            Ok(after) => conserved(after, mint),
            Err(_) => true,
        },
{
    if Processor::outcome(accounts, instruction_data) is Ok {
        law_deltas(accounts, instruction_data, mint);
    }
}

/// Tokens do not move from a cell to itself: a Transfer whose source and
/// destination are at one address fails, whatever the amount, and so no
/// balance is read from a cell and written to it under another handle.
pub proof fn law_transfer_needs_two_cells(accounts: Seq<Cell>, amount: u64)
    requires
        accounts.len() >= 2,
        accounts[0].key == accounts[1].key,
    ensures
        Processor::transfer_outcome(accounts, amount) is Err,
        Processor::outcome(accounts, (TokenInstruction::Transfer { amount }).encode()) is Err,
{
    TokenInstruction::law_round_trip(TokenInstruction::Transfer { amount });
}

/// A ledger in which no cell holds a record of the token program conserves
/// every mint: supply and holdings are both zero.
pub proof fn law_empty_ledger_conserved(ledger: Seq<Cell>, mint: Key)
    requires
        forall|i: int|
            0 <= i < ledger.len() ==> Mint::loaded((#[trigger] ledger[i]).data) is Err
                && TokenAccount::loaded(ledger[i].data) is Err,
    ensures
        supply(ledger, mint) == 0,
        held(ledger, mint) == 0,
        conserved(ledger, mint),
    decreases ledger.len(),
{
    if ledger.len() > 0 {
        assert(Mint::loaded(ledger[ledger.len() - 1].data) is Err);
        law_empty_ledger_conserved(ledger.drop_last(), mint);
    }
}

/// Mint raises the balance of the token account and the supply of the mint
/// by exactly the amount.
pub proof fn law_mint_exact(
    mint: Mint,
    mint_address: Key,
    account: TokenAccount,
    authority: Cell,
    amount: u64,
)
    requires
        Processor::minted(mint, mint_address, account, authority, amount) is Ok,
    ensures
        ({
            let after = Processor::minted(mint, mint_address, account, authority, amount)->Ok_0;
            &&& account.mint == mint_address
            &&& after.0.supply == mint.supply + amount
            &&& after.1.amount == account.amount + amount
            &&& after.0 == (Mint { supply: after.0.supply, ..mint })
            &&& after.1 == (TokenAccount { amount: after.1.amount, ..account })
        }),
{
}

/// Burn lowers the balance of the token account and the supply of the mint
/// by exactly the amount.
pub proof fn law_burn_exact(
    mint: Mint,
    mint_address: Key,
    account: TokenAccount,
    owner: Cell,
    amount: u64,
)
    requires
        Processor::burned(mint, mint_address, account, owner, amount) is Ok,
    ensures
        ({
            let after = Processor::burned(mint, mint_address, account, owner, amount)->Ok_0;
            &&& account.mint == mint_address
            &&& after.0.supply == mint.supply - amount
            &&& after.1.amount == account.amount - amount
            &&& after.0 == (Mint { supply: after.0.supply, ..mint })
            &&& after.1 == (TokenAccount { amount: after.1.amount, ..account })
        }),
{
}

/// Transfer keeps the sum of the two balances: what leaves the source
/// arrives at the destination.
pub proof fn law_transfer_preserves_sum(
    src: TokenAccount,
    dst: TokenAccount,
    one_cell: bool,
    owner: Cell,
    amount: u64,
)
    requires
        Processor::transferred(src, dst, one_cell, owner, amount) is Ok,
    ensures
        ({
            let after = Processor::transferred(src, dst, one_cell, owner, amount)->Ok_0;
            &&& !one_cell
            &&& after.0.amount + after.1.amount == src.amount + dst.amount
            &&& after.0.amount == src.amount - amount
            &&& after.1.amount == dst.amount + amount
            &&& after.0 == (TokenAccount { amount: after.0.amount, ..src })
            &&& after.1 == (TokenAccount { amount: after.1.amount, ..dst })
        }),
{
}

/// A transfer that succeeds leaves every supply as it was, and moves the
/// amount between the records of the two cells.
pub proof fn law_transfer_keeps_supply(accounts: Seq<Cell>, amount: u64, mint: Key)
    requires
        Processor::transfer_outcome(accounts, amount) is Ok,
    ensures
        ({
            let after = Processor::transfer_outcome(accounts, amount)->Ok_0;
            let src = TokenAccount::loaded(accounts[0].data)->Ok_0;
            let dst = TokenAccount::loaded(accounts[1].data)->Ok_0;
            &&& supply(after, mint) == supply(accounts, mint)
            &&& held(after, mint) == held(accounts, mint)
            &&& TokenAccount::loaded(after[0].data) == Ok::<TokenAccount, ProgramError>(
                TokenAccount { amount: (src.amount - amount) as u64, ..src },
            )
            &&& TokenAccount::loaded(after[1].data) == Ok::<TokenAccount, ProgramError>(
                TokenAccount { amount: (dst.amount + amount) as u64, ..dst },
            )
        }),
{
    let src = TokenAccount::loaded(accounts[0].data)->Ok_0;
    let dst = TokenAccount::loaded(accounts[1].data)->Ok_0;
    let next = Processor::transferred(
        src,
        dst,
        accounts[0].key == accounts[1].key,
        accounts[2],
        amount,
    )->Ok_0;
    lemma_write_account(accounts, 0, next.0, mint);
    lemma_write_account(written(accounts, 0, next.0), 1, next.1, mint);
}

/// One invocation of the token program on a ledger: the cells that it is
/// given, each by its place in the ledger, whether the key of each signed,
/// and the payload.
pub struct Call {
    pub handles: Seq<int>,
    pub signed: Seq<bool>,
    pub data: Seq<u8>,
}

impl Call {
    /// The call names cells of the ledger. It may name one of them twice, as
    /// where an owner signs with the key of its own token account.
    pub open spec fn fits(self, ledger: Seq<Cell>) -> bool {
        &&& self.signed.len() == self.handles.len()
        &&& forall|i: int|
            0 <= i < self.handles.len() ==> 0 <= #[trigger] self.handles[i] < ledger.len()
    }

    /// The cells that the program is given.
    pub open spec fn handed(self, ledger: Seq<Cell>) -> Seq<Cell> {
        Seq::new(
            self.handles.len(),
            |i: int| ledger[self.handles[i]].with_signer(self.signed[i]),
        )
    }
}

/// The program changed the bytes of the cell that it was given in place
/// `i`.
pub open spec fn changed(before: Seq<Cell>, after: Seq<Cell>, i: int) -> bool {
    after[i].data != before[i].data
}

/// The ledger after the bytes of those of the first `n` cells that the
/// program changed were put back in their places. A cell that the program
/// was given and left as it was is not written: it may be a second handle
/// of a cell that changed.
pub open spec fn put_back(
    ledger: Seq<Cell>,
    handles: Seq<int>,
    before: Seq<Cell>,
    after: Seq<Cell>,
    n: nat,
) -> Seq<Cell>
    decreases n,
{
    if n == 0 {
        ledger
    } else {
        let earlier = put_back(ledger, handles, before, after, (n - 1) as nat);
        if changed(before, after, n - 1) {
            earlier.update(handles[n - 1], earlier[handles[n - 1]].with_data(after[n - 1].data))
        } else {
            earlier
        }
    }
}

/// The ledger after a call: with the cells that the program changed put
/// back if it succeeded, and as it was if the program failed.
pub open spec fn applied(ledger: Seq<Cell>, call: Call) -> Seq<Cell> {
    match Processor::outcome(call.handed(ledger), call.data) {
        Ok(after) => put_back(
            ledger,
            call.handles,
            call.handed(ledger),
            after,
            call.handles.len(),
        ),
        Err(_) => ledger,
    }
}

/// The ledger after a run of calls.
pub open spec fn run(ledger: Seq<Cell>, calls: Seq<Call>) -> Seq<Cell>
    decreases calls.len(),
{
    if calls.len() == 0 {
        ledger
    } else {
        applied(run(ledger, calls.drop_last()), calls.last())
    }
}

/// Every call of the run names cells of the ledger.
pub open spec fn fitting_run(ledger: Seq<Cell>, calls: Seq<Call>) -> bool {
    forall|k: int| 0 <= k < calls.len() ==> (#[trigger] calls[k]).fits(ledger)
}

/// An invocation that succeeds changes bytes only, and only of its first
/// two cells: the cells are as many as before, each at its address, signed
/// as before. Where it changes both of the first two, these are two cells
/// of the ledger: they are at two addresses, or hold different bytes.
pub proof fn lemma_outcome_shape(accounts: Seq<Cell>, instruction_data: Seq<u8>)
    requires
        Processor::outcome(accounts, instruction_data) is Ok,
    ensures
        ({
            let after = Processor::outcome(accounts, instruction_data)->Ok_0;
            &&& after.len() == accounts.len()
            &&& forall|i: int|
                0 <= i < accounts.len() ==> (#[trigger] after[i]).key == accounts[i].key
                    && after[i].is_signer == accounts[i].is_signer
            &&& forall|i: int| 2 <= i < accounts.len() ==> #[trigger] after[i] == accounts[i]
            &&& accounts.len() >= 2 && changed(accounts, after, 0) && changed(accounts, after, 1)
                ==> accounts[0].key != accounts[1].key || accounts[0].data != accounts[1].data
        }),
{
}

/// The sums over the first `n` cells of a sequence.
proof fn lemma_take_full(cells: Seq<Cell>, mint: Key)
    ensures
        supply(cells.take(cells.len() as int), mint) == supply(cells, mint),
        held(cells.take(cells.len() as int), mint) == held(cells, mint),
{
    assert(cells.take(cells.len() as int) =~= cells);
}

/// Putting the changed cells back changes the sums over the ledger as the
/// program changed the sums over the cells that it was given.
proof fn lemma_put_back(
    ledger: Seq<Cell>,
    call: Call,
    after: Seq<Cell>,
    n: nat,
    mint: Key,
)
    requires
        call.fits(ledger),
        n <= call.handles.len(),
        after.len() == call.handles.len(),
        forall|i: int|
            0 <= i < after.len() ==> (#[trigger] after[i]).key == ledger[call.handles[i]].key,
        forall|i: int, j: int|
            0 <= i < j < after.len() && #[trigger] changed(call.handed(ledger), after, i)
                && #[trigger] changed(call.handed(ledger), after, j) ==> call.handles[i]
                != call.handles[j],
    ensures
        ({
            let handed = call.handed(ledger);
            let done = put_back(ledger, call.handles, handed, after, n);
            &&& done.len() == ledger.len()
            &&& forall|i: int|
                n <= i < call.handles.len() && #[trigger] changed(handed, after, i)
                    ==> done[call.handles[i]] == ledger[call.handles[i]]
            &&& supply(done, mint) - supply(ledger, mint) == supply(after.take(n as int), mint)
                - supply(handed.take(n as int), mint)
            &&& held(done, mint) - held(ledger, mint) == held(after.take(n as int), mint)
                - held(handed.take(n as int), mint)
        }),
    decreases n,
{
    let handed = call.handed(ledger);
    if n == 0 {
        assert(after.take(0) =~= Seq::<Cell>::empty());
        assert(handed.take(0) =~= Seq::<Cell>::empty());
    } else {
        let m = (n - 1) as nat;
        lemma_put_back(ledger, call, after, m, mint);
        let earlier = put_back(ledger, call.handles, handed, after, m);
        let done = put_back(ledger, call.handles, handed, after, n);
        let at = call.handles[n - 1];
        assert(after.take(n as int).drop_last() =~= after.take(m as int));
        assert(handed.take(n as int).drop_last() =~= handed.take(m as int));
        assert(after.take(n as int).last() == after[n - 1]);
        assert(handed.take(n as int).last() == handed[n - 1]);
        assert(after[n - 1].key == handed[n - 1].key);
        if changed(handed, after, n - 1) {
            let cell = earlier[at].with_data(after[n - 1].data);
            assert(earlier[at] == ledger[at]);
            lemma_supply_update(earlier, at, cell, mint);
            lemma_held_update(earlier, at, cell, mint);
            assert(cell_supply(cell, mint) == cell_supply(after[n - 1], mint));
            assert(cell_held(cell, mint) == cell_held(after[n - 1], mint));
            assert(cell_supply(ledger[at], mint) == cell_supply(handed[n - 1], mint));
            assert(cell_held(ledger[at], mint) == cell_held(handed[n - 1], mint));
            assert forall|i: int|
                n <= i < call.handles.len() && #[trigger] changed(handed, after, i) implies done[call.handles[i]]
                == ledger[call.handles[i]] by {
                assert(call.handles[n - 1] != call.handles[i]);
            }
        } else {
            assert(done == earlier);
            assert(cell_supply(after[n - 1], mint) == cell_supply(handed[n - 1], mint));
            assert(cell_held(after[n - 1], mint) == cell_held(handed[n - 1], mint));
        }
    }
}

/// A call changes the supply of a mint in the ledger, and what is held in
/// it, by what the program changed them over the cells it was given: also
/// where it was given a cell of the ledger under two handles.
pub proof fn law_applied_deltas(ledger: Seq<Cell>, call: Call, mint: Key)
    requires
        call.fits(ledger),
    ensures
        applied(ledger, call).len() == ledger.len(),
        match Processor::outcome(call.handed(ledger), call.data) {
            Ok(after) => {
                &&& supply(applied(ledger, call), mint) - supply(ledger, mint) == supply(
                    after,
                    mint,
                ) - supply(call.handed(ledger), mint)
                &&& held(applied(ledger, call), mint) - held(ledger, mint) == held(after, mint)
                    - held(call.handed(ledger), mint)
            },
            Err(_) => applied(ledger, call) == ledger,
        },
{
    let handed = call.handed(ledger);
    if let Ok(after) = Processor::outcome(handed, call.data) {
        lemma_outcome_shape(handed, call.data);
        assert forall|i: int, j: int|
            0 <= i < j < after.len() && #[trigger] changed(handed, after, i) && #[trigger] changed(
                handed,
                after,
                j,
            ) implies call.handles[i] != call.handles[j] by {
            if j >= 2 {
                assert(after[j] == handed[j]);
            }
            if call.handles[i] == call.handles[j] {
                assert(handed[0].key == handed[1].key);
                assert(handed[0].data == handed[1].data);
            }
        }
        lemma_put_back(ledger, call, after, call.handles.len(), mint);
        lemma_take_full(after, mint);
        lemma_take_full(handed, mint);
    }
}

/// A run of calls leaves the ledger with as many cells as it had.
pub proof fn lemma_run_len(ledger: Seq<Cell>, calls: Seq<Call>, mint: Key)
    requires
        fitting_run(ledger, calls),
    ensures
        run(ledger, calls).len() == ledger.len(),
    decreases calls.len(),
{
    if calls.len() > 0 {
        let earlier = calls.drop_last();
        assert(fitting_run(ledger, earlier)) by {
            assert forall|k: int| 0 <= k < earlier.len() implies (#[trigger] earlier[k]).fits(
                ledger,
            ) by {
                assert(earlier[k] == calls[k]);
            }
        }
        lemma_run_len(ledger, earlier, mint);
        let met = run(ledger, earlier);
        assert(calls[calls.len() - 1].fits(ledger));
        assert(calls.last().fits(met));
        law_applied_deltas(met, calls.last(), mint);
    }
}

/// The supply of a mint is the sum of the balances held in it at every point
/// of every run of calls that starts from a ledger where it is: whatever the
/// calls ask for, whoever signed them, and also where a call names a cell of
/// the ledger twice.
pub proof fn law_conserved_at_every_point(ledger: Seq<Cell>, calls: Seq<Call>, mint: Key)
    requires
        conserved(ledger, mint),
        fitting_run(ledger, calls),
    ensures
        conserved(run(ledger, calls), mint),
        forall|k: int|
            0 <= k <= calls.len() ==> conserved(run(ledger, #[trigger] calls.take(k)), mint),
    decreases calls.len(),
{
    if calls.len() > 0 {
        let earlier = calls.drop_last();
        assert(fitting_run(ledger, earlier)) by {
            assert forall|k: int| 0 <= k < earlier.len() implies (#[trigger] earlier[k]).fits(
                ledger,
            ) by {
                assert(earlier[k] == calls[k]);
            }
        }
        law_conserved_at_every_point(ledger, earlier, mint);
        lemma_run_len(ledger, earlier, mint);
        let met = run(ledger, earlier);
        let call = calls.last();
        assert(calls[calls.len() - 1].fits(ledger));
        assert(call.fits(met));
        law_applied_deltas(met, call, mint);
        if Processor::outcome(call.handed(met), call.data) is Ok {
            law_deltas(call.handed(met), call.data, mint);
        }
        assert forall|k: int| 0 <= k <= calls.len() implies conserved(
            run(ledger, #[trigger] calls.take(k)),
            mint,
        ) by {
            if k == calls.len() {
                assert(calls.take(k) =~= calls);
            } else {
                assert(calls.take(k) =~= earlier.take(k));
            }
        }
    } else {
        assert forall|k: int| 0 <= k <= calls.len() implies conserved(
            run(ledger, #[trigger] calls.take(k)),
            mint,
        ) by {
            assert(calls.take(k) =~= calls);
        }
    }
}

} // verus!
