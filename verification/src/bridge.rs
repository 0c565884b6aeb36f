//! Delegated invocation: how one program calls into another with a derived
//! address of its own standing in for a signature.
//!
//! A program cannot sign. It proves instead that an address is one that it
//! derived: the proof is the seed tuple and the bump that give the address
//! under the program's own identifier. The bridge recomputes the address
//! from the proof and lets the call through only if every cell that the
//! instruction marks as a signer is at that address: a proof signs for the
//! address that it derives, and for nothing else. The host then runs the
//! target program and reports how it ended.

use vstd::prelude::*;
use crate::account::{Account, Cell};
use crate::authority::{create_program_address, created, seed_bytes, seeds_with_bump, with_bump};
use crate::error::{ProgramError, ProgramResult};
use crate::key::Key;

verus! {

/// A cell as an instruction names it: by address, with what the callee may do
/// with it.
#[derive(Clone, Copy, Debug, PartialEq, Eq)]
pub struct AccountMeta {
    pub pubkey: Key,
    pub is_signer: bool,
    pub is_writable: bool,
}

impl AccountMeta {
    /// A cell that the callee may write.
    pub fn new(pubkey: Key, is_signer: bool) -> (r: AccountMeta)
        ensures
            r == (AccountMeta { pubkey, is_signer, is_writable: true }),
    {
        AccountMeta { pubkey, is_signer, is_writable: true }
    }

    /// A cell that the callee may only read.
    pub fn new_readonly(pubkey: Key, is_signer: bool) -> (r: AccountMeta)
        ensures
            r == (AccountMeta { pubkey, is_signer, is_writable: false }),
    {
        AccountMeta { pubkey, is_signer, is_writable: false }
    }
}

/// An instruction for a program: the program, the cells it is to work on, and
/// the payload.
#[derive(Clone, Debug, PartialEq, Eq)]
pub struct Instruction {
    pub program_id: Key,
    pub accounts: Vec<AccountMeta>,
    pub data: Vec<u8>,
}

/// An instruction as a mathematical value.
pub struct InstructionView {
    pub program_id: Key,
    pub accounts: Seq<AccountMeta>,
    pub data: Seq<u8>,
}

impl View for Instruction {
    type V = InstructionView;

    open spec fn view(&self) -> InstructionView {
        InstructionView { program_id: self.program_id, accounts: self.accounts@, data: self.data@ }
    }
}

/// The proof that a program controls a derived address: the seeds and the
/// bump that derive it under the identifier of that program.
#[derive(Clone, Debug, PartialEq, Eq)]
pub struct AuthorityProof {
    pub seeds: Vec<Vec<u8>>,
    pub bump: u8,
    pub program_scope: Key,
}

impl AuthorityProof {
    /// The address that the proof is a proof for, or the reason why it proves
    /// nothing.
    pub open spec fn address(&self) -> Result<Key, ProgramError> {
        created(with_bump(seed_bytes(&self.seeds), self.bump), self.program_scope@)
    }
}

/// A call into another program that the bridge has let through, for the host
/// to run: `account_handles` names, for each cell of the instruction in turn,
/// the caller's cell that is handed on.
#[derive(Clone, Debug, PartialEq, Eq)]
pub struct Invocation {
    pub instruction: Instruction,
    pub account_handles: Vec<usize>,
    pub authority_proof: AuthorityProof,
}

/// A proof of authority as a mathematical value.
pub struct AuthorityProofView {
    pub seeds: Seq<Seq<u8>>,
    pub bump: u8,
    pub program_scope: Key,
}

impl View for AuthorityProof {
    type V = AuthorityProofView;

    open spec fn view(&self) -> AuthorityProofView {
        AuthorityProofView {
            seeds: seed_bytes(&self.seeds),
            bump: self.bump,
            program_scope: self.program_scope,
        }
    }
}

/// An invocation as a mathematical value.
pub struct InvocationView {
    pub instruction: InstructionView,
    pub account_handles: Seq<usize>,
    pub authority_proof: AuthorityProofView,
}

impl View for Invocation {
    type V = InvocationView;

    open spec fn view(&self) -> InvocationView {
        InvocationView {
            instruction: self.instruction@,
            account_handles: self.account_handles@,
            authority_proof: self.authority_proof@,
        }
    }
}

/// A request to the host for a new storage cell of `space` bytes, all zero,
/// at the address of the cell `new_cell`, paid for by the cell `payer` with
/// the least balance that the host asks of a cell of that size, and owned by
/// the program `owner`. The proof of authority signs for the new cell.
#[derive(Clone, Debug, PartialEq, Eq)]
pub struct CellCreation {
    pub payer: usize,
    pub new_cell: usize,
    pub system_program: usize,
    pub space: u64,
    pub owner: Key,
    pub authority_proof: AuthorityProof,
}

/// A request for a new cell as a mathematical value.
pub struct CellCreationView {
    pub payer: usize,
    pub new_cell: usize,
    pub system_program: usize,
    pub space: u64,
    pub owner: Key,
    pub authority_proof: AuthorityProofView,
}

impl View for CellCreation {
    type V = CellCreationView;

    open spec fn view(&self) -> CellCreationView {
        CellCreationView {
            payer: self.payer,
            new_cell: self.new_cell,
            system_program: self.system_program,
            space: self.space,
            owner: self.owner,
            authority_proof: self.authority_proof@,
        }
    }
}

/// What a program asks of the host in the middle of an invocation. The host
/// does it and reports how it ended; the program goes on from there.
#[derive(Clone, Debug, PartialEq, Eq)]
pub enum HostCall {
    /// Create a storage cell.
    CreateCell(CellCreation),
    /// Run another program.
    Invoke(Invocation),
}

/// A request to the host as a mathematical value.
pub enum HostCallView {
    CreateCell(CellCreationView),
    Invoke(InvocationView),
}

impl View for HostCall {
    type V = HostCallView;

    open spec fn view(&self) -> HostCallView {
        match self {
            HostCall::CreateCell(creation) => HostCallView::CreateCell(creation@),
            HostCall::Invoke(invocation) => HostCallView::Invoke(invocation@),
        }
    }
}

/// The address of the host's program that creates storage cells: 32 zero
/// bytes.
pub fn system_program_id() -> (r: Key)
    ensures
        r == Key::zero(),
{
    Key::default()
}

/// Each cell of the instruction is, under its handle, among the caller's
/// cells.
pub open spec fn handles_resolve(
    metas: Seq<AccountMeta>,
    handles: Seq<usize>,
    accounts: Seq<Cell>,
) -> bool {
    &&& handles.len() == metas.len()
    &&& forall|i: int|
        0 <= i < metas.len() ==> (#[trigger] handles[i]) < accounts.len()
            && accounts[handles[i] as int].key == metas[i].pubkey
}

/// Each cell that the instruction marks as a signer is at the derived
/// address `authority`.
pub open spec fn signers_authorized(metas: Seq<AccountMeta>, authority: Key) -> bool {
    forall|i: int|
        0 <= i < metas.len() && (#[trigger] metas[i]).is_signer ==> metas[i].pubkey == authority
}

/// The cells that the callee of an invocation is given: for each cell of the
/// instruction in turn, the caller's cell under its handle, marked as a
/// signer where the instruction says so. The callee cannot tell a derived
/// address that the bridge let through from a key that signed.
pub open spec fn callee_cells(invocation: InvocationView, accounts: Seq<Cell>) -> Seq<Cell> {
    Seq::new(
        invocation.instruction.accounts.len(),
        |i: int|
            accounts[invocation.account_handles[i] as int].with_signer(
                invocation.instruction.accounts[i].is_signer,
            ),
    )
}

/// Whether the bridge lets a call through, and the error if not.
pub open spec fn invoke_check(
    target_program: Key,
    instruction: InstructionView,
    handles: Seq<usize>,
    authority: Result<Key, ProgramError>,
    accounts: Seq<Cell>,
) -> ProgramResult {
    if instruction.program_id != target_program {
        Err(ProgramError::IncorrectProgramId)
    } else {
        match authority {
            Err(_) => Err(ProgramError::InvalidArgument),
            Ok(address) => if !handles_resolve(instruction.accounts, handles, accounts) {
                Err(ProgramError::NotEnoughAccountKeys)
            } else if !signers_authorized(instruction.accounts, address) {
                Err(ProgramError::InvalidArgument)
            } else {
                Ok(())
            },
        }
    }
}

/// Checks a call of `target_program` against the caller's cells and the proof
/// of authority, and hands it back for the host to run.
///
/// The call is let through if and only if the instruction is one for the
/// target program, the proof derives an address, every cell of the
/// instruction is among the caller's cells under its handle, and every
/// signer of the instruction is at the address that the proof derives: a
/// proof that derives nothing, and any other signer, fail with
/// `InvalidArgument`. What is handed back is what was handed in.
pub fn invoke(
    target_program: &Key,
    instruction: Instruction,
    account_handles: Vec<usize>,
    authority_proof: AuthorityProof,
    accounts: &Vec<Account>,
) -> (r: Result<Invocation, ProgramError>)
    ensures
        match invoke_check(
            *target_program,
            instruction@,
            account_handles@,
            authority_proof.address(),
            accounts.deep_view(),
        ) {
            Ok(()) => r == Ok::<Invocation, ProgramError>(
                Invocation { instruction, account_handles, authority_proof },
            ),
            Err(e) => r == Err::<Invocation, ProgramError>(e),
        },
{
    if instruction.program_id != *target_program {
        return Err(ProgramError::IncorrectProgramId);
    }
    let all = seeds_with_bump(&authority_proof.seeds, authority_proof.bump);
    let address = match create_program_address(&all, &authority_proof.program_scope) {
        Ok(address) => address,
        Err(_) => {
            return Err(ProgramError::InvalidArgument);
        },
    };
    if account_handles.len() != instruction.accounts.len() {
        return Err(ProgramError::NotEnoughAccountKeys);
    }
    let n = instruction.accounts.len();
    let mut i: usize = 0;
    while i < n
        invariant
            i <= n,
            n == instruction.accounts@.len(),
            n == account_handles@.len(),
            instruction.program_id == *target_program,
            authority_proof.address() == Ok::<Key, ProgramError>(address),
            forall|j: int|
                0 <= j < i ==> (#[trigger] account_handles@[j]) < accounts@.len()
                    && accounts@[account_handles@[j] as int].key == instruction.accounts@[j].pubkey,
        decreases n - i,
    {
        let handle = account_handles[i];
        if handle >= accounts.len() || accounts[handle].key != instruction.accounts[i].pubkey {
            assert(!handles_resolve(
                instruction.accounts@,
                account_handles@,
                accounts.deep_view(),
            )) by {
                assert(account_handles@[i as int] == handle);
            }
            return Err(ProgramError::NotEnoughAccountKeys);
        }
        i = i + 1;
    }
    assert(handles_resolve(instruction.accounts@, account_handles@, accounts.deep_view()));
    let mut i: usize = 0;
    while i < n
        invariant
            i <= n,
            n == instruction.accounts@.len(),
            n == account_handles@.len(),
            instruction.program_id == *target_program,
            authority_proof.address() == Ok::<Key, ProgramError>(address),
            handles_resolve(instruction.accounts@, account_handles@, accounts.deep_view()),
            forall|j: int|
                0 <= j < i && (#[trigger] instruction.accounts@[j]).is_signer
                    ==> instruction.accounts@[j].pubkey == address,
        decreases n - i,
    {
        let meta = instruction.accounts[i];
        if meta.is_signer && meta.pubkey != address {
            assert(!signers_authorized(instruction.accounts@, address)) by {
                assert(instruction.accounts@[i as int].is_signer);
            }
            return Err(ProgramError::InvalidArgument);
        }
        i = i + 1;
    }
    Ok(Invocation { instruction, account_handles, authority_proof })
}

} // verus!
