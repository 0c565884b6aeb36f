//! The authorized counter program's instructions, and how a caller builds
//! one.

use vstd::prelude::*;
use crate::bridge::{AccountMeta, Instruction, InstructionView};
use crate::error::ProgramError;
use crate::key::Key;

verus! {

/// An instruction of the authorized counter program.
#[derive(Clone, Copy, Debug, PartialEq, Eq, Structural)]
pub enum CounterInstruction {
    /// Adds one to the count. Payload: the byte 0.
    ///
    /// Cells: the counter, which is written; the authority, which must sign.
    Increment,
}

impl CounterInstruction {
    /// The payload of the instruction.
    pub open spec fn encode(self) -> Seq<u8> {
        seq![0u8]
    }

    /// The instruction that a payload holds, if it is exactly one.
    pub open spec fn decode(bytes: Seq<u8>) -> Option<CounterInstruction> {
        if bytes.len() == 1 && bytes[0] == 0 {
            Some(CounterInstruction::Increment)
        } else {
            None
        }
    }

    /// Decodes a payload.
    pub fn try_from_slice(v: &[u8]) -> (r: Result<CounterInstruction, ProgramError>)
        ensures
            r == (match Self::decode(v@) {
                Some(instruction) => Ok::<CounterInstruction, ProgramError>(instruction),
                None => Err(ProgramError::InvalidInstructionData),
            }),
    {
        if v.len() == 1 && v[0] == 0 {
            Ok(CounterInstruction::Increment)
        } else {
            Err(ProgramError::InvalidInstructionData)
        }
    }

    /// Encodes the instruction.
    pub fn try_to_vec(&self) -> (r: Result<Vec<u8>, ProgramError>)
        ensures
            r is Ok,
            r->Ok_0@ == self.encode(),
    {
        let mut out: Vec<u8> = Vec::new();
        out.push(0u8);
        assert(out@ =~= self.encode());
        Ok(out)
    }

    /// Decoding an encoded instruction gives the instruction.
    pub proof fn law_round_trip(instruction: CounterInstruction)
        ensures
            Self::decode(instruction.encode()) == Some(instruction),
    {
    }

    /// A payload that decodes is the encoding of what it decodes to.
    pub proof fn law_canonical(bytes: Seq<u8>)
        requires
            Self::decode(bytes) is Some,
        ensures
            Self::decode(bytes)->0.encode() == bytes,
    {
        assert(bytes =~= seq![0u8]);
    }
}

/// The instruction that `increment` builds.
pub open spec fn increment_spec(
    program_id: Key,
    counter: Key,
    authority: Key,
    instruction: CounterInstruction,
) -> InstructionView {
    InstructionView {
        program_id,
        accounts: seq![
            AccountMeta { pubkey: counter, is_signer: false, is_writable: true },
            AccountMeta { pubkey: authority, is_signer: true, is_writable: false },
        ],
        data: instruction.encode(),
    }
}

/// Builds `instruction` for the program `program_id`: the counter cell is
/// written and does not sign, the authority signs and is only read.
pub fn increment(
    program_id: Key,
    counter: Key,
    authority: Key,
    instruction: CounterInstruction,
) -> (r: Result<Instruction, ProgramError>)
    ensures
        r is Ok,
        r->Ok_0@ == increment_spec(program_id, counter, authority, instruction),
{
    let mut accounts: Vec<AccountMeta> = Vec::new();
    accounts.push(AccountMeta::new(counter, false));
    accounts.push(AccountMeta::new_readonly(authority, true));
    let data = instruction.try_to_vec()?;
    let built = Instruction { program_id, accounts, data };
    assert(built@.accounts =~= increment_spec(program_id, counter, authority, instruction).accounts);
    Ok(built)
}

} // verus!
