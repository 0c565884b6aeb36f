//! The counter program's instructions and their payloads.

use vstd::prelude::*;
use crate::error::ProgramError;

verus! {

/// An instruction of the counter program.
#[derive(Clone, Copy, Debug, PartialEq, Eq, Structural)]
pub enum CounterInstruction {
    /// Adds one to the count. Payload: the byte 0.
    Increment,
}

impl CounterInstruction {
    /// The payload of the instruction.
    pub open spec fn encode(self) -> Seq<u8> {
        seq![0u8]
    }

    /// The instruction that a payload holds, if it is exactly one.
    pub open spec fn decode(bytes: Seq<u8>) -> Option<CounterInstruction> {
        if bytes.len() == 1 && bytes[0] == 0 {
            Some(CounterInstruction::Increment)
        } else {
            None
        }
    }

    /// Decodes a payload.
    pub fn try_from_slice(v: &[u8]) -> (r: Result<CounterInstruction, ProgramError>)
        ensures
            r == (match Self::decode(v@) {
                Some(instruction) => Ok::<CounterInstruction, ProgramError>(instruction),
                None => Err(ProgramError::InvalidInstructionData),
            }),
    {
        if v.len() == 1 && v[0] == 0 {
            Ok(CounterInstruction::Increment)
        } else {
            Err(ProgramError::InvalidInstructionData)
        }
    }

    /// Encodes the instruction.
    pub fn try_to_vec(&self) -> (r: Result<Vec<u8>, ProgramError>)
        ensures
            r is Ok,
            r->Ok_0@ == self.encode(),
    {
        let mut out: Vec<u8> = Vec::new();
        out.push(0u8);
        assert(out@ =~= self.encode());
        Ok(out)
    }

    /// Decoding an encoded instruction gives the instruction.
    pub proof fn law_round_trip(instruction: CounterInstruction)
        ensures
            Self::decode(instruction.encode()) == Some(instruction),
    {
    }

    /// A payload that decodes is the encoding of what it decodes to.
    pub proof fn law_canonical(bytes: Seq<u8>)
        requires
            Self::decode(bytes) is Some,
        ensures
            Self::decode(bytes)->0.encode() == bytes,
    {
        assert(bytes =~= seq![0u8]);
    }
}

} // verus!
