//! The tracker program's instructions and their payloads.

use vstd::prelude::*;
use crate::error::ProgramError;

verus! {

/// An instruction of the tracker program. The payload is the one byte that
/// selects the instruction.
#[derive(Clone, Copy, Debug, PartialEq, Eq, Structural)]
pub enum TrackerInstruction {
    /// Creates the tracker of a user and a counter. Tag 0.
    ///
    /// Cells: the tracker, at the address derived from the user and the
    /// counter; the user, who pays; the tracker's authority, at the address
    /// derived from the counter; the counter; the host's program that creates
    /// cells.
    Initialize,
    /// Raises the counter through the tracker, and the tracker's own count.
    /// Tag 1.
    ///
    /// Cells: the tracker; the user; the counter program; the counter; the
    /// tracker's authority.
    Increment,
}

impl TrackerInstruction {
    /// The payload of the instruction.
    pub open spec fn encode(self) -> Seq<u8> {
        match self {
            TrackerInstruction::Initialize => seq![0u8],
            TrackerInstruction::Increment => seq![1u8],
        }
    }

    /// The instruction that a payload holds, if it is exactly one.
    pub open spec fn decode(bytes: Seq<u8>) -> Option<TrackerInstruction> {
        if bytes.len() == 1 && bytes[0] == 0 {
            Some(TrackerInstruction::Initialize)
        } else if bytes.len() == 1 && bytes[0] == 1 {
            Some(TrackerInstruction::Increment)
        } else {
            None
        }
    }

    /// Decodes a payload.
    pub fn try_from_slice(v: &[u8]) -> (r: Result<TrackerInstruction, ProgramError>)
        ensures
            r == (match Self::decode(v@) {
                Some(instruction) => Ok::<TrackerInstruction, ProgramError>(instruction),
                None => Err(ProgramError::InvalidInstructionData),
            }),
    {
        if v.len() != 1 {
            Err(ProgramError::InvalidInstructionData)
        } else if v[0] == 0 {
            Ok(TrackerInstruction::Initialize)
        } else if v[0] == 1 {
            Ok(TrackerInstruction::Increment)
        } else {
            Err(ProgramError::InvalidInstructionData)
        }
    }

    /// Encodes the instruction.
    pub fn try_to_vec(&self) -> (r: Result<Vec<u8>, ProgramError>)
        ensures
            r is Ok,
            r->Ok_0@ == self.encode(),
    {
        let mut out: Vec<u8> = Vec::new();
        match self {
            TrackerInstruction::Initialize => {
                out.push(0u8);
            },
            TrackerInstruction::Increment => {
                out.push(1u8);
            },
        }
        assert(out@ =~= self.encode());
        Ok(out)
    }

    /// Decoding an encoded instruction gives the instruction.
    pub proof fn law_round_trip(instruction: TrackerInstruction)
        ensures
            Self::decode(instruction.encode()) == Some(instruction),
    {
    }

    /// A payload that decodes is the encoding of what it decodes to.
    pub proof fn law_canonical(bytes: Seq<u8>)
        requires
            Self::decode(bytes) is Some,
        ensures
            Self::decode(bytes)->0.encode() == bytes,
    {
        assert(bytes =~= seq![bytes[0]]);
    }
}

} // verus!
