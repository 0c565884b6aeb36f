//! The instructions of the limits program and their payloads.

use vstd::prelude::*;
use crate::error::ProgramError;
use crate::wire::{
    is_tagged_vec, lemma_u64_canonical, lemma_u64_round_trip, lemma_vec_canonical,
    lemma_vec_round_trip, push_u64, push_vec, read_u64, read_tagged_vec, u64_at, u64_bytes,
    tagged_vec, vec_bytes,
};

verus! {

/// An instruction of the limits program. The payload is one byte that
/// selects the instruction, followed by its field where it has one.
#[derive(Clone, Debug, PartialEq, Eq)]
pub enum RuntimeLimitationInstruction {
    /// Tag 0.
    Stack,
    /// Tag 1, then the number of rounds in eight bytes.
    Runtime { max_iter: usize },
    /// Tag 2, then a size in eight bytes.
    Cpi { size: u64 },
    /// Tag 3.
    ZeroCopy,
    /// Tag 4, then a byte vector.
    Tx { data: Vec<u8> },
}

/// An instruction of the limits program as a mathematical value.
pub enum RuntimeLimitationInstructionView {
    Stack,
    Runtime { max_iter: usize },
    Cpi { size: u64 },
    ZeroCopy,
    Tx { data: Seq<u8> },
}

impl View for RuntimeLimitationInstruction {
    type V = RuntimeLimitationInstructionView;

    open spec fn view(&self) -> RuntimeLimitationInstructionView {
        match self {
            RuntimeLimitationInstruction::Stack => RuntimeLimitationInstructionView::Stack,
            RuntimeLimitationInstruction::Runtime { max_iter } => {
                RuntimeLimitationInstructionView::Runtime { max_iter: *max_iter }
            },
            RuntimeLimitationInstruction::Cpi { size } => RuntimeLimitationInstructionView::Cpi {
                size: *size,
            },
            RuntimeLimitationInstruction::ZeroCopy => RuntimeLimitationInstructionView::ZeroCopy,
            RuntimeLimitationInstruction::Tx { data } => RuntimeLimitationInstructionView::Tx {
                data: data@,
            },
        }
    }
}

impl RuntimeLimitationInstructionView {
    /// Whether the instruction has a payload: a byte vector must have a
    /// length that fits in 32 bits.
    pub open spec fn encodable(self) -> bool {
        match self {
            RuntimeLimitationInstructionView::Tx { data } => data.len() <= u32::MAX,
            _ => true,
        }
    }

    /// The payload of the instruction.
    pub open spec fn encode(self) -> Seq<u8> {
        match self {
            RuntimeLimitationInstructionView::Stack => seq![0u8],
            RuntimeLimitationInstructionView::Runtime { max_iter } => seq![1u8] + u64_bytes(
                max_iter as u64,
            ),
            RuntimeLimitationInstructionView::Cpi { size } => seq![2u8] + u64_bytes(size),
            RuntimeLimitationInstructionView::ZeroCopy => seq![3u8],
            RuntimeLimitationInstructionView::Tx { data } => seq![4u8] + vec_bytes(data),
        }
    }
}

impl RuntimeLimitationInstruction {
    /// The instruction that a payload holds, if it is exactly one: the tag
    /// names an instruction and the fields fill the rest. A number of rounds
    /// must fit the machine's word.
    pub open spec fn decode(bytes: Seq<u8>) -> Option<RuntimeLimitationInstructionView> {
        if bytes.len() == 1 && bytes[0] == 0 {
            Some(RuntimeLimitationInstructionView::Stack)
        } else if bytes.len() == 9 && bytes[0] == 1 && u64_at(bytes, 1) <= usize::MAX {
            Some(RuntimeLimitationInstructionView::Runtime { max_iter: u64_at(bytes, 1) as usize })
        } else if bytes.len() == 9 && bytes[0] == 2 {
            Some(RuntimeLimitationInstructionView::Cpi { size: u64_at(bytes, 1) })
        } else if bytes.len() == 1 && bytes[0] == 3 {
            Some(RuntimeLimitationInstructionView::ZeroCopy)
        } else if bytes.len() >= 1 && bytes[0] == 4 && is_tagged_vec(bytes) {
            Some(RuntimeLimitationInstructionView::Tx { data: tagged_vec(bytes) })
        } else {
            None
        }
    }

    /// Decodes a payload.
    pub fn try_from_slice(v: &[u8]) -> (r: Result<RuntimeLimitationInstruction, ProgramError>)
        ensures
            match Self::decode(v@) {
                Some(instruction) => r is Ok && r->Ok_0@ == instruction,
                None => r == Err::<RuntimeLimitationInstruction, ProgramError>(
                    ProgramError::InvalidInstructionData,
                ),
            },
    {
        if v.len() == 0 {
            return Err(ProgramError::InvalidInstructionData);
        }
        let tag = v[0];
        if tag == 0 || tag == 3 {
            if v.len() != 1 {
                return Err(ProgramError::InvalidInstructionData);
            }
            if tag == 0 {
                Ok(RuntimeLimitationInstruction::Stack)
            } else {
                Ok(RuntimeLimitationInstruction::ZeroCopy)
            }
        } else if tag == 1 || tag == 2 {
            if v.len() != 9 {
                return Err(ProgramError::InvalidInstructionData);
            }
            let field = read_u64(v, 1);
            if tag == 2 {
                Ok(RuntimeLimitationInstruction::Cpi { size: field })
            } else if field > usize::MAX as u64 {
                Err(ProgramError::InvalidInstructionData)
            } else {
                Ok(RuntimeLimitationInstruction::Runtime { max_iter: field as usize })
            }
        } else if tag == 4 {
            match read_tagged_vec(v) {
                Some(data) => Ok(RuntimeLimitationInstruction::Tx { data }),
                None => Err(ProgramError::InvalidInstructionData),
            }
        } else {
            Err(ProgramError::InvalidInstructionData)
        }
    }

    /// Encodes the instruction. A byte vector whose length does not fit in 32
    /// bits has no encoding.
    pub fn try_to_vec(&self) -> (r: Result<Vec<u8>, ProgramError>)
        ensures
            self@.encodable() ==> r is Ok && r->Ok_0@ == self@.encode(),
            !self@.encodable() ==> r == Err::<Vec<u8>, ProgramError>(ProgramError::BorshIoError),
    {
        let mut out: Vec<u8> = Vec::new();
        match self {
            RuntimeLimitationInstruction::Stack => {
                out.push(0u8);
            },
            RuntimeLimitationInstruction::Runtime { max_iter } => {
                out.push(1u8);
                push_u64(&mut out, *max_iter as u64);
            },
            RuntimeLimitationInstruction::Cpi { size } => {
                out.push(2u8);
                push_u64(&mut out, *size);
            },
            RuntimeLimitationInstruction::ZeroCopy => {
                out.push(3u8);
            },
            RuntimeLimitationInstruction::Tx { data } => {
                out.push(4u8);
                if !push_vec(&mut out, data.as_slice()) {
                    return Err(ProgramError::BorshIoError);
                }
            },
        }
        assert(out@ =~= self@.encode());
        Ok(out)
    }

    /// Decoding an encoded instruction gives the instruction.
    pub proof fn law_round_trip(instruction: RuntimeLimitationInstructionView)
        requires
            instruction.encodable(),
        ensures
            Self::decode(instruction.encode()) == Some(instruction),
    {
        match instruction {
            RuntimeLimitationInstructionView::Stack => {},
            RuntimeLimitationInstructionView::Runtime { max_iter } => {
                lemma_u64_round_trip(seq![1u8], max_iter as u64, Seq::empty());
                assert(seq![1u8] + u64_bytes(max_iter as u64) + Seq::<u8>::empty()
                    =~= instruction.encode());
            },
            RuntimeLimitationInstructionView::Cpi { size } => {
                lemma_u64_round_trip(seq![2u8], size, Seq::empty());
                assert(seq![2u8] + u64_bytes(size) + Seq::<u8>::empty() =~= instruction.encode());
            },
            RuntimeLimitationInstructionView::ZeroCopy => {},
            RuntimeLimitationInstructionView::Tx { data } => {
                lemma_vec_round_trip(4u8, data);
            },
        }
    }

    /// A payload that decodes is the encoding of what it decodes to.
    pub proof fn law_canonical(bytes: Seq<u8>)
        requires
            Self::decode(bytes) is Some,
        ensures
            Self::decode(bytes)->0.encodable(),
            Self::decode(bytes)->0.encode() == bytes,
    {
        if bytes[0] == 4 {
            lemma_vec_canonical(bytes);
        } else if bytes.len() == 9 {
            lemma_u64_canonical(bytes, 1);
            assert(seq![bytes[0]] + bytes.subrange(1, 9) =~= bytes);
        } else {
            assert(seq![bytes[0]] =~= bytes);
        }
    }
}

} // verus!
