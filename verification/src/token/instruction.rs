//! The token program's instructions and their payloads.

use vstd::prelude::*;
use crate::error::ProgramError;
use crate::wire::{lemma_u64_canonical, lemma_u64_round_trip, push_u64, read_u64, u64_at, u64_bytes};

verus! {

/// An instruction of the token program. The payload is one byte that selects
/// the instruction, followed by the amount where there is one.
#[derive(Clone, Copy, Debug, PartialEq, Eq, Structural)]
pub enum TokenInstruction {
    /// Makes a cell a mint with supply zero. Tag 0.
    ///
    /// Cells: the mint; the authority to be, which must sign.
    InitializeMint,
    /// Makes a cell a token account with balance zero. Tag 1.
    ///
    /// Cells: the token account; its mint; its owner.
    InitializeTokenAccount,
    /// Creates `amount` tokens in a token account. Tag 2.
    ///
    /// Cells: the token account; the mint; the mint's authority, which must
    /// sign.
    Mint { amount: u64 },
    /// Destroys `amount` tokens of a token account. Tag 3.
    ///
    /// Cells: the token account; the mint; the account's owner, who must sign.
    Burn { amount: u64 },
    /// Moves `amount` tokens from one token account to another. Tag 4.
    ///
    /// Cells: the source; the destination; the source's owner, who must sign.
    Transfer { amount: u64 },
}

impl TokenInstruction {
    /// The payload of the instruction.
    pub open spec fn encode(self) -> Seq<u8> {
        match self {
            TokenInstruction::InitializeMint => seq![0u8],
            TokenInstruction::InitializeTokenAccount => seq![1u8],
            TokenInstruction::Mint { amount } => seq![2u8] + u64_bytes(amount),
            TokenInstruction::Burn { amount } => seq![3u8] + u64_bytes(amount),
            TokenInstruction::Transfer { amount } => seq![4u8] + u64_bytes(amount),
        }
    }

    /// The instruction that a payload holds, if it is exactly one: the tag
    /// names an instruction and the fields fill the rest.
    pub open spec fn decode(bytes: Seq<u8>) -> Option<TokenInstruction> {
        if bytes.len() == 1 && bytes[0] == 0 {
            Some(TokenInstruction::InitializeMint)
        } else if bytes.len() == 1 && bytes[0] == 1 {
            Some(TokenInstruction::InitializeTokenAccount)
        } else if bytes.len() == 9 && bytes[0] == 2 {
            Some(TokenInstruction::Mint { amount: u64_at(bytes, 1) })
        } else if bytes.len() == 9 && bytes[0] == 3 {
            Some(TokenInstruction::Burn { amount: u64_at(bytes, 1) })
        } else if bytes.len() == 9 && bytes[0] == 4 {
            Some(TokenInstruction::Transfer { amount: u64_at(bytes, 1) })
        } else {
            None
        }
    }

    /// Decodes a payload.
    pub fn try_from_slice(v: &[u8]) -> (r: Result<TokenInstruction, ProgramError>)
        ensures
            r == (match Self::decode(v@) {
                Some(instruction) => Ok::<TokenInstruction, ProgramError>(instruction),
                None => Err(ProgramError::InvalidInstructionData),
            }),
    {
        if v.len() == 0 {
            return Err(ProgramError::InvalidInstructionData);
        }
        let tag = v[0];
        if tag <= 1 {
            if v.len() != 1 {
                return Err(ProgramError::InvalidInstructionData);
            }
            if tag == 0 {
                Ok(TokenInstruction::InitializeMint)
            } else {
                Ok(TokenInstruction::InitializeTokenAccount)
            }
        } else if tag <= 4 {
            if v.len() != 9 {
                return Err(ProgramError::InvalidInstructionData);
            }
            let amount = read_u64(v, 1);
            if tag == 2 {
                Ok(TokenInstruction::Mint { amount })
            } else if tag == 3 {
                Ok(TokenInstruction::Burn { amount })
            } else {
                Ok(TokenInstruction::Transfer { amount })
            }
        } else {
            Err(ProgramError::InvalidInstructionData)
        }
    }

    /// Encodes the instruction.
    pub fn try_to_vec(&self) -> (r: Result<Vec<u8>, ProgramError>)
        ensures
            r is Ok,
            r->Ok_0@ == self.encode(),
    {
        let mut out: Vec<u8> = Vec::new();
        match self {
            TokenInstruction::InitializeMint => {
                out.push(0u8);
            },
            TokenInstruction::InitializeTokenAccount => {
                out.push(1u8);
            },
            TokenInstruction::Mint { amount } => {
                out.push(2u8);
                push_u64(&mut out, *amount);
            },
            TokenInstruction::Burn { amount } => {
                out.push(3u8);
                push_u64(&mut out, *amount);
            },
            TokenInstruction::Transfer { amount } => {
                out.push(4u8);
                push_u64(&mut out, *amount);
            },
        }
        assert(out@ =~= self.encode());
        Ok(out)
    }

    /// Decoding an encoded instruction gives the instruction.
    pub proof fn law_round_trip(instruction: TokenInstruction)
        ensures
            Self::decode(instruction.encode()) == Some(instruction),
    {
        match instruction {
            TokenInstruction::InitializeMint => {},
            TokenInstruction::InitializeTokenAccount => {},
            TokenInstruction::Mint { amount } => {
                lemma_u64_round_trip(seq![2u8], amount, Seq::empty());
                assert(seq![2u8] + u64_bytes(amount) + Seq::<u8>::empty() =~= instruction.encode());
            },
            TokenInstruction::Burn { amount } => {
                lemma_u64_round_trip(seq![3u8], amount, Seq::empty());
                assert(seq![3u8] + u64_bytes(amount) + Seq::<u8>::empty() =~= instruction.encode());
            },
            TokenInstruction::Transfer { amount } => {
                lemma_u64_round_trip(seq![4u8], amount, Seq::empty());
                assert(seq![4u8] + u64_bytes(amount) + Seq::<u8>::empty() =~= instruction.encode());
            },
        }
    }

    /// A payload that decodes is the encoding of what it decodes to.
    pub proof fn law_canonical(bytes: Seq<u8>)
        requires
            Self::decode(bytes) is Some,
        ensures
            Self::decode(bytes)->0.encode() == bytes,
    {
        if bytes.len() == 9 {
            lemma_u64_canonical(bytes, 1);
            assert(seq![bytes[0]] + bytes.subrange(1, 9) =~= bytes);
        } else {
            assert(seq![bytes[0]] =~= bytes);
        }
    }
}

} // verus!
