//! The instructions of the echo program and their payloads.

use vstd::prelude::*;
use crate::error::ProgramError;
use crate::wire::{
    is_tagged_vec, lemma_u64_canonical, lemma_u64_round_trip, lemma_vec_canonical,
    lemma_vec_round_trip, push_u64, push_vec, read_u64, read_tagged_vec, u64_at, u64_bytes,
    tagged_vec, vec_bytes,
};

verus! {

/// An instruction of the echo program. The payload is one byte that selects
/// the instruction, followed by its fields.
#[derive(Clone, Debug, PartialEq, Eq)]
pub enum EchoInstruction {
    /// Copies the data into the buffer cell: as many bytes as the cell has
    /// room for. Fails if the cell holds anything but zeros. Tag 0, then a
    /// byte vector.
    ///
    /// Cells: the buffer, which is written.
    Echo { data: Vec<u8> },
    /// Creates a buffer of `buffer_size` bytes that only the authority can
    /// write to. Its first nine bytes hold the bump and the seed. Tag 1, then
    /// the seed and the size in eight bytes each.
    ///
    /// Cells: the buffer, at a derived address; the authority, which signs;
    /// the host's program that creates cells.
    InitializeAuthorizedEcho { buffer_seed: u64, buffer_size: usize },
    /// Copies the data into the authority's buffer behind its first nine
    /// bytes, after the rest was set to zero. Tag 2, then a byte vector.
    ///
    /// Cells: the buffer; the authority, which signs.
    AuthorizedEcho { data: Vec<u8> },
    /// Creates a buffer of `buffer_size` bytes that takes `price` tokens to
    /// write to. Its first nine bytes hold the bump and the price. Tag 3,
    /// then the price and the size in eight bytes each.
    ///
    /// Cells: the buffer, at a derived address; the mint of the tokens; the
    /// payer, who signs; the host's program that creates cells.
    InitializeVendingMachineEcho { price: u64, buffer_size: usize },
    /// Burns the price from the user's token account, then copies the data
    /// into the buffer behind its first nine bytes. Tag 4, then a byte
    /// vector.
    ///
    /// Cells: the buffer; the user, who signs; the user's token account; the
    /// mint; the token program.
    VendingMachineEcho { data: Vec<u8> },
}

/// An instruction of the echo program as a mathematical value.
pub enum EchoInstructionView {
    Echo { data: Seq<u8> },
    InitializeAuthorizedEcho { buffer_seed: u64, buffer_size: usize },
    AuthorizedEcho { data: Seq<u8> },
    InitializeVendingMachineEcho { price: u64, buffer_size: usize },
    VendingMachineEcho { data: Seq<u8> },
}

impl View for EchoInstruction {
    type V = EchoInstructionView;

    open spec fn view(&self) -> EchoInstructionView {
        match self {
            EchoInstruction::Echo { data } => EchoInstructionView::Echo { data: data@ },
            EchoInstruction::InitializeAuthorizedEcho { buffer_seed, buffer_size } => {
                EchoInstructionView::InitializeAuthorizedEcho {
                    buffer_seed: *buffer_seed,
                    buffer_size: *buffer_size,
                }
            },
            EchoInstruction::AuthorizedEcho { data } => EchoInstructionView::AuthorizedEcho {
                data: data@,
            },
            EchoInstruction::InitializeVendingMachineEcho { price, buffer_size } => {
                EchoInstructionView::InitializeVendingMachineEcho {
                    price: *price,
                    buffer_size: *buffer_size,
                }
            },
            EchoInstruction::VendingMachineEcho { data } => {
                EchoInstructionView::VendingMachineEcho { data: data@ }
            },
        }
    }
}

/// A tag, then two integers of eight bytes each.
pub open spec fn two_fields(tag: u8, first: u64, second: u64) -> Seq<u8> {
    seq![tag] + u64_bytes(first) + u64_bytes(second)
}

impl EchoInstructionView {
    /// Whether the instruction has a payload: a byte vector must have a
    /// length that fits in 32 bits.
    pub open spec fn encodable(self) -> bool {
        match self {
            EchoInstructionView::Echo { data } => data.len() <= u32::MAX,
            EchoInstructionView::AuthorizedEcho { data } => data.len() <= u32::MAX,
            EchoInstructionView::VendingMachineEcho { data } => data.len() <= u32::MAX,
            _ => true,
        }
    }

    /// The payload of the instruction.
    pub open spec fn encode(self) -> Seq<u8> {
        match self {
            EchoInstructionView::Echo { data } => seq![0u8] + vec_bytes(data),
            EchoInstructionView::InitializeAuthorizedEcho { buffer_seed, buffer_size } => {
                two_fields(1, buffer_seed, buffer_size as u64)
            },
            EchoInstructionView::AuthorizedEcho { data } => seq![2u8] + vec_bytes(data),
            EchoInstructionView::InitializeVendingMachineEcho { price, buffer_size } => {
                two_fields(3, price, buffer_size as u64)
            },
            EchoInstructionView::VendingMachineEcho { data } => seq![4u8] + vec_bytes(data),
        }
    }
}

impl EchoInstruction {
    /// The instruction that a payload holds, if it is exactly one: the tag
    /// names an instruction and the fields fill the rest. A buffer size must
    /// fit the machine's word.
    pub open spec fn decode(bytes: Seq<u8>) -> Option<EchoInstructionView> {
        if bytes.len() >= 1 && bytes[0] == 0 && is_tagged_vec(bytes) {
            Some(EchoInstructionView::Echo { data: tagged_vec(bytes) })
        } else if bytes.len() == 17 && bytes[0] == 1 && u64_at(bytes, 9) <= usize::MAX {
            Some(
                EchoInstructionView::InitializeAuthorizedEcho {
                    buffer_seed: u64_at(bytes, 1),
                    buffer_size: u64_at(bytes, 9) as usize,
                },
            )
        } else if bytes.len() >= 1 && bytes[0] == 2 && is_tagged_vec(bytes) {
            Some(EchoInstructionView::AuthorizedEcho { data: tagged_vec(bytes) })
        } else if bytes.len() == 17 && bytes[0] == 3 && u64_at(bytes, 9) <= usize::MAX {
            Some(
                EchoInstructionView::InitializeVendingMachineEcho {
                    price: u64_at(bytes, 1),
                    buffer_size: u64_at(bytes, 9) as usize,
                },
            )
        } else if bytes.len() >= 1 && bytes[0] == 4 && is_tagged_vec(bytes) {
            Some(EchoInstructionView::VendingMachineEcho { data: tagged_vec(bytes) })
        } else {
            None
        }
    }

    /// Decodes a payload.
    pub fn try_from_slice(v: &[u8]) -> (r: Result<EchoInstruction, ProgramError>)
        ensures
            match Self::decode(v@) {
                Some(instruction) => r is Ok && r->Ok_0@ == instruction,
                None => r == Err::<EchoInstruction, ProgramError>(
                    ProgramError::InvalidInstructionData,
                ),
            },
    {
        if v.len() == 0 {
            return Err(ProgramError::InvalidInstructionData);
        }
        let tag = v[0];
        if tag == 0 || tag == 2 || tag == 4 {
            match read_tagged_vec(v) {
                None => Err(ProgramError::InvalidInstructionData),
                Some(data) => if tag == 0 {
                    Ok(EchoInstruction::Echo { data })
                } else if tag == 2 {
                    Ok(EchoInstruction::AuthorizedEcho { data })
                } else {
                    Ok(EchoInstruction::VendingMachineEcho { data })
                },
            }
        } else if tag == 1 || tag == 3 {
            if v.len() != 17 {
                return Err(ProgramError::InvalidInstructionData);
            }
            let first = read_u64(v, 1);
            let size = read_u64(v, 9);
            if size > usize::MAX as u64 {
                return Err(ProgramError::InvalidInstructionData);
            }
            if tag == 1 {
                Ok(
                    EchoInstruction::InitializeAuthorizedEcho {
                        buffer_seed: first,
                        buffer_size: size as usize,
                    },
                )
            } else {
                Ok(
                    EchoInstruction::InitializeVendingMachineEcho {
                        price: first,
                        buffer_size: size as usize,
                    },
                )
            }
        } else {
            Err(ProgramError::InvalidInstructionData)
        }
    }

    /// Encodes the instruction. A byte vector whose length does not fit in 32
    /// bits has no encoding.
    pub fn try_to_vec(&self) -> (r: Result<Vec<u8>, ProgramError>)
        ensures
            self@.encodable() ==> r is Ok && r->Ok_0@ == self@.encode(),
            !self@.encodable() ==> r == Err::<Vec<u8>, ProgramError>(ProgramError::BorshIoError),
    {
        let mut out: Vec<u8> = Vec::new();
        match self {
            EchoInstruction::Echo { data } => {
                out.push(0u8);
                if !push_vec(&mut out, data.as_slice()) {
                    return Err(ProgramError::BorshIoError);
                }
            },
            EchoInstruction::InitializeAuthorizedEcho { buffer_seed, buffer_size } => {
                out.push(1u8);
                push_u64(&mut out, *buffer_seed);
                push_u64(&mut out, *buffer_size as u64);
            },
            EchoInstruction::AuthorizedEcho { data } => {
                out.push(2u8);
                if !push_vec(&mut out, data.as_slice()) {
                    return Err(ProgramError::BorshIoError);
                }
            },
            EchoInstruction::InitializeVendingMachineEcho { price, buffer_size } => {
                out.push(3u8);
                push_u64(&mut out, *price);
                push_u64(&mut out, *buffer_size as u64);
            },
            EchoInstruction::VendingMachineEcho { data } => {
                out.push(4u8);
                if !push_vec(&mut out, data.as_slice()) {
                    return Err(ProgramError::BorshIoError);
                }
            },
        }
        assert(out@ =~= self@.encode());
        Ok(out)
    }

    /// A tag and two encoded integers have 17 bytes and decode to the
    /// integers.
    proof fn lemma_two_fields(tag: u8, first: u64, second: u64)
        ensures
            two_fields(tag, first, second).len() == 17,
            two_fields(tag, first, second)[0] == tag,
            u64_at(two_fields(tag, first, second), 1) == first,
            u64_at(two_fields(tag, first, second), 9) == second,
    {
        let bytes = two_fields(tag, first, second);
        lemma_u64_round_trip(seq![tag], first, u64_bytes(second));
        lemma_u64_round_trip(seq![tag] + u64_bytes(first), second, Seq::empty());
        assert(seq![tag] + u64_bytes(first) + u64_bytes(second) + Seq::<u8>::empty() =~= bytes);
    }

    /// Decoding an encoded instruction gives the instruction.
    pub proof fn law_round_trip(instruction: EchoInstructionView)
        requires
            instruction.encodable(),
        ensures
            Self::decode(instruction.encode()) == Some(instruction),
    {
        match instruction {
            EchoInstructionView::Echo { data } => {
                lemma_vec_round_trip(0u8, data);
            },
            EchoInstructionView::InitializeAuthorizedEcho { buffer_seed, buffer_size } => {
                Self::lemma_two_fields(1, buffer_seed, buffer_size as u64);
            },
            EchoInstructionView::AuthorizedEcho { data } => {
                lemma_vec_round_trip(2u8, data);
            },
            EchoInstructionView::InitializeVendingMachineEcho { price, buffer_size } => {
                Self::lemma_two_fields(3, price, buffer_size as u64);
            },
            EchoInstructionView::VendingMachineEcho { data } => {
                lemma_vec_round_trip(4u8, data);
            },
        }
    }

    /// A payload that decodes is the encoding of what it decodes to.
    pub proof fn law_canonical(bytes: Seq<u8>)
        requires
            Self::decode(bytes) is Some,
        ensures
            Self::decode(bytes)->0.encodable(),
            Self::decode(bytes)->0.encode() == bytes,
    {
        if bytes[0] == 1 || bytes[0] == 3 {
            lemma_u64_canonical(bytes, 1);
            lemma_u64_canonical(bytes, 9);
            assert(seq![bytes[0]] + bytes.subrange(1, 9) + bytes.subrange(9, 17) =~= bytes);
        } else {
            lemma_vec_canonical(bytes);
        }
    }
}

} // verus!
