//! The record of the counter program.

use vstd::prelude::*;
use crate::error::ProgramError;
use crate::record::Record;
use crate::wire::{push_u64, read_u64, u64_at, u64_bytes, lemma_u64_canonical, lemma_u64_round_trip};

verus! {

/// Number of bytes of a counter record.
pub const COUNTER_LEN: usize = 8;

/// A count. Layout: the count in eight bytes.
#[derive(Clone, Copy, Debug, PartialEq, Eq, Structural)]
pub struct Counter {
    pub count: u64,
}

impl Record for Counter {
    open spec fn encoding(&self) -> Seq<u8> {
        u64_bytes(self.count)
    }

    open spec fn parse(bytes: Seq<u8>) -> Option<Counter> {
        if bytes.len() == 8 {
            Some(Counter { count: u64_at(bytes, 0) })
        } else {
            None
        }
    }

    proof fn lemma_round_trip(&self) {
        lemma_u64_round_trip(Seq::empty(), self.count, Seq::empty());
        assert(Seq::<u8>::empty() + u64_bytes(self.count) + Seq::<u8>::empty() =~= u64_bytes(
            self.count,
        ));
    }

    proof fn lemma_canonical(bytes: Seq<u8>) {
        lemma_u64_canonical(bytes, 0);
        assert(bytes.subrange(0, 8) =~= bytes);
    }

    fn try_from_slice(v: &[u8]) -> (r: Result<Counter, ProgramError>) {
        if v.len() != COUNTER_LEN {
            return Err(ProgramError::BorshIoError);
        }
        Ok(Counter { count: read_u64(v, 0) })
    }

    fn to_bytes(&self) -> (r: Vec<u8>) {
        let mut out: Vec<u8> = Vec::new();
        push_u64(&mut out, self.count);
        assert(out@ =~= self.encoding());
        out
    }
}

} // verus!
