//! The record of the authorized counter program.

use vstd::prelude::*;
use crate::error::ProgramError;
use crate::key::Key;
use crate::record::Record;
use crate::wire::{
    key_at, lemma_key_canonical, lemma_key_round_trip, lemma_u64_canonical, lemma_u64_round_trip,
    push_key, push_u64, read_key, read_u64, u64_at, u64_bytes,
};

verus! {

/// Number of bytes of a counter record.
pub const COUNTER_LEN: usize = 40;

/// A count and the key that may raise it. Layout: the authority in 32 bytes,
/// then the count in eight.
///
/// A record whose count is zero and whose authority is the all-zero key is
/// fresh: it has no authority yet. Every other record is bound.
#[derive(Clone, Copy, Debug, PartialEq, Eq)]
pub struct Counter {
    pub authority: Key,
    pub count: u64,
}

impl Record for Counter {
    open spec fn encoding(&self) -> Seq<u8> {
        self.authority@ + u64_bytes(self.count)
    }

    open spec fn parse(bytes: Seq<u8>) -> Option<Counter> {
        if bytes.len() == 40 {
            Some(Counter { authority: key_at(bytes, 0), count: u64_at(bytes, 32) })
        } else {
            None
        }
    }

    proof fn lemma_round_trip(&self) {
        let bytes = self.encoding();
        lemma_key_round_trip(Seq::empty(), self.authority, u64_bytes(self.count));
        lemma_u64_round_trip(self.authority@, self.count, Seq::empty());
        assert(Seq::<u8>::empty() + self.authority@ + u64_bytes(self.count) =~= bytes);
        assert(self.authority@ + u64_bytes(self.count) + Seq::<u8>::empty() =~= bytes);
    }

    proof fn lemma_canonical(bytes: Seq<u8>) {
        lemma_key_canonical(bytes, 0);
        lemma_u64_canonical(bytes, 32);
        assert(bytes.subrange(0, 32) + bytes.subrange(32, 40) =~= bytes);
    }

    fn try_from_slice(v: &[u8]) -> (r: Result<Counter, ProgramError>) {
        if v.len() != COUNTER_LEN {
            return Err(ProgramError::BorshIoError);
        }
        Ok(Counter { authority: read_key(v, 0), count: read_u64(v, 32) })
    }

    fn to_bytes(&self) -> (r: Vec<u8>) {
        let mut out: Vec<u8> = Vec::new();
        push_key(&mut out, &self.authority);
        push_u64(&mut out, self.count);
        assert(out@ =~= self.encoding());
        out
    }
}

} // verus!
