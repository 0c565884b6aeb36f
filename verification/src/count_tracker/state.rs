//! The record of the tracker program.

use vstd::prelude::*;
use crate::error::ProgramError;
use crate::key::Key;
use crate::record::Record;
use crate::wire::{
    key_at, lemma_key_canonical, lemma_key_round_trip, lemma_u64_canonical, lemma_u64_round_trip,
    push_key, push_u64, read_key, read_u64, u64_at, u64_bytes,
};

verus! {

/// Number of bytes of a tracker record.
pub const TRACKER_LEN: usize = 42;

/// A tracker. Layout: the bump of the tracker's own address, the bump of the
/// address of its authority, the counter's address in 32 bytes, the count in
/// eight.
///
/// The two bumps are set when the tracker is created. They reproduce, with
/// the seeds, the address of the tracker and that of its authority.
#[derive(Clone, Copy, Debug, PartialEq, Eq)]
pub struct Tracker {
    pub bump: u8,
    pub auth_bump: u8,
    pub counter: Key,
    pub count: u64,
}

impl Record for Tracker {
    open spec fn encoding(&self) -> Seq<u8> {
        seq![self.bump, self.auth_bump] + self.counter@ + u64_bytes(self.count)
    }

    open spec fn parse(bytes: Seq<u8>) -> Option<Tracker> {
        if bytes.len() == 42 {
            Some(
                Tracker {
                    bump: bytes[0],
                    auth_bump: bytes[1],
                    counter: key_at(bytes, 2),
                    count: u64_at(bytes, 34),
                },
            )
        } else {
            None
        }
    }

    proof fn lemma_round_trip(&self) {
        let bytes = self.encoding();
        let bumps = seq![self.bump, self.auth_bump];
        lemma_key_round_trip(bumps, self.counter, u64_bytes(self.count));
        lemma_u64_round_trip(bumps + self.counter@, self.count, Seq::empty());
        assert(bumps + self.counter@ + u64_bytes(self.count) + Seq::<u8>::empty() =~= bytes);
    }

    proof fn lemma_canonical(bytes: Seq<u8>) {
        lemma_key_canonical(bytes, 2);
        lemma_u64_canonical(bytes, 34);
        assert(seq![bytes[0], bytes[1]] + bytes.subrange(2, 34) + bytes.subrange(34, 42)
            =~= bytes);
    }

    fn try_from_slice(v: &[u8]) -> (r: Result<Tracker, ProgramError>) {
        if v.len() != TRACKER_LEN {
            return Err(ProgramError::BorshIoError);
        }
        Ok(
            Tracker {
                bump: v[0],
                auth_bump: v[1],
                counter: read_key(v, 2),
                count: read_u64(v, 34),
            },
        )
    }

    fn to_bytes(&self) -> (r: Vec<u8>) {
        let mut out: Vec<u8> = Vec::new();
        out.push(self.bump);
        out.push(self.auth_bump);
        push_key(&mut out, &self.counter);
        push_u64(&mut out, self.count);
        assert(out@ =~= self.encoding());
        out
    }
}

impl Tracker {
    /// The record of a cell that the host has just created: all zero. A
    /// tracker that was initialized is never blank, since a canonical bump
    /// is at least 1.
    pub open spec fn blank() -> Tracker {
        Tracker { bump: 0, auth_bump: 0, counter: Key::zero(), count: 0 }
    }

    /// Whether the record is blank.
    pub fn is_blank(&self) -> (r: bool)
        ensures
            r == (*self == Tracker::blank()),
    {
        self.bump == 0 && self.auth_bump == 0 && self.counter == Key::default() && self.count == 0
    }
}

} // verus!
