//! Storage cells as an invocation sees them.

use vstd::prelude::*;
use crate::error::ProgramError;
use crate::key::Key;

verus! {

/// A storage cell handed to an invocation: its address, whether its key
/// signed the invocation, and its bytes.
///
/// A program names the cells of an invocation by their position in the list
/// it was given. Such a handle means something during that invocation only.
#[derive(Clone, Debug, PartialEq, Eq)]
pub struct Account {
    pub key: Key,
    pub is_signer: bool,
    pub data: Vec<u8>,
}

/// What a storage cell holds, as a mathematical value.
pub struct Cell {
    pub key: Key,
    pub is_signer: bool,
    pub data: Seq<u8>,
}

impl View for Account {
    type V = Cell;

    open spec fn view(&self) -> Cell {
        Cell { key: self.key, is_signer: self.is_signer, data: self.data@ }
    }
}

impl DeepView for Account {
    type V = Cell;

    open spec fn deep_view(&self) -> Cell {
        self@
    }
}

impl Cell {
    /// This cell with other bytes.
    pub open spec fn with_data(self, data: Seq<u8>) -> Cell {
        Cell { data, ..self }
    }

    /// This cell as the callee of a delegated invocation sees it.
    pub open spec fn with_signer(self, is_signer: bool) -> Cell {
        Cell { is_signer, ..self }
    }
}

impl Account {
    /// A cell at `key` holding `data`.
    pub fn new(key: Key, is_signer: bool, data: Vec<u8>) -> (r: Account)
        ensures
            r.key == key,
            r.is_signer == is_signer,
            r.data == data,
    {
        Account { key, is_signer, data }
    }
}

/// The handle of the next cell of the invocation, where `cursor` counts the
/// cells taken so far.
pub fn next_account_info(accounts: &Vec<Account>, cursor: &mut usize) -> (r: Result<
    usize,
    ProgramError,
>)
    ensures
        *old(cursor) < accounts@.len() ==> r == Ok::<usize, ProgramError>(*old(cursor))
            && *final(cursor) == *old(cursor) + 1,
        *old(cursor) >= accounts@.len() ==> r == Err::<usize, ProgramError>(
            ProgramError::NotEnoughAccountKeys,
        ) && *final(cursor) == *old(cursor),
{
    if *cursor < accounts.len() {
        let handle = *cursor;
        *cursor = handle + 1;
        Ok(handle)
    } else {
        Err(ProgramError::NotEnoughAccountKeys)
    }
}

} // verus!
