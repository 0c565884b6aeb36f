//! Typed records in storage cells: how a record is read from a cell's bytes
//! and written back over them.

use vstd::prelude::*;
use crate::account::{Account, Cell};
use crate::error::{ProgramError, ProgramResult};
use crate::wire::overwrite;

verus! {

/// A record of fixed layout.
pub trait Record: Sized {
    /// The bytes of the record, fields in their declared order.
    spec fn encoding(&self) -> Seq<u8>;

    /// The record that `bytes` hold. There is one only if the bytes are
    /// exactly one record: none is missing and none is left over.
    spec fn parse(bytes: Seq<u8>) -> Option<Self>;

    /// Reading what was written gives the record back.
    proof fn lemma_round_trip(&self)
        ensures
            Self::parse(self.encoding()) == Some(*self),
    ;

    /// Bytes that hold a record are the bytes of that record.
    proof fn lemma_canonical(bytes: Seq<u8>)
        requires
            Self::parse(bytes) is Some,
        ensures
            Self::parse(bytes)->0.encoding() == bytes,
    ;

    /// Reads a record from bytes.
    fn try_from_slice(v: &[u8]) -> (r: Result<Self, ProgramError>)
        ensures
            r == (match Self::parse(v@) {
                Some(record) => Ok::<Self, ProgramError>(record),
                None => Err(ProgramError::BorshIoError),
            }),
    ;

    /// The record's bytes.
    fn to_bytes(&self) -> (r: Vec<u8>)
        ensures
            r@ == self.encoding(),
    ;
}

/// What reading a record from `bytes` gives.
pub open spec fn load_result<R: Record>(bytes: Seq<u8>) -> Result<R, ProgramError> {
    match R::parse(bytes) {
        Some(record) => Ok(record),
        None => Err(ProgramError::BorshIoError),
    }
}

/// The bytes of a cell after `record` was written over its first bytes.
pub open spec fn saved<R: Record>(record: R, data: Seq<u8>) -> Seq<u8> {
    record.encoding() + data.skip(record.encoding().len() as int)
}

/// The cells with `record` written over the cell `at`.
pub open spec fn written<R: Record>(accounts: Seq<Cell>, at: int, record: R) -> Seq<Cell> {
    accounts.update(at, accounts[at].with_data(saved(record, accounts[at].data)))
}

/// Reads the record in `cell`, whatever its tag.
pub fn load_unchecked<R: Record>(cell: &Account) -> (r: Result<R, ProgramError>)
    ensures
        r == load_result::<R>(cell.data@),
{
    R::try_from_slice(cell.data.as_slice())
}

/// Writes `record` over the first bytes of `cell`, in place. A cell too short
/// for the record is left as it is.
pub fn save<R: Record>(record: &R, cell: &mut Account) -> (r: ProgramResult)
    ensures
        final(cell).key == old(cell).key,
        final(cell).is_signer == old(cell).is_signer,
        record.encoding().len() <= old(cell).data@.len() ==> r is Ok && final(cell).data@
            == saved(*record, old(cell).data@),
        record.encoding().len() > old(cell).data@.len() ==> r == Err::<(), ProgramError>(
            ProgramError::BorshIoError,
        ) && *final(cell) == *old(cell),
{
    let bytes = record.to_bytes();
    if bytes.len() > cell.data.len() {
        return Err(ProgramError::BorshIoError);
    }
    overwrite(&mut cell.data, &bytes);
    Ok(())
}

/// A record written over a cell that held a record of the same kind replaces
/// the cell's bytes by its own.
pub proof fn lemma_saved_over_record<R: Record>(record: R, old_record: R, data: Seq<u8>)
    requires
        R::parse(data) == Some(old_record),
        record.encoding().len() == old_record.encoding().len(),
    ensures
        saved(record, data) == record.encoding(),
        R::parse(saved(record, data)) == Some(record),
{
    R::lemma_canonical(data);
    record.lemma_round_trip();
    assert(data.skip(record.encoding().len() as int) =~= Seq::<u8>::empty());
    assert(saved(record, data) =~= record.encoding());
}

} // verus!
