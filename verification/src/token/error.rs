//! Errors of the token program's own.

use vstd::prelude::*;
use vstd::std_specs::convert::FromSpecImpl;
use crate::error::ProgramError;

verus! {

/// An error of the token program.
#[derive(Clone, Copy, Debug, PartialEq, Eq, Structural)]
pub enum TokenError {
    /// The instruction is known and not handled.
    NotImplemented,
}

impl TokenError {
    /// The number under which the error is reported.
    pub open spec fn code(self) -> u32 {
        match self {
            TokenError::NotImplemented => 0,
        }
    }

    /// What the error says.
    pub fn message(&self) -> (r: &'static str)
        ensures
            r@ == "Instruction not implemented."@,
    {
        match self {
            TokenError::NotImplemented => "Instruction not implemented.",
        }
    }
}

impl From<TokenError> for ProgramError {
    fn from(e: TokenError) -> (r: ProgramError) {
        match e {
            TokenError::NotImplemented => ProgramError::Custom(0),
        }
    }
}

impl FromSpecImpl<TokenError> for ProgramError {
    open spec fn obeys_from_spec() -> bool {
        true
    }

    open spec fn from_spec(e: TokenError) -> ProgramError {
        ProgramError::Custom(e.code())
    }
}

} // verus!
