//! Small programs that keep typed records in storage cells of a host.
//!
//! A host hands a program a list of storage cells and a payload. The program
//! decodes the payload into an instruction, reads records from the cells,
//! checks who signed and which addresses were derived from which seeds,
//! changes the records, and writes them back. Either every check passes and
//! the records are written, or the program fails with the error of the first
//! check that failed and no cell is touched.
//!
//! The parts, from the leaves up:
//!
//! - [`wire`]: the byte layout of payloads and records.
//! - [`record`]: reading a record from a cell and writing it back in place.
//! - [`authority`]: signers and derived addresses.
//! - [`bridge`]: calls from one program into another, signed by a derived
//!   address.
//! - [`counter`], [`authorized_counter`], [`count_tracker`], [`token`]: the
//!   programs, each with its instructions, its records and its entry point.
//! - [`token::ledger`]: the supply of a mint is the sum of the balances held
//!   in it.
//! - [`token_program`]: the token rules over records that a framework of the
//!   host has loaded.
//! - [`runtime_limitations`], [`echo`]: the payloads of two more programs.
//!
//! Each entry point comes with a mathematical function of the same data,
//! which says what the entry point does for every input, and with proofs of
//! what follows from it for every run.

pub mod account;
pub mod authority;
pub mod authorized_counter;
pub mod bridge;
pub mod count_tracker;
pub mod counter;
pub mod echo;
pub mod error;
pub mod key;
pub mod record;
pub mod runtime_limitations;
pub mod token;
pub mod token_program;
pub mod wire;
