//! The numeric core of a shell's `random` command, and the table of log
//! categories that patterns switch on and off.
//!
//! `random` validates its operands, maps an arithmetic progression onto a
//! range of indices, draws one index and maps it back. Every step before and
//! after the draw is a verified function with an exact contract.

pub mod categories;
pub mod entropy;
pub mod error;
pub mod flog;
pub mod integer;
pub mod random;
pub mod range;
