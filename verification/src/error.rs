//! The ways in which the library refuses an input.

use vstd::prelude::*;

verus! {

/// Why a value was not built or an operation not carried out.
#[derive(Debug, Clone, Copy, PartialEq, Eq, Structural)]
pub enum VoleError {
    /// A program holds more bytes than the machine has memory.
    ProgramTooLarge,
    /// The program counter leaves no room in memory for a two-byte
    /// instruction.
    ProgramCounterOutOfRange,
}

} // verus!
