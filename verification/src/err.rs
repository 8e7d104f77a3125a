//! The errors of the emulator.

use vstd::prelude::*;

verus! {

#[derive(Debug, PartialEq, Eq)]
pub enum Error {
    /// the file is not an ELF file that the emulator runs
    ElfConstraintViolation(String),
    /// r7 holds no known syscall number at a supervisor call
    UnknownSyscall(u32),
    /// the word is no instruction that the emulator executes
    UnknownOrUnsupportedInstruction(u32),
}

} // verus!
