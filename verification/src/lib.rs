//! Core of a user-mode emulator for statically linked 32-bit ARMv7 Linux
//! executables: ELF32 reading, the guest memory map, instruction decoding,
//! the interpreter step and the syscall policies.

pub mod config;
pub mod cpu;
pub mod elf;
pub mod err;
pub mod mem;
pub mod sys;
pub mod util;
