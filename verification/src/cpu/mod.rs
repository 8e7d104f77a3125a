//! The emulated processor.

/// decoding ARM instructions
pub mod decoder;
/// sandboxing the emulator
pub mod sandbox;
/// translating syscalls from ARM to x86
pub mod translation;

use crate::config::{Config, SyscallMode};
use crate::cpu::decoder::{cond_of, decode_word, decoded, Instruction};
use crate::cpu::sandbox::{sandbox_action, syscall_sandbox, syscall_stub};
use crate::cpu::translation::{
    forward_action, status_after, syscall_forward, syscall_of, ArmSyscall, SyscallAction,
};
use crate::err::Error;
use crate::mem::{translation, MappedSegment, Mem};
use crate::sys::write::{write_return, write_returned};
use crate::sys::{errno_code, Errno};
use vstd::prelude::*;

verus! {

/// The program status of a processor that starts: user mode, with the
/// flags Z and C set.
pub const INITIAL_CPSR: u32 = 0x60000010;

/// Usermode emulation
pub struct Cpu<'cpu> {
    /// r0-r15 (r13=SP, r14=LR, r15=PC)
    pub r: [u32; 16],
    pub cpsr: u32,
    pub mem: &'cpu Mem,
    /// the policy for the syscalls of the guest
    pub syscalls: SyscallMode,
    /// only set by the exit syscall and by instructions that are not
    /// implemented; it carries the exit code to the host
    pub status: Option<i32>,
}

/// What one step of the interpreter comes to: it is over, or the host has
/// work to do before the instruction is complete.
#[derive(Debug, Clone, Copy, PartialEq, Eq)]
pub enum Step {
    /// no more work: the program counter left the mapped image or reached
    /// a word of zeros
    Halt,
    /// the instruction is done, or its condition did not hold
    Continue,
    /// the word at guest address `addr`, which lies at `host_ptr` in host
    /// memory, is to be loaded into register `rd`: `complete_load` takes
    /// the word
    Load { rd: u8, addr: u32, host_ptr: usize },
    /// the instruction loads from guest address `addr`, which is not
    /// mapped: the run cannot go on
    Segfault { addr: u32 },
    /// the host is to write `len` bytes from the host address `host_ptr`
    /// to `fd`: `complete_write` takes its answer
    Write { fd: u32, host_ptr: usize, len: u32 },
    /// the guest asked for a syscall that the policy does not implement:
    /// the run cannot go on
    Unimplemented(ArmSyscall),
}

/// Whether an instruction with condition `cond` executes under the flags
/// of `cpsr`: EQ asks for Z, NE for no Z, AL for nothing, and no other
/// condition holds.
pub open spec fn condition_holds(cpsr: u32, cond: u8) -> bool {
    if cond == 0x0 {
        (cpsr >> 30) & 1 == 1
    } else if cond == 0x1 {
        (cpsr >> 30) & 1 == 0
    } else {
        cond == 0xE
    }
}

/// The registers with the program counter one word further, within 32
/// bits.
pub open spec fn advanced(r: Seq<u32>) -> Seq<u32> {
    r.update(15, ((r[15] + 4) % 0x1_0000_0000) as u32)
}

/// What the policy `mode` decides on a syscall.
pub open spec fn dispatched(
    mode: SyscallMode,
    m: Map<u32, MappedSegment>,
    r: Seq<u32>,
    syscall: ArmSyscall,
) -> SyscallAction {
    match mode {
        SyscallMode::Forward => forward_action(m, r, syscall),
        SyscallMode::Sandbox => sandbox_action(m, r, syscall),
        SyscallMode::Deny => SyscallAction::Return((-errno_code(Errno::ENOSYS)) as i32),
    }
}

impl<'cpu> Cpu<'cpu> {
    /// A processor that is about to execute the instruction at `pc`.
    pub fn new(conf: &Config, mem: &'cpu Mem, pc: u32) -> (cpu: Cpu<'cpu>)
        ensures
            cpu.r@ == Seq::new(16, |i: int| 0u32).update(15, pc),
            cpu.cpsr == INITIAL_CPSR,
            cpu.mem == mem,
            cpu.syscalls == conf.syscalls,
            cpu.status == None::<i32>,
    {
        let mut s = Cpu {
            r: [0;16],
            cpsr: INITIAL_CPSR,
            mem,
            syscalls: conf.syscalls,
            status: None,
        };
        s.r[15] = pc;
        s
    }

    /// Clears the registers and the program status.
    pub fn reset(&mut self)
        ensures
            *final(self) == (Cpu { r: final(self).r, cpsr: INITIAL_CPSR, ..*old(self) }),
            final(self).r@ == Seq::new(16, |i: int| 0u32),
    {
        self.r = [0;16];
        self.cpsr = INITIAL_CPSR;
    }

    /// The address of the instruction to execute: the program counter
    /// without its two low bits.
    pub open spec fn spec_pc(&self) -> u32 {
        self.r[15] & !0b11u32
    }

    /// The address of the instruction to execute.
    #[verifier::when_used_as_spec(spec_pc)]
    pub fn pc(&self) -> (pc: u32)
        ensures
            pc == self.spec_pc(),
    {
        self.r[15] & !0b11
    }

    /// Moves the program counter forward a word.
    pub fn advance(&mut self)
        ensures
            *final(self) == (Cpu { r: final(self).r, ..*old(self) }),
            final(self).r@ == advanced(old(self).r@),
    {
        self.r[15] = self.r[15].wrapping_add(4);
    }

    /// Whether an instruction with condition `cond` executes.
    pub fn cond_passes(&self, cond: u8) -> (passes: bool)
        ensures
            passes == condition_holds(self.cpsr, cond),
    {
        match cond {
            // EQ: Z == 1
            0x0 => (self.cpsr >> 30) & 1 == 1,
            // NE
            0x1 => (self.cpsr >> 30) & 1 == 0,
            // AL (always)
            0xE => true,
            // NV (never)
            0xF => false,
            // strict false
            _ => false,
        }
    }

    /// Where in host memory the instruction to execute lies, if the
    /// program counter is mapped.
    pub fn fetch(&self) -> (host_ptr: Option<usize>)
        ensures
            host_ptr == translation(self.mem@, self.spec_pc()),
    {
        self.mem.translate(self.pc())
    }

    /// Hands a syscall to the handler of the policy.
    pub fn dispatch(&mut self, syscall: ArmSyscall) -> (action: SyscallAction)
        ensures
            action == dispatched(old(self).syscalls, old(self).mem@, old(self).r@, syscall),
            *final(self) == (Cpu {
                status: status_after(old(self).r@, old(self).status, syscall),
                ..*old(self)
            }),
    {
        match self.syscalls {
            SyscallMode::Forward => syscall_forward(self, syscall),
            SyscallMode::Sandbox => syscall_sandbox(self, syscall),
            SyscallMode::Deny => SyscallAction::Return(syscall_stub(self, syscall)),
        }
    }

    /// What a step does when `fetched` is what stands at the program
    /// counter, `None` where nothing is mapped there: how the step ends,
    /// the registers after it, and the exit status after it.
    pub open spec fn stepped(&self, fetched: Option<u32>) -> (Result<Step, Error>, Seq<u32>, Option<
        i32,
    >) {
        let r = self.r@;
        if fetched is None || fetched == Some(0u32) {
            (Ok(Step::Halt), r, self.status)
        } else {
            let word = fetched->Some_0;
            if !condition_holds(self.cpsr, cond_of(word) as u8) {
                (Ok(Step::Continue), advanced(r), self.status)
            } else {
                match decoded(word, self.spec_pc()) {
                    Instruction::MovImm { rd, rhs } => (
                        Ok(Step::Continue),
                        advanced(r.update(rd as int, rhs)),
                        self.status,
                    ),
                    Instruction::Svc => match syscall_of(r[7]) {
                        None => (Err(Error::UnknownSyscall(r[7])), r, self.status),
                        Some(syscall) => {
                            let status = status_after(r, self.status, syscall);
                            match dispatched(self.syscalls, self.mem@, r, syscall) {
                                SyscallAction::Return(ret) => (
                                    Ok(Step::Continue),
                                    advanced(r.update(0, ret as u32)),
                                    status,
                                ),
                                SyscallAction::Write { fd, host_ptr, len } => (
                                    Ok(Step::Write { fd, host_ptr, len }),
                                    r,
                                    status,
                                ),
                                SyscallAction::Unimplemented(s) => (
                                    Ok(Step::Unimplemented(s)),
                                    r,
                                    status,
                                ),
                            }
                        },
                    },
                    Instruction::LdrLiteral { rd, addr } => match translation(self.mem@, addr) {
                        Some(host_ptr) => (Ok(Step::Load { rd, addr, host_ptr }), r, self.status),
                        None => (Ok(Step::Segfault { addr }), r, self.status),
                    },
                    Instruction::Unknown(w) => (
                        Err(Error::UnknownOrUnsupportedInstruction(w)),
                        r,
                        self.status,
                    ),
                    Instruction::Branch { .. } => (Ok(Step::Continue), advanced(r), Some(1i32)),
                }
            }
        }
    }

    /// One step of fetch, decode and execute, after the fetch: `fetched`
    /// is the word at the program counter, `None` where nothing is mapped
    /// there. A step that ends in `Load` or `Write` leaves the rest of the
    /// instruction to `complete_load` or `complete_write`.
    pub fn step(&mut self, fetched: Option<u32>) -> (r: Result<Step, Error>)
        ensures
            (r, final(self).r@, final(self).status) == old(self).stepped(fetched),
            *final(self) == (Cpu { r: final(self).r, status: final(self).status, ..*old(self) }),
            r matches Ok(Step::Load { rd, .. }) ==> rd < 16,
    {
        let Some(word) = fetched else {
            // the program counter ran off the mapped image
            return Ok(Step::Halt);
        };
        if word == 0 {
            // a word of zeros: the zeroed rest of the page
            return Ok(Step::Halt);
        }
        let decoded = decode_word(word, self.pc());
        // the instruction is not to be executed: moving along
        if !self.cond_passes(decoded.cond) {
            self.advance();
            return Ok(Step::Continue);
        }
        match decoded.instruction {
            Instruction::MovImm { rd, rhs } => {
                self.r[rd as usize] = rhs;
            },
            Instruction::Svc => {
                let syscall = match ArmSyscall::try_from(self.r[7]) {
                    Ok(syscall) => syscall,
                    Err(e) => {
                        return Err(e);
                    },
                };
                match self.dispatch(syscall) {
                    SyscallAction::Return(ret) => {
                        self.r[0] = ret as u32;
                    },
                    SyscallAction::Write { fd, host_ptr, len } => {
                        return Ok(Step::Write { fd, host_ptr, len });
                    },
                    SyscallAction::Unimplemented(s) => {
                        return Ok(Step::Unimplemented(s));
                    },
                }
            },
            Instruction::LdrLiteral { rd, addr } => {
                // addr is the place in the literal pool that holds the
                // value for the register
                return match self.mem.translate(addr) {
                    Some(host_ptr) => Ok(Step::Load { rd, addr, host_ptr }),
                    None => Ok(Step::Segfault { addr }),
                };
            },
            Instruction::Unknown(w) => {
                return Err(Error::UnknownOrUnsupportedInstruction(w));
            },
            Instruction::Branch { .. } => {
                // decoded, but not implemented: an orderly exit with a
                // failure code
                self.status = Some(1);
            },
        }
        self.advance();
        Ok(Step::Continue)
    }

    /// The exit code of the run: the exit status, or zero where the run
    /// ended without one.
    pub fn exit_code(&self) -> (code: i32)
        ensures
            code == (match self.status {
                Some(status) => status,
                None => 0,
            }),
    {
        match self.status {
            Some(status) => status,
            None => 0,
        }
    }

    /// Completes a load from the literal pool: `value` goes into register
    /// `rd`, and the program counter moves on.
    pub fn complete_load(&mut self, rd: u8, value: u32)
        requires
            rd < 16,
        ensures
            *final(self) == (Cpu { r: final(self).r, ..*old(self) }),
            final(self).r@ == advanced(old(self).r@.update(rd as int, value)),
    {
        self.r[rd as usize] = value;
        self.advance();
    }

    /// Completes a write: what the host answered goes into r0, cut to 32
    /// bits, and the program counter moves on.
    pub fn complete_write(&mut self, ret: i64)
        ensures
            *final(self) == (Cpu { r: final(self).r, ..*old(self) }),
            final(self).r@ == advanced(old(self).r@.update(0, write_returned(ret) as u32)),
    {
        self.r[0] = write_return(ret) as u32;
        self.advance();
    }
}

} // verus!
